//! The action menu offered on a selected process: showing its details,
//! or sending it a termination signal through a shell command.

use vstd::prelude::*;
use vstd::string::StringExecFns;

verus! {

/// What a menu entry does when confirmed.
#[derive(Clone, Copy)]
pub enum Operation {
    /// Deliver a signal: the target pid is appended to the template to
    /// form the shell command.
    KillSignal { template: &'static str },
    /// Show the details of the selected process; always succeeds and has
    /// no side effect.
    ShowDetails,
}

/// One entry of the action menu.
#[derive(Clone, Copy)]
pub struct MenuAction {
    pub name: &'static str,
    pub operation: Operation,
}

/// The fixed action menu: process details first, then the signal
/// commands, each also in a privilege-escalated variant.
pub fn generate_known_menu_actions() -> (r: Vec<MenuAction>)
    ensures
        r@.len() == 6,
        r@[0].name@ == "Process details"@ && r@[0].operation is ShowDetails,
        r@[1].name@ == "Interrupt: kill -2"@ && r@[1].operation == (Operation::KillSignal {
            template: "kill -2 ",
        }),
        r@[2].name@ == "Terminate gracefully: kill -15"@ && r@[2].operation
            == (Operation::KillSignal { template: "kill -15 " }),
        r@[3].name@ == "Kill forcefully: kill -9"@ && r@[3].operation == (Operation::KillSignal {
            template: "kill -9 ",
        }),
        r@[4].name@ == "Superuser Terminate: sudo kill -15"@ && r@[4].operation
            == (Operation::KillSignal { template: "sudo kill -15 " }),
        r@[5].name@ == "Superuser Kill: sudo kill -9"@ && r@[5].operation
            == (Operation::KillSignal { template: "sudo kill -9 " }),
{
    let mut r: Vec<MenuAction> = Vec::new();
    r.push(MenuAction { name: "Process details", operation: Operation::ShowDetails });
    r.push(
        MenuAction {
            name: "Interrupt: kill -2",
            operation: Operation::KillSignal { template: "kill -2 " },
        },
    );
    r.push(
        MenuAction {
            name: "Terminate gracefully: kill -15",
            operation: Operation::KillSignal { template: "kill -15 " },
        },
    );
    r.push(
        MenuAction {
            name: "Kill forcefully: kill -9",
            operation: Operation::KillSignal { template: "kill -9 " },
        },
    );
    r.push(
        MenuAction {
            name: "Superuser Terminate: sudo kill -15",
            operation: Operation::KillSignal { template: "sudo kill -15 " },
        },
    );
    r.push(
        MenuAction {
            name: "Superuser Kill: sudo kill -9",
            operation: Operation::KillSignal { template: "sudo kill -9 " },
        },
    );
    r
}

/// Builds the shell command that delivers a signal to `pid`: the template
/// with the pid appended. Running the command is the caller's job, and a
/// non-zero exit there must be surfaced, never dropped.
pub fn kill_pid(pid: &String, command_template: &'static str) -> (cmd: String)
    ensures
        cmd@ == command_template@ + pid@,
{
    let mut cmd = String::new();
    cmd.append(command_template);
    cmd.append(pid.as_str());
    proof {
        assert(cmd@ =~= command_template@ + pid@);
    }
    cmd
}

} // verus!
