//! The fixed menu of termination signals an operator can send.

use vstd::prelude::*;

verus! {

/// One named way to deliver a signal: a label for the menu and the
/// command prefix the target pid is appended to.
#[derive(Clone, Copy)]
pub struct KillSignal {
    pub name: &'static str,
    pub command: &'static str,
}

/// The fixed signal menu: interrupt, graceful terminate and forceful
/// kill, each also in a privilege-escalated variant.
pub fn generate_knwon_signals() -> (r: Vec<KillSignal>)
    ensures
        r@.len() == 5,
        r@[0].name@ == "Interrupt: kill -2"@ && r@[0].command@ == "kill -2 "@,
        r@[1].name@ == "Terminate (gracefully): kill -15"@ && r@[1].command@ == "kill -15 "@,
        r@[2].name@ == "Kill process: kill -9"@ && r@[2].command@ == "kill -9 "@,
        r@[3].name@ == "Superuser Terminate: sudo kill -15"@ && r@[3].command@ == "sudo kill -15 "@,
        r@[4].name@ == "Superuser Kill: sudo kill -9"@ && r@[4].command@ == "sudo kill -9 "@,
{
    let mut r: Vec<KillSignal> = Vec::new();
    r.push(KillSignal { name: "Interrupt: kill -2", command: "kill -2 " });
    r.push(KillSignal { name: "Terminate (gracefully): kill -15", command: "kill -15 " });
    r.push(KillSignal { name: "Kill process: kill -9", command: "kill -9 " });
    r.push(KillSignal { name: "Superuser Terminate: sudo kill -15", command: "sudo kill -15 " });
    r.push(KillSignal { name: "Superuser Kill: sudo kill -9", command: "sudo kill -9 " });
    r
}

} // verus!
