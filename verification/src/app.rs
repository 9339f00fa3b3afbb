//! The application state: the current and previous snapshots, the
//! filtered view of the process list, the cursor positions, and the
//! interaction focus. Everything here is plain state; reading the
//! operating system and running commands stay with the caller, which
//! hands snapshots in and carries effects out.

use vstd::prelude::*;

use crate::action_menu::MenuAction;
use crate::appdata::{Ordering, WindowFocus};
use crate::logs::Logger;
use crate::sysinfo::{all_flat, views_of, SystemProcStats, SystemStat};
use crate::sysinfo::ProcessStat;

verus! {

/// The whole interaction state of the dashboard.
pub struct App {
    /// Set when the operator asked to leave; a side flag, not a focus.
    pub should_quit: bool,
    pub window_focus: WindowFocus,
    /// Cursor into the filtered process list.
    pub process_cursor: usize,
    pub proc_stats: SystemProcStats,
    pub previous_proc_stats: SystemProcStats,
    pub sys_stat: SystemStat,
    pub previous_stat: SystemStat,
    /// The baseline snapshot taken once at startup, for session totals.
    pub init_stat: SystemStat,
    pub filter_text: String,
    pub filtered_processes: Vec<ProcessStat>,
    /// Cursor into the action menu while it is open.
    pub menu_action_cursor: usize,
    pub known_menu_actions: Vec<MenuAction>,
    pub horizontal_scroll: i32,
    pub sysinfo_scroll: i32,
    /// Scroll position inside an open info popup.
    pub info_message_scroll: usize,
    /// How many wrapped lines the open info popup has, once the renderer
    /// has measured them.
    pub info_lines_num: Option<usize>,
    pub ordering: Ordering,
    pub group_by_exe: bool,
    pub error_message: Option<String>,
    pub info_message: Option<String>,
    pub logger: Logger,
}

impl App {
    /// Well-formedness: cursors sit inside their lists, scrolls are
    /// non-negative, the menu is the known fixed one, and the snapshots
    /// hold only ungrouped entries.
    pub open spec fn wf(self) -> bool {
        &&& self.known_menu_actions@.len() == 6
        &&& self.menu_action_cursor < self.known_menu_actions@.len()
        &&& (self.filtered_processes@.len() == 0 ==> self.process_cursor == 0)
        &&& (self.filtered_processes@.len() > 0 ==> self.process_cursor
            < self.filtered_processes@.len())
        &&& self.horizontal_scroll >= 0
        &&& self.sysinfo_scroll >= 0
        &&& all_flat(self.proc_stats.processes@)
        &&& all_flat(self.previous_proc_stats.processes@)
    }

    /// A fresh dashboard: browsing focus, empty snapshots and filter,
    /// cursors at the top, uptime order, grouping off, no popups.
    pub fn new() -> (r: Self)
        ensures
            r.wf(),
            !r.should_quit,
            r.window_focus == WindowFocus::Browse,
            r.process_cursor == 0,
            r.proc_stats@.len() == 0,
            r.previous_proc_stats@.len() == 0,
            r.filter_text@.len() == 0,
            r.filtered_processes@.len() == 0,
            r.menu_action_cursor == 0,
            r.horizontal_scroll == 0,
            r.sysinfo_scroll == 0,
            r.info_message_scroll == 0,
            r.info_lines_num is None,
            r.ordering == Ordering::ByUptime,
            !r.group_by_exe,
            r.error_message is None,
            r.info_message is None,
            r.logger.messages@.len() == 0,
    {
        let r = App {
            should_quit: false,
            window_focus: WindowFocus::Browse,
            process_cursor: 0,
            proc_stats: SystemProcStats::new(),
            previous_proc_stats: SystemProcStats::new(),
            sys_stat: SystemStat::new(),
            previous_stat: SystemStat::new(),
            init_stat: SystemStat::new(),
            filter_text: String::new(),
            filtered_processes: Vec::new(),
            menu_action_cursor: 0,
            known_menu_actions: crate::action_menu::generate_known_menu_actions(),
            horizontal_scroll: 0,
            sysinfo_scroll: 0,
            info_message_scroll: 0,
            info_lines_num: None,
            ordering: Ordering::ByUptime,
            group_by_exe: false,
            error_message: None,
            info_message: None,
            logger: Logger::new(),
        };
        proof {
            assert(r.proc_stats.processes@.len() == views_of(r.proc_stats.processes@).len());
            assert(r.previous_proc_stats.processes@.len() == views_of(
                r.previous_proc_stats.processes@,
            ).len());
        }
        r
    }

    /// Takes a fresh system snapshot as the current one; the process list
    /// and the rest of the state stay as they are.
    pub fn refresh_system_stats(&mut self, stat: SystemStat)
        ensures
            *final(self) == (App { sys_stat: final(self).sys_stat, ..*old(self) }),
            final(self).sys_stat@ == stat@,
    {
        self.sys_stat = stat;
    }

    /// Rotates the snapshots on a timer tick: the current system reading
    /// becomes the previous one, and the fresh reading becomes current.
    /// The startup baseline is untouched.
    pub fn tick(&mut self, new_stat: SystemStat)
        ensures
            *final(self) == (App {
                sys_stat: final(self).sys_stat,
                previous_stat: final(self).previous_stat,
                ..*old(self)
            }),
            final(self).previous_stat == old(self).sys_stat,
            final(self).sys_stat@ == new_stat@,
    {
        core::mem::swap(&mut self.previous_stat, &mut self.sys_stat);
        self.sys_stat = new_stat;
    }

    /// Fixes the session baseline: the current system reading, kept from
    /// now on for session-cumulative figures. Set once at startup.
    pub fn init_baseline(&mut self)
        ensures
            *final(self) == (App { init_stat: final(self).init_stat, ..*old(self) }),
            final(self).init_stat@ == old(self).sys_stat@,
    {
        self.init_stat = self.sys_stat.clone();
    }

    /// Raises the quit flag; the main loop leaves at the next turn.
    pub fn quit(&mut self)
        ensures
            *final(self) == (App { should_quit: true, ..*old(self) }),
    {
        self.should_quit = true;
    }

    /// Records the outcome of a signal command the caller ran: a failure
    /// message becomes the visible error popup, a success changes
    /// nothing. The caller refreshes the process list afterwards either
    /// way, so a killed process disappears.
    pub fn report_signal_result(&mut self, error: Option<String>)
        ensures
            match error {
                Option::Some(e) => *final(self) == (App {
                    error_message: Option::Some(e),
                    ..*old(self)
                }),
                Option::None => *final(self) == *old(self),
            },
    {
        match error {
            Option::Some(e) => {
                self.error_message = Some(e);
            },
            Option::None => {},
        }
    }
}

} // verus!
