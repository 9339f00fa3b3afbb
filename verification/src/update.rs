//! Keyboard handling: one key press comes in, the state machine moves,
//! and at most one outside effect is handed back to the caller. Open
//! popups intercept dismissal first; Tab cycles the focus; everything
//! else goes to the handler of the focused window.

use vstd::prelude::*;

use crate::app::App;
use crate::appdata::{Effect, Ordering, WindowFocus};
use crate::app_logic::{confirm_signal_rel, cursor_moved, next_ordering, pipeline_rel, HELP_INFO};

verus! {

/// A decoded key, independent of the terminal backend.
#[derive(Clone, Copy, Debug)]
pub enum KeyCode {
    Enter,
    Esc,
    Tab,
    BackTab,
    Up,
    Down,
    Left,
    Right,
    PageUp,
    PageDown,
    Home,
    End,
    Backspace,
    Char(char),
    F(u8),
    Other,
}

/// One key press with its control modifier.
#[derive(Clone, Copy, Debug)]
pub struct KeyPress {
    pub code: KeyCode,
    pub ctrl: bool,
}

/// A list length as a cursor delta, pressed into the i32 range.
pub open spec fn len_delta(len: nat) -> int {
    if len > i32::MAX {
        i32::MAX as int
    } else {
        len as int
    }
}

/// An unrecognized key: one line is logged and nothing else changes.
pub open spec fn logged_unknown(pre: App, post: App) -> bool {
    &&& post == (App { logger: post.logger, ..pre })
    &&& post.logger.messages@.len() == pre.logger.messages@.len() + 1
    &&& forall|i: int|
        0 <= i < pre.logger.messages@.len() ==> post.logger.messages@[i]
            == pre.logger.messages@[i]
}

/// The help popup was opened, scrolled to its top.
pub open spec fn help_shown(pre: App, post: App) -> bool {
    &&& post == (App { info_message: post.info_message, info_message_scroll: 0, ..pre })
    &&& post.info_message is Some
    &&& post.info_message->0@ == HELP_INFO@
}

/// The focus after Tab: browsing, system stats and the filter cycle;
/// the action menu stays where it is.
pub open spec fn tab_next(f: WindowFocus) -> WindowFocus {
    match f {
        WindowFocus::Browse => WindowFocus::SystemStats,
        WindowFocus::SystemStats => WindowFocus::ProcessFilter,
        WindowFocus::ProcessFilter => WindowFocus::Browse,
        WindowFocus::SignalPick => WindowFocus::SignalPick,
    }
}

/// The focus after Shift+Tab: the Tab cycle backwards; the action menu
/// stays where it is.
pub open spec fn tab_prev(f: WindowFocus) -> WindowFocus {
    match f {
        WindowFocus::SystemStats => WindowFocus::Browse,
        WindowFocus::ProcessFilter => WindowFocus::SystemStats,
        WindowFocus::Browse => WindowFocus::ProcessFilter,
        WindowFocus::SignalPick => WindowFocus::SignalPick,
    }
}

/// The browse window's key table: Esc or `q` requests quit, arrows and
/// paging move the cursor, `f` or `/` or F4 opens the filter, `?` the
/// help, F5 or `r` asks for a refresh, F6 or `s` or `o` cycles the sort
/// order, `m`/`c`/`u` pick one directly, `g` toggles grouping, Enter
/// opens the action menu; anything else is logged.
pub open spec fn browse_step(pre: App, post: App, key: KeyPress, eff: Effect) -> bool {
    let k = key.code;
    if k == KeyCode::Esc || k == KeyCode::Char('q') {
        post == (App { should_quit: true, ..pre }) && eff is NoOp
    } else if k == KeyCode::Down {
        cursor_moved(pre, post, 1) && eff is NoOp
    } else if k == KeyCode::Up {
        cursor_moved(pre, post, -1) && eff is NoOp
    } else if k == KeyCode::Left {
        post == (App {
            horizontal_scroll: crate::app_logic::spec_clamp_scroll(pre.horizontal_scroll - 10),
            ..pre
        }) && eff is NoOp
    } else if k == KeyCode::Right {
        post == (App {
            horizontal_scroll: crate::app_logic::spec_clamp_scroll(pre.horizontal_scroll + 10),
            ..pre
        }) && eff is NoOp
    } else if k == KeyCode::PageDown {
        cursor_moved(pre, post, 10) && eff is NoOp
    } else if k == KeyCode::PageUp {
        cursor_moved(pre, post, -10) && eff is NoOp
    } else if k == KeyCode::Home {
        cursor_moved(pre, post, -len_delta(pre.filtered_processes@.len())) && eff is NoOp
    } else if k == KeyCode::End {
        cursor_moved(pre, post, len_delta(pre.filtered_processes@.len())) && eff is NoOp
    } else if k == KeyCode::Char('f') || k == KeyCode::Char('/') || k == KeyCode::F(4) {
        post == (App { window_focus: WindowFocus::ProcessFilter, ..pre }) && eff is NoOp
    } else if k == KeyCode::Char('?') {
        help_shown(pre, post) && eff is NoOp
    } else if k == KeyCode::F(5) || k == KeyCode::Char('r') {
        post == pre && eff is RefreshProcesses
    } else if k == KeyCode::F(6) || k == KeyCode::Char('s') || k == KeyCode::Char('o') {
        pipeline_rel(App { ordering: next_ordering(pre.ordering), ..pre }, post) && eff is NoOp
    } else if k == KeyCode::Char('m') {
        pipeline_rel(App { ordering: Ordering::ByMemory, ..pre }, post) && eff is NoOp
    } else if k == KeyCode::Char('c') {
        pipeline_rel(App { ordering: Ordering::ByCpu, ..pre }, post) && eff is NoOp
    } else if k == KeyCode::Char('u') {
        pipeline_rel(App { ordering: Ordering::ByUptime, ..pre }, post) && eff is NoOp
    } else if k == KeyCode::Char('g') {
        pipeline_rel(App { group_by_exe: !pre.group_by_exe, ..pre }, post) && eff is NoOp
    } else if k == KeyCode::Enter {
        post == (if pre.process_cursor < pre.filtered_processes@.len() {
            App { window_focus: WindowFocus::SignalPick, menu_action_cursor: 0, ..pre }
        } else {
            pre
        }) && eff is NoOp
    } else {
        logged_unknown(pre, post) && eff is NoOp
    }
}

/// The filter window's key table: Esc returns to browsing, arrows and
/// paging move the cursor, Backspace and Ctrl+W erase, Ctrl+U clears,
/// any other character is appended to the filter, F5 asks for a refresh,
/// Enter opens the action menu; anything else is logged.
pub open spec fn process_filter_step(pre: App, post: App, key: KeyPress, eff: Effect) -> bool {
    let k = key.code;
    if k == KeyCode::Esc {
        post == (App { window_focus: WindowFocus::Browse, ..pre }) && eff is NoOp
    } else if k == KeyCode::Down {
        cursor_moved(pre, post, 1) && eff is NoOp
    } else if k == KeyCode::Up {
        cursor_moved(pre, post, -1) && eff is NoOp
    } else if k == KeyCode::PageDown {
        cursor_moved(pre, post, 10) && eff is NoOp
    } else if k == KeyCode::PageUp {
        cursor_moved(pre, post, -10) && eff is NoOp
    } else if k == KeyCode::Home {
        cursor_moved(pre, post, -len_delta(pre.filtered_processes@.len())) && eff is NoOp
    } else if k == KeyCode::End {
        cursor_moved(pre, post, len_delta(pre.filtered_processes@.len())) && eff is NoOp
    } else if k == KeyCode::Backspace || (k == KeyCode::Char('w') && key.ctrl) {
        &&& post.filter_text@ == (if pre.filter_text@.len() == 0 {
            pre.filter_text@
        } else {
            pre.filter_text@.drop_last()
        })
        &&& pipeline_rel(App { filter_text: post.filter_text, ..pre }, post)
        &&& eff is NoOp
    } else if k == KeyCode::Char('u') && key.ctrl {
        &&& post.filter_text@ == Seq::<char>::empty()
        &&& pipeline_rel(App { filter_text: post.filter_text, ..pre }, post)
        &&& eff is NoOp
    } else if k is Char {
        &&& post.filter_text@ == pre.filter_text@.push(k->Char_0)
        &&& pipeline_rel(App { filter_text: post.filter_text, ..pre }, post)
        &&& eff is NoOp
    } else if k == KeyCode::F(5) {
        post == pre && eff is RefreshProcesses
    } else if k == KeyCode::Enter {
        post == (if pre.process_cursor < pre.filtered_processes@.len() {
            App { window_focus: WindowFocus::SignalPick, menu_action_cursor: 0, ..pre }
        } else {
            pre
        }) && eff is NoOp
    } else {
        logged_unknown(pre, post) && eff is NoOp
    }
}

/// The action menu's key table: Esc returns to the filter window, arrows
/// or `j`/`k` and paging move the menu cursor, Enter confirms the chosen
/// action; anything else is logged.
pub open spec fn signal_pick_step(pre: App, post: App, key: KeyPress, eff: Effect) -> bool {
    let k = key.code;
    if k == KeyCode::Esc {
        post == (App { window_focus: WindowFocus::ProcessFilter, ..pre }) && eff is NoOp
    } else if k == KeyCode::Down || k == KeyCode::Char('j') {
        cursor_moved(pre, post, 1) && eff is NoOp
    } else if k == KeyCode::Up || k == KeyCode::Char('k') {
        cursor_moved(pre, post, -1) && eff is NoOp
    } else if k == KeyCode::PageDown {
        cursor_moved(pre, post, 10) && eff is NoOp
    } else if k == KeyCode::PageUp {
        cursor_moved(pre, post, -10) && eff is NoOp
    } else if k == KeyCode::Home {
        cursor_moved(pre, post, -len_delta(pre.known_menu_actions@.len())) && eff is NoOp
    } else if k == KeyCode::End {
        cursor_moved(pre, post, len_delta(pre.known_menu_actions@.len())) && eff is NoOp
    } else if k == KeyCode::Enter {
        confirm_signal_rel(pre, post, eff)
    } else {
        logged_unknown(pre, post) && eff is NoOp
    }
}

/// The stats panel's key table: Esc or `q` requests quit, arrows and
/// paging scroll the panel, F5 asks for a refresh, `?` opens the help;
/// anything else is logged.
pub open spec fn system_stats_step(pre: App, post: App, key: KeyPress, eff: Effect) -> bool {
    let k = key.code;
    if k == KeyCode::Esc || k == KeyCode::Char('q') {
        post == (App { should_quit: true, ..pre }) && eff is NoOp
    } else if k == KeyCode::Down {
        cursor_moved(pre, post, 1) && eff is NoOp
    } else if k == KeyCode::Up {
        cursor_moved(pre, post, -1) && eff is NoOp
    } else if k == KeyCode::PageDown {
        cursor_moved(pre, post, 10) && eff is NoOp
    } else if k == KeyCode::PageUp {
        cursor_moved(pre, post, -10) && eff is NoOp
    } else if k == KeyCode::F(5) {
        post == pre && eff is RefreshProcesses
    } else if k == KeyCode::Char('?') {
        help_shown(pre, post) && eff is NoOp
    } else {
        logged_unknown(pre, post) && eff is NoOp
    }
}

/// The whole key table, popups and focus switching included: Enter or
/// Esc first dismisses an open error or info popup; Ctrl+C requests
/// quit; Tab and Shift+Tab cycle the focus; every other key goes to the
/// focused window's own table.
pub open spec fn update_step(pre: App, post: App, key: KeyPress, eff: Effect) -> bool {
    let k = key.code;
    if (k == KeyCode::Enter || k == KeyCode::Esc) && pre.error_message is Some {
        post == (App { error_message: Option::None, ..pre }) && eff is NoOp
    } else if (k == KeyCode::Enter || k == KeyCode::Esc) && pre.info_message is Some {
        post == (App { info_message: Option::None, ..pre }) && eff is NoOp
    } else if (k == KeyCode::Char('c') || k == KeyCode::Char('C')) && key.ctrl {
        post == (App { should_quit: true, ..pre }) && eff is NoOp
    } else if k == KeyCode::Tab {
        post == (App { window_focus: tab_next(pre.window_focus), ..pre }) && eff is NoOp
    } else if k == KeyCode::BackTab {
        post == (App { window_focus: tab_prev(pre.window_focus), ..pre }) && eff is NoOp
    } else {
        match pre.window_focus {
            WindowFocus::Browse => browse_step(pre, post, key, eff),
            WindowFocus::ProcessFilter => process_filter_step(pre, post, key, eff),
            WindowFocus::SignalPick => signal_pick_step(pre, post, key, eff),
            WindowFocus::SystemStats => system_stats_step(pre, post, key, eff),
        }
    }
}

fn list_delta(len: usize) -> (r: i32)
    ensures
        r as int == len_delta(len as nat),
        r >= 0,
{
    if len > i32::MAX as usize {
        i32::MAX
    } else {
        len as i32
    }
}

/// Handles one key press in the browse window.
pub fn on_key_browse(app: &mut App, key: KeyPress) -> (eff: Effect)
    requires
        old(app).wf(),
    ensures
        final(app).wf(),
        browse_step(*old(app), *final(app), key, eff),
{
    match key.code {
        KeyCode::Esc => {
            app.quit();
            Effect::NoOp
        },
        KeyCode::Char('q') => {
            app.quit();
            Effect::NoOp
        },
        KeyCode::Down => {
            app.move_cursor(1);
            Effect::NoOp
        },
        KeyCode::Up => {
            app.move_cursor(-1);
            Effect::NoOp
        },
        KeyCode::Left => {
            app.move_horizontal_scroll(-10);
            Effect::NoOp
        },
        KeyCode::Right => {
            app.move_horizontal_scroll(10);
            Effect::NoOp
        },
        KeyCode::PageDown => {
            app.move_cursor(10);
            Effect::NoOp
        },
        KeyCode::PageUp => {
            app.move_cursor(-10);
            Effect::NoOp
        },
        KeyCode::Home => {
            let d = list_delta(app.filtered_processes.len());
            app.move_cursor(-d);
            Effect::NoOp
        },
        KeyCode::End => {
            let d = list_delta(app.filtered_processes.len());
            app.move_cursor(d);
            Effect::NoOp
        },
        KeyCode::Char('f') => {
            app.window_focus = WindowFocus::ProcessFilter;
            Effect::NoOp
        },
        KeyCode::Char('/') => {
            app.window_focus = WindowFocus::ProcessFilter;
            Effect::NoOp
        },
        KeyCode::F(4) => {
            app.window_focus = WindowFocus::ProcessFilter;
            Effect::NoOp
        },
        KeyCode::Char('?') => {
            app.show_help();
            Effect::NoOp
        },
        KeyCode::F(5) => Effect::RefreshProcesses,
        KeyCode::Char('r') => Effect::RefreshProcesses,
        KeyCode::F(6) => {
            app.switch_ordering();
            Effect::NoOp
        },
        KeyCode::Char('s') => {
            app.switch_ordering();
            Effect::NoOp
        },
        KeyCode::Char('o') => {
            app.switch_ordering();
            Effect::NoOp
        },
        KeyCode::Char('m') => {
            app.set_process_ordering(Ordering::ByMemory);
            Effect::NoOp
        },
        KeyCode::Char('c') => {
            app.set_process_ordering(Ordering::ByCpu);
            Effect::NoOp
        },
        KeyCode::Char('u') => {
            app.set_process_ordering(Ordering::ByUptime);
            Effect::NoOp
        },
        KeyCode::Char('g') => {
            app.toggle_group_by_exe();
            Effect::NoOp
        },
        KeyCode::Enter => {
            app.confirm_process();
            Effect::NoOp
        },
        _ => {
            app.logger.log("Unknown key event");
            Effect::NoOp
        },
    }
}

/// Handles one key press in the filter window.
pub fn on_key_process_filter(app: &mut App, key: KeyPress) -> (eff: Effect)
    requires
        old(app).wf(),
    ensures
        final(app).wf(),
        process_filter_step(*old(app), *final(app), key, eff),
{
    match key.code {
        KeyCode::Esc => {
            app.window_focus = WindowFocus::Browse;
            Effect::NoOp
        },
        KeyCode::Down => {
            app.move_cursor(1);
            Effect::NoOp
        },
        KeyCode::Up => {
            app.move_cursor(-1);
            Effect::NoOp
        },
        KeyCode::PageDown => {
            app.move_cursor(10);
            Effect::NoOp
        },
        KeyCode::PageUp => {
            app.move_cursor(-10);
            Effect::NoOp
        },
        KeyCode::Home => {
            let d = list_delta(app.filtered_processes.len());
            app.move_cursor(-d);
            Effect::NoOp
        },
        KeyCode::End => {
            let d = list_delta(app.filtered_processes.len());
            app.move_cursor(d);
            Effect::NoOp
        },
        KeyCode::Backspace => {
            app.filter_backspace();
            Effect::NoOp
        },
        KeyCode::Char(c) => {
            if c == 'u' && key.ctrl {
                app.filter_clear();
            } else if c == 'w' && key.ctrl {
                app.filter_backspace();
            } else {
                app.filter_append(c);
            }
            Effect::NoOp
        },
        KeyCode::F(5) => Effect::RefreshProcesses,
        KeyCode::Enter => {
            app.confirm_process();
            Effect::NoOp
        },
        _ => {
            app.logger.log("Unknown key event");
            Effect::NoOp
        },
    }
}

/// Handles one key press in the action menu.
pub fn on_key_signal_pick(app: &mut App, key: KeyPress) -> (eff: Effect)
    requires
        old(app).wf(),
    ensures
        final(app).wf(),
        signal_pick_step(*old(app), *final(app), key, eff),
{
    match key.code {
        KeyCode::Esc => {
            app.window_focus = WindowFocus::ProcessFilter;
            Effect::NoOp
        },
        KeyCode::Down => {
            app.move_cursor(1);
            Effect::NoOp
        },
        KeyCode::Char('j') => {
            app.move_cursor(1);
            Effect::NoOp
        },
        KeyCode::Up => {
            app.move_cursor(-1);
            Effect::NoOp
        },
        KeyCode::Char('k') => {
            app.move_cursor(-1);
            Effect::NoOp
        },
        KeyCode::PageDown => {
            app.move_cursor(10);
            Effect::NoOp
        },
        KeyCode::PageUp => {
            app.move_cursor(-10);
            Effect::NoOp
        },
        KeyCode::Home => {
            let d = list_delta(app.known_menu_actions.len());
            app.move_cursor(-d);
            Effect::NoOp
        },
        KeyCode::End => {
            let d = list_delta(app.known_menu_actions.len());
            app.move_cursor(d);
            Effect::NoOp
        },
        KeyCode::Enter => app.confirm_signal(),
        _ => {
            app.logger.log("Unknown key event");
            Effect::NoOp
        },
    }
}

/// Handles one key press in the system stats panel.
pub fn on_key_system_stats(app: &mut App, key: KeyPress) -> (eff: Effect)
    requires
        old(app).wf(),
    ensures
        final(app).wf(),
        system_stats_step(*old(app), *final(app), key, eff),
{
    match key.code {
        KeyCode::Esc => {
            app.quit();
            Effect::NoOp
        },
        KeyCode::Char('q') => {
            app.quit();
            Effect::NoOp
        },
        KeyCode::Down => {
            app.move_cursor(1);
            Effect::NoOp
        },
        KeyCode::Up => {
            app.move_cursor(-1);
            Effect::NoOp
        },
        KeyCode::PageDown => {
            app.move_cursor(10);
            Effect::NoOp
        },
        KeyCode::PageUp => {
            app.move_cursor(-10);
            Effect::NoOp
        },
        KeyCode::F(5) => Effect::RefreshProcesses,
        KeyCode::Char('?') => {
            app.show_help();
            Effect::NoOp
        },
        _ => {
            app.logger.log("Unknown key event");
            Effect::NoOp
        },
    }
}

/// Handles one key press: popups dismiss first, Ctrl+C quits, Tab and
/// Shift+Tab cycle the focus, and the rest goes to the focused window.
pub fn update(app: &mut App, key: KeyPress) -> (eff: Effect)
    requires
        old(app).wf(),
    ensures
        final(app).wf(),
        update_step(*old(app), *final(app), key, eff),
{
    let dismiss = match key.code {
        KeyCode::Enter => true,
        KeyCode::Esc => true,
        _ => false,
    };
    if dismiss && app.has_error() {
        app.clear_error();
        return Effect::NoOp;
    }
    if dismiss && app.has_info() {
        app.clear_info();
        return Effect::NoOp;
    }
    let is_c = match key.code {
        KeyCode::Char(c) => c == 'c' || c == 'C',
        _ => false,
    };
    if is_c && key.ctrl {
        app.quit();
        return Effect::NoOp;
    }
    match key.code {
        KeyCode::Tab => {
            app.window_focus = match app.window_focus {
                WindowFocus::Browse => WindowFocus::SystemStats,
                WindowFocus::SystemStats => WindowFocus::ProcessFilter,
                WindowFocus::ProcessFilter => WindowFocus::Browse,
                WindowFocus::SignalPick => WindowFocus::SignalPick,
            };
            return Effect::NoOp;
        },
        KeyCode::BackTab => {
            app.window_focus = match app.window_focus {
                WindowFocus::SystemStats => WindowFocus::Browse,
                WindowFocus::ProcessFilter => WindowFocus::SystemStats,
                WindowFocus::Browse => WindowFocus::ProcessFilter,
                WindowFocus::SignalPick => WindowFocus::SignalPick,
            };
            return Effect::NoOp;
        },
        _ => {},
    }
    match app.window_focus {
        WindowFocus::Browse => on_key_browse(app, key),
        WindowFocus::ProcessFilter => on_key_process_filter(app, key),
        WindowFocus::SignalPick => on_key_signal_pick(app, key),
        WindowFocus::SystemStats => on_key_system_stats(app, key),
    }
}

} // verus!
