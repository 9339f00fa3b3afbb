//! The interaction state machine, the display pipeline, and the text
//! formatting.

use psycho_killer::action_menu::{generate_known_menu_actions, kill_pid, Operation};
use psycho_killer::app::App;
use psycho_killer::appdata::{Effect, Ordering, WindowFocus};
use psycho_killer::kill::generate_knwon_signals;
use psycho_killer::logs::{format_clock_time, Logger};
use psycho_killer::numbers::{
    format_bytes, format_duration, format_kb, i64_to_string, pad2, u64_to_string,
    BytesFormatterExt, ClampNumExt, ConvertibleIntExt, Numeric, PercentFormatterExt,
};
use psycho_killer::strings::{apply_scroll, first_cmd_part, split_words};
use psycho_killer::sysinfo::{
    compute_rate_bp, cpu_time_ms_of_ticks, memory_usage_bp, resolve_clock_ticks, ProcessStat,
    SystemProcStats, SystemStat,
};
use psycho_killer::update::{update, KeyCode, KeyPress};

fn key(code: KeyCode) -> KeyPress {
    KeyPress { code, ctrl: false }
}

fn ctrl(code: KeyCode) -> KeyPress {
    KeyPress { code, ctrl: true }
}

fn proc(pid: u32, display: &str) -> ProcessStat {
    ProcessStat {
        pid: pid.to_string(),
        pid_num: pid,
        name: display.to_string(),
        cmd: display.to_string(),
        exe: format!("/usr/bin/{}", display.split(' ').next().unwrap_or("x")),
        cwd: "/".to_string(),
        status: "Running".to_string(),
        cpu_usage: 0,
        memory_usage: 0,
        disk_usage: 0,
        user_id: Some(0),
        display_name: display.to_string(),
        run_time: 1,
        time_ms: 0,
        cpu_time_ms: 0,
        parent_pid: None,
        group_children: Vec::new(),
    }
}

fn app_with(procs: Vec<ProcessStat>) -> App {
    let mut app = App::new();
    app.refresh_processes(SystemProcStats { processes: procs });
    app
}

#[test]
fn filter_keeps_exactly_the_matching_processes() {
    let mut app = app_with(vec![
        proc(1, "chrome --type=gpu"),
        proc(2, "chrome --type=renderer"),
        proc(3, "sshd"),
    ]);
    app.filter_text = "chrome renderer".to_string();
    app.filter_processes();
    assert_eq!(app.filtered_processes.len(), 1);
    assert_eq!(app.filtered_processes[0].pid_num, 2);
}

#[test]
fn filter_is_case_insensitive() {
    let mut app = app_with(vec![proc(1, "chrome"), proc(2, "sshd")]);
    app.filter_text = "CHROME".to_string();
    app.filter_processes();
    assert_eq!(app.filtered_processes.len(), 1);
    assert_eq!(app.filtered_processes[0].pid_num, 1);
}

#[test]
fn empty_filter_matches_all() {
    let mut app = app_with(vec![proc(1, "a"), proc(2, "b"), proc(3, "c")]);
    app.filter_text = String::new();
    app.filter_processes();
    assert_eq!(app.filtered_processes.len(), 3);
}

#[test]
fn cursor_clamps_when_the_list_shrinks() {
    let mut procs = Vec::new();
    for i in 1..=10u32 {
        procs.push(proc(i, if i <= 3 { "match" } else { "other" }));
    }
    let mut app = app_with(procs);
    assert_eq!(app.filtered_processes.len(), 10);
    for _ in 0..9 {
        app.move_cursor(1);
    }
    assert_eq!(app.process_cursor, 9);
    app.filter_text = "match".to_string();
    app.filter_processes();
    assert_eq!(app.filtered_processes.len(), 3);
    assert_eq!(app.process_cursor, 2);
}

#[test]
fn cursor_never_goes_below_zero_and_empty_list_pins_it() {
    let mut app = app_with(vec![proc(1, "a")]);
    app.move_cursor(-5);
    assert_eq!(app.process_cursor, 0);
    app.filter_text = "nothing-matches-this".to_string();
    app.filter_processes();
    assert_eq!(app.filtered_processes.len(), 0);
    assert_eq!(app.process_cursor, 0);
}

#[test]
fn esc_requests_quit_from_browse() {
    let mut app = App::new();
    update(&mut app, key(KeyCode::Esc));
    assert!(app.should_quit);
}

#[test]
fn esc_returns_from_filter_to_browse() {
    let mut app = App::new();
    app.window_focus = WindowFocus::ProcessFilter;
    update(&mut app, key(KeyCode::Esc));
    assert_eq!(app.window_focus, WindowFocus::Browse);
    assert!(!app.should_quit);
}

#[test]
fn esc_returns_from_signal_pick_to_filter() {
    let mut app = App::new();
    app.window_focus = WindowFocus::SignalPick;
    update(&mut app, key(KeyCode::Esc));
    assert_eq!(app.window_focus, WindowFocus::ProcessFilter);
    assert!(!app.should_quit);
}

#[test]
fn esc_requests_quit_from_system_stats() {
    let mut app = App::new();
    app.window_focus = WindowFocus::SystemStats;
    update(&mut app, key(KeyCode::Esc));
    assert!(app.should_quit);
}

#[test]
fn tab_cycles_focus_forward_and_back() {
    let mut app = App::new();
    update(&mut app, key(KeyCode::Tab));
    assert_eq!(app.window_focus, WindowFocus::SystemStats);
    update(&mut app, key(KeyCode::Tab));
    assert_eq!(app.window_focus, WindowFocus::ProcessFilter);
    update(&mut app, key(KeyCode::Tab));
    assert_eq!(app.window_focus, WindowFocus::Browse);
    update(&mut app, key(KeyCode::BackTab));
    assert_eq!(app.window_focus, WindowFocus::ProcessFilter);
    update(&mut app, key(KeyCode::BackTab));
    assert_eq!(app.window_focus, WindowFocus::SystemStats);
    update(&mut app, key(KeyCode::BackTab));
    assert_eq!(app.window_focus, WindowFocus::Browse);
}

#[test]
fn ctrl_c_requests_quit_everywhere() {
    for focus in [
        WindowFocus::Browse,
        WindowFocus::ProcessFilter,
        WindowFocus::SignalPick,
        WindowFocus::SystemStats,
    ] {
        let mut app = App::new();
        app.window_focus = focus;
        update(&mut app, ctrl(KeyCode::Char('c')));
        assert!(app.should_quit);
    }
}

#[test]
fn popups_intercept_dismissal_before_the_state_machine() {
    let mut app = App::new();
    app.error_message = Some("boom".to_string());
    update(&mut app, key(KeyCode::Esc));
    assert!(app.error_message.is_none());
    assert!(!app.should_quit);
    app.info_message = Some("hello".to_string());
    update(&mut app, key(KeyCode::Enter));
    assert!(app.info_message.is_none());
    assert!(!app.should_quit);
}

#[test]
fn info_popup_steals_vertical_movement() {
    let mut app = app_with(vec![proc(1, "a"), proc(2, "b")]);
    app.info_message = Some("text".to_string());
    app.info_message_scroll = 0;
    update(&mut app, key(KeyCode::Down));
    assert_eq!(app.info_message_scroll, 1);
    assert_eq!(app.process_cursor, 0);
}

#[test]
fn typing_in_filter_mode_edits_the_filter() {
    let mut app = app_with(vec![proc(1, "abc"), proc(2, "abd")]);
    app.window_focus = WindowFocus::ProcessFilter;
    update(&mut app, key(KeyCode::Char('a')));
    update(&mut app, key(KeyCode::Char('b')));
    update(&mut app, key(KeyCode::Char('c')));
    assert_eq!(app.filter_text, "abc");
    assert_eq!(app.filtered_processes.len(), 1);
    update(&mut app, key(KeyCode::Backspace));
    assert_eq!(app.filter_text, "ab");
    assert_eq!(app.filtered_processes.len(), 2);
    update(&mut app, ctrl(KeyCode::Char('u')));
    assert_eq!(app.filter_text, "");
    assert_eq!(app.filtered_processes.len(), 2);
}

#[test]
fn refresh_keys_ask_for_a_refresh() {
    let mut app = App::new();
    let eff = update(&mut app, key(KeyCode::F(5)));
    assert!(matches!(eff, Effect::RefreshProcesses));
    let eff2 = update(&mut app, key(KeyCode::Char('r')));
    assert!(matches!(eff2, Effect::RefreshProcesses));
}

#[test]
fn sort_keys_pick_the_order() {
    let mut app = App::new();
    update(&mut app, key(KeyCode::Char('m')));
    assert_eq!(app.ordering, Ordering::ByMemory);
    update(&mut app, key(KeyCode::Char('c')));
    assert_eq!(app.ordering, Ordering::ByCpu);
    update(&mut app, key(KeyCode::Char('u')));
    assert_eq!(app.ordering, Ordering::ByUptime);
    update(&mut app, key(KeyCode::Char('s')));
    assert_eq!(app.ordering, Ordering::ByMemory);
}

#[test]
fn confirming_a_process_opens_the_action_menu() {
    let mut app = app_with(vec![proc(1, "a")]);
    update(&mut app, key(KeyCode::Enter));
    assert_eq!(app.window_focus, WindowFocus::SignalPick);
    assert_eq!(app.menu_action_cursor, 0);
}

#[test]
fn confirming_on_an_empty_list_does_nothing() {
    let mut app = App::new();
    update(&mut app, key(KeyCode::Enter));
    assert_eq!(app.window_focus, WindowFocus::Browse);
}

#[test]
fn confirming_a_signal_yields_the_command() {
    let mut app = app_with(vec![proc(42, "victim")]);
    update(&mut app, key(KeyCode::Enter));
    update(&mut app, key(KeyCode::Down)); // "Interrupt: kill -2"
    let eff = update(&mut app, key(KeyCode::Enter));
    match eff {
        Effect::RunCommand(cmd) => assert_eq!(cmd, "kill -2 42"),
        _ => panic!("expected a command to run"),
    }
    assert_eq!(app.window_focus, WindowFocus::Browse);
}

#[test]
fn failed_signal_surfaces_error_and_keeps_the_process() {
    let mut app = app_with(vec![proc(42, "victim")]);
    update(&mut app, key(KeyCode::Enter));
    update(&mut app, key(KeyCode::Down));
    let eff = update(&mut app, key(KeyCode::Enter));
    assert!(matches!(eff, Effect::RunCommand(_)));
    // the command exited non-zero; the caller reports it and refreshes,
    // and the target is still present in the fresh snapshot
    app.report_signal_result(Some("exit status: 1".to_string()));
    app.refresh_processes(SystemProcStats { processes: vec![proc(42, "victim")] });
    assert!(app.has_error());
    assert_eq!(app.filtered_processes.len(), 1);
    assert_eq!(app.filtered_processes[0].pid_num, 42);
}

#[test]
fn show_details_opens_the_info_popup() {
    let mut app = app_with(vec![proc(42, "victim")]);
    update(&mut app, key(KeyCode::Enter));
    let eff = update(&mut app, key(KeyCode::Enter)); // first entry: details
    assert!(matches!(eff, Effect::NoOp));
    assert!(app.has_info());
    let text = app.info_message.clone().unwrap();
    assert!(text.contains("Process ID: 42"));
    assert!(text.contains("Working directory: /"));
}

#[test]
fn grouping_toggle_merges_in_the_view() {
    let mut app = app_with(vec![proc(1, "chrome"), proc(2, "chrome"), proc(3, "sshd")]);
    assert_eq!(app.filtered_processes.len(), 3);
    update(&mut app, key(KeyCode::Char('g')));
    assert!(app.group_by_exe);
    assert_eq!(app.filtered_processes.len(), 2);
    update(&mut app, key(KeyCode::Char('g')));
    assert_eq!(app.filtered_processes.len(), 3);
}

#[test]
fn details_text_is_exact() {
    let mut p = proc(5, "tool");
    p.run_time = 125;
    p.memory_usage = 250; // 2.5%
    p.cpu_usage = 0;
    p.parent_pid = Some("1".to_string());
    let mut sys = SystemStat::new();
    sys.cpu_num = 4;
    let text = p.details(&sys);
    assert_eq!(
        text,
        "Process ID: 5\nParent Process ID: 1\nUser ID: 0\nUptime: 2m5s\nStatus: Running\n\
         Memory usage: 2.5%\nCPU usage: 0% / 400%\n\nFull command: tool\n\n\
         Executable path: /usr/bin/tool\n\nWorking directory: /\n"
    );
}

#[test]
fn summarize_reports_the_cpu_usage_delta() {
    let mut cur = SystemStat::new();
    cur.os_version = "TestOS".to_string();
    cur.host_name = "box".to_string();
    cur.cpu_num = 2;
    cur.cpu.busy_time = 150;
    cur.cpu.total_time = 300;
    let mut prev = SystemStat::new();
    prev.cpu.busy_time = 50;
    prev.cpu.total_time = 100;
    let init = SystemStat::new();
    let lines = cur.summarize(&init, &prev);
    assert_eq!(lines[0], "OS: TestOS");
    assert_eq!(lines[1], "Host: box");
    assert_eq!(lines[3], "# Memory");
    // busy delta 100 over total delta 200 = 50.00%
    assert!(lines.contains(&"Usage: 50.00% / 100%".to_string()));
    assert!(lines.contains(&"Cores: 2".to_string()));
}

#[test]
fn rate_computation_is_defensive() {
    assert_eq!(compute_rate_bp(500, 0, 2000, 1000), 5000);
    assert_eq!(compute_rate_bp(500, 0, 1000, 1000), 0); // zero elapsed
    assert_eq!(compute_rate_bp(0, 500, 2000, 1000), 0); // counter reset
}

#[test]
fn memory_share_and_tick_conversion() {
    // 1 GiB resident of 16 GiB total: 1048576 kB of 16777216 kB = 6.25%
    assert_eq!(memory_usage_bp(1073741824, 16777216), 625);
    assert_eq!(memory_usage_bp(1024, 0), 0);
    assert_eq!(cpu_time_ms_of_ticks(250, 100), 2500);
    assert_eq!(cpu_time_ms_of_ticks(250, 0), 0);
    assert_eq!(resolve_clock_ticks(-1), 100);
    assert_eq!(resolve_clock_ticks(250), 250);
}

#[test]
fn byte_and_duration_formatting() {
    assert_eq!(format_kb(512), "512 KiB");
    assert_eq!(format_kb(1536), "1.50 MiB");
    assert_eq!(format_kb(1572864), "1.50 GiB");
    assert_eq!(format_bytes(100), "100 B");
    assert_eq!(format_bytes(2048), "2.00 KiB");
    assert_eq!(format_bytes(3 * 1024 * 1024), "3.00 MiB");
    assert_eq!(format_bytes(5 * 1024 * 1024 * 1024), "5.00 GiB");
    assert_eq!(format_duration(45), "45s");
    assert_eq!(format_duration(125), "2m5s");
    assert_eq!(format_duration(3725), "1h2m5s");
}

#[test]
fn percent_formatting() {
    assert_eq!(123u64.to_percent2(), "1.23%");
    assert_eq!(126u64.to_percent1(), "1.3%");
    assert_eq!(5000u64.to_percent_len5(), "50.0%");
    assert_eq!(12345u64.to_percent_len5(), "123%");
    assert_eq!(0u64.to_percent2(), "0.00%");
}

#[test]
fn decimal_rendering() {
    assert_eq!(u64_to_string(0), "0");
    assert_eq!(u64_to_string(90210), "90210");
    assert_eq!(pad2(7), "07");
    assert_eq!(pad2(42), "42");
    assert_eq!(i64_to_string(-15), "-15");
    assert_eq!(i64_to_string(8), "8");
}

#[test]
fn numeric_trait_helpers() {
    assert_eq!(7u16.into_u64(), 7);
    assert_eq!(1536u32.to_kilobytes(), "1.50 MiB");
    assert_eq!(2048u64.to_bytes(), "2.00 KiB");
    assert_eq!(5i32.clamp_min(10), 10);
    assert_eq!(15i32.clamp_min(10), 15);
    assert_eq!(15i32.clamp_max(10), 10);
    assert_eq!(5usize.clamp_max(10), 5);
    assert_eq!(9usize.into_intermediary(), 9);
    assert_eq!(<u16 as ConvertibleIntExt<u16>>::from_intermediary(300), 300u16);
}

#[test]
fn scroll_and_command_head() {
    assert_eq!(apply_scroll(&"hello".to_string(), 2), "llo");
    assert_eq!(apply_scroll(&"hello".to_string(), 0), "hello");
    assert_eq!(apply_scroll(&"hello".to_string(), 99), "");
    assert_eq!(first_cmd_part("/usr/bin/x --flag"), "/usr/bin/x");
    assert_eq!(first_cmd_part("\"C:\\Program Files\\x\" args"), "C:\\Program Files\\x");
    assert_eq!(first_cmd_part("   "), "");
    let words = split_words("  a  bb\tccc ");
    assert_eq!(words, vec!["a", "bb", "ccc"]);
}

#[test]
fn menus_are_the_known_ones() {
    let signals = generate_knwon_signals();
    assert_eq!(signals.len(), 5);
    assert_eq!(signals[0].name, "Interrupt: kill -2");
    assert_eq!(signals[4].command, "sudo kill -9 ");
    let actions = generate_known_menu_actions();
    assert_eq!(actions.len(), 6);
    assert_eq!(actions[0].name, "Process details");
    assert!(matches!(actions[0].operation, Operation::ShowDetails));
    assert!(matches!(actions[3].operation, Operation::KillSignal { template: "kill -9 " }));
    assert_eq!(kill_pid(&"77".to_string(), "sudo kill -15 "), "sudo kill -15 77");
}

#[test]
fn clock_and_logger() {
    assert_eq!(format_clock_time(0), "00:00:00");
    assert_eq!(format_clock_time(86400 + 3661), "01:01:01");
    let mut logger = Logger::new();
    logger.log("hello");
    assert_eq!(logger.messages.len(), 1);
    let line = &logger.messages[0];
    assert!(line.ends_with("] hello"));
    assert!(line.starts_with('['));
    assert_eq!(line.len(), "[HH:MM:SS] hello".len());
}

#[test]
fn ticks_rotate_the_system_snapshots() {
    let mut app = App::new();
    let mut s1 = SystemStat::new();
    s1.time_ms = 111;
    app.refresh_system_stats(s1);
    app.init_baseline();
    assert_eq!(app.init_stat.time_ms, 111);
    let mut s2 = SystemStat::new();
    s2.time_ms = 222;
    app.tick(s2);
    assert_eq!(app.previous_stat.time_ms, 111);
    assert_eq!(app.sys_stat.time_ms, 222);
    assert_eq!(app.init_stat.time_ms, 111);
}

#[test]
fn refresh_rotates_the_process_snapshots() {
    let mut app = App::new();
    app.refresh_processes(SystemProcStats { processes: vec![proc(1, "a")] });
    assert_eq!(app.previous_proc_stats.processes.len(), 0);
    assert_eq!(app.proc_stats.processes.len(), 1);
    app.refresh_processes(SystemProcStats { processes: vec![proc(1, "a"), proc(2, "b")] });
    assert_eq!(app.previous_proc_stats.processes.len(), 1);
    assert_eq!(app.proc_stats.processes.len(), 2);
}

#[test]
fn refresh_derives_cpu_usage_from_the_previous_poll() {
    let mut app = App::new();
    let mut earlier = proc(7, "w");
    earlier.cpu_time_ms = 10_000;
    earlier.time_ms = 1000;
    app.refresh_processes(SystemProcStats { processes: vec![earlier] });
    let mut later = proc(7, "w");
    later.cpu_time_ms = 10_500;
    later.time_ms = 1500;
    later.cpu_usage = 4242;
    app.refresh_processes(SystemProcStats { processes: vec![later] });
    assert_eq!(app.proc_stats.processes[0].cpu_usage, 10_000);
    assert_eq!(app.filtered_processes[0].cpu_usage, 10_000);
}

#[test]
fn help_key_opens_the_help_popup() {
    let mut app = App::new();
    update(&mut app, key(KeyCode::Char('?')));
    assert!(app.has_info());
    assert!(app.info_message.clone().unwrap().starts_with("Keyboard controls:"));
}

#[test]
fn rate_and_formatting_survive_extreme_counters() {
    // a rate too large for the counter saturates instead of wrapping
    assert_eq!(compute_rate_bp(u64::MAX, 0, 2, 1), u64::MAX);
    // the largest byte figures still format
    assert_eq!(format_kb(u64::MAX), format_kb(u64::MAX));
    assert!(format_kb(u64::MAX).ends_with(" GiB"));
    assert!(format_bytes(u64::MAX).ends_with(" GiB"));
}

#[test]
fn end_jump_scrolls_an_open_popup() {
    let mut app = App::new();
    app.info_message = Some("text".to_string());
    app.info_lines_num = Some(12);
    app.move_cursor_end(1);
    assert_eq!(app.info_message_scroll, 12);
    app.move_cursor_end(-1);
    assert_eq!(app.info_message_scroll, 0);
}

#[test]
fn negative_scroll_keeps_the_whole_text() {
    assert_eq!(apply_scroll(&"abc".to_string(), -3), "abc");
}

#[test]
fn horizontal_scroll_never_goes_negative() {
    let mut app = App::new();
    app.move_horizontal_scroll(-10);
    assert_eq!(app.horizontal_scroll, 0);
    app.move_horizontal_scroll(10);
    app.move_horizontal_scroll(10);
    assert_eq!(app.horizontal_scroll, 20);
}
