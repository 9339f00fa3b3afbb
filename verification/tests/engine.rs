//! The metrics engine: delta computation, grouping, sorting, filtering,
//! and the text parsers.

use psycho_killer::app_logic::{proc_before, sort_processes};
use psycho_killer::appdata::Ordering;
use psycho_killer::procfs::{
    parse_cpu_counters, parse_decimal_bp, parse_disk_io_stats, parse_load_avg,
    parse_memory_stats, parse_process_cpu_time, parse_u64,
};
use psycho_killer::strings::contains_all_words;
use psycho_killer::sysinfo::{
    extract_exe_path, group_by_exe_path, is_mount_point_eligible, is_net_iface_physical,
    merge_processes_group, ProcessStat,
};

fn proc(pid: u32, name: &str, cpu_time_ms: u64, time_ms: u64) -> ProcessStat {
    ProcessStat {
        pid: pid.to_string(),
        pid_num: pid,
        name: name.to_string(),
        cmd: name.to_string(),
        exe: format!("/usr/bin/{}", name),
        cwd: "/".to_string(),
        status: "Running".to_string(),
        cpu_usage: 0,
        memory_usage: 0,
        disk_usage: 0,
        user_id: Some(1000),
        display_name: name.to_string(),
        run_time: 10,
        time_ms,
        cpu_time_ms,
        parent_pid: None,
        group_children: Vec::new(),
    }
}

#[test]
fn cpu_usage_from_delta() {
    // previous: 10.0 s of CPU at t = 1000 ms; current: 10.5 s at t = 1500 ms
    let prev = proc(7, "worker", 10_000, 1000);
    let mut cur = proc(7, "worker", 10_500, 1500);
    cur.cpu_usage = 4242; // the instantaneous estimate must be ignored on a match
    let usage = cur.calculate_cpu_usage(&vec![prev]);
    // (10.5 - 10.0) * 1000 / 500 = 1.0 of one core = 10000 basis points
    assert_eq!(usage, 10_000);
}

#[test]
fn cpu_usage_zero_elapsed_time() {
    let prev = proc(7, "worker", 10_000, 1000);
    let cur = proc(7, "worker", 10_500, 1000);
    assert_eq!(cur.calculate_cpu_usage(&vec![prev]), 0);
}

#[test]
fn cpu_usage_counter_reset_reads_zero() {
    let prev = proc(7, "worker", 99_000, 1000);
    let cur = proc(7, "worker", 500, 2000);
    assert_eq!(cur.calculate_cpu_usage(&vec![prev]), 0);
}

#[test]
fn cpu_usage_without_previous_entry_keeps_estimate() {
    let mut cur = proc(7, "worker", 10_500, 1500);
    cur.cpu_usage = 1234;
    assert_eq!(cur.calculate_cpu_usage(&vec![]), 1234);
    let other = proc(8, "other", 10_000, 1000);
    assert_eq!(cur.calculate_cpu_usage(&vec![other]), 1234);
}

#[test]
fn merge_sums_and_takes_longest_uptime() {
    let mut a = proc(1, "chrome", 0, 0);
    a.cpu_usage = 100;
    a.memory_usage = 200;
    a.disk_usage = 300;
    a.run_time = 50;
    let mut b = proc(2, "chrome", 0, 0);
    b.cpu_usage = 11;
    b.memory_usage = 22;
    b.disk_usage = 33;
    b.run_time = 400;
    let g = merge_processes_group(vec![a, b]);
    assert_eq!(g.cpu_usage, 111);
    assert_eq!(g.memory_usage, 222);
    assert_eq!(g.disk_usage, 333);
    assert_eq!(g.run_time, 400);
    assert_eq!(g.pid, "1");
    assert_eq!(g.group_children.len(), 2);
    // the group's totals reproduce the sums over its members exactly
    let cpu_sum: u64 = g.group_children.iter().map(|c| c.cpu_usage).sum();
    let mem_sum: u64 = g.group_children.iter().map(|c| c.memory_usage).sum();
    let disk_sum: u64 = g.group_children.iter().map(|c| c.disk_usage).sum();
    assert_eq!(g.cpu_usage, cpu_sum);
    assert_eq!(g.memory_usage, mem_sum);
    assert_eq!(g.disk_usage, disk_sum);
}

#[test]
fn grouping_partitions_by_exe_path() {
    let mut a = proc(1, "chrome", 0, 0);
    a.cpu_usage = 10;
    let mut b = proc(2, "sshd", 0, 0);
    b.cpu_usage = 20;
    let mut c = proc(3, "chrome", 0, 0);
    c.cpu_usage = 30;
    let groups = group_by_exe_path(&vec![a, b, c]);
    assert_eq!(groups.len(), 2);
    assert_eq!(groups[0].exe, "/usr/bin/chrome");
    assert_eq!(groups[0].cpu_usage, 40);
    assert_eq!(groups[0].group_children.len(), 2);
    assert_eq!(groups[1].exe, "/usr/bin/sshd");
    assert_eq!(groups[1].cpu_usage, 20);
    assert_eq!(groups[1].group_children.len(), 1);
    assert_eq!(groups[0].display_name, "/usr/bin/chrome");
}

#[test]
fn sort_by_memory_descending_with_pid_tie_break() {
    let mut a = proc(1, "a", 0, 0);
    a.memory_usage = 500;
    let mut b = proc(2, "b", 0, 0);
    b.memory_usage = 900;
    let mut c = proc(3, "c", 0, 0);
    c.memory_usage = 500;
    let sorted = sort_processes(Ordering::ByMemory, vec![a, b, c]);
    let pids: Vec<u32> = sorted.iter().map(|p| p.pid_num).collect();
    // highest memory first; the 500-tie orders by descending pid
    assert_eq!(pids, vec![2, 3, 1]);
}

#[test]
fn sort_by_cpu_descending_with_pid_tie_break() {
    let mut a = proc(4, "a", 0, 0);
    a.cpu_usage = 100;
    let mut b = proc(9, "b", 0, 0);
    b.cpu_usage = 100;
    let mut c = proc(5, "c", 0, 0);
    c.cpu_usage = 7000;
    let sorted = sort_processes(Ordering::ByCpu, vec![a, b, c]);
    let pids: Vec<u32> = sorted.iter().map(|p| p.pid_num).collect();
    assert_eq!(pids, vec![5, 9, 4]);
}

#[test]
fn sort_by_uptime_ascending_with_pid_tie_break() {
    let mut a = proc(1, "a", 0, 0);
    a.run_time = 30;
    let mut b = proc(2, "b", 0, 0);
    b.run_time = 10;
    let mut c = proc(3, "c", 0, 0);
    c.run_time = 30;
    let sorted = sort_processes(Ordering::ByUptime, vec![a, b, c]);
    let pids: Vec<u32> = sorted.iter().map(|p| p.pid_num).collect();
    assert_eq!(pids, vec![2, 3, 1]);
}

#[test]
fn sorting_twice_yields_identical_output() {
    for ord in [Ordering::ByUptime, Ordering::ByMemory, Ordering::ByCpu] {
        let mk = || {
            let mut a = proc(1, "a", 0, 0);
            a.run_time = 30;
            a.memory_usage = 5;
            a.cpu_usage = 9;
            let mut b = proc(2, "b", 0, 0);
            b.run_time = 30;
            b.memory_usage = 5;
            b.cpu_usage = 2;
            let mut c = proc(3, "c", 0, 0);
            c.run_time = 1;
            c.memory_usage = 80;
            c.cpu_usage = 2;
            vec![a, b, c]
        };
        let once = sort_processes(ord, mk());
        let once_pids: Vec<u32> = once.iter().map(|p| p.pid_num).collect();
        let twice = sort_processes(ord, once);
        let twice_pids: Vec<u32> = twice.iter().map(|p| p.pid_num).collect();
        assert_eq!(once_pids, twice_pids);
        // and no equal-primary-key pair stands in ascending pid order
        for i in 0..twice.len() {
            for j in i + 1..twice.len() {
                let tied = match ord {
                    Ordering::ByUptime => twice[i].run_time == twice[j].run_time,
                    Ordering::ByMemory => twice[i].memory_usage == twice[j].memory_usage,
                    Ordering::ByCpu => twice[i].cpu_usage == twice[j].cpu_usage,
                };
                if tied {
                    assert!(twice[i].pid_num >= twice[j].pid_num);
                }
            }
        }
    }
}

#[test]
fn comparator_is_total() {
    let a = proc(1, "a", 0, 0);
    let b = proc(2, "b", 0, 0);
    for ord in [Ordering::ByUptime, Ordering::ByMemory, Ordering::ByCpu] {
        assert!(proc_before(ord, &a, &b) || proc_before(ord, &b, &a));
    }
}

#[test]
fn contains_all_words_needs_every_token() {
    let words = vec!["chrome".to_string(), "renderer".to_string()];
    assert!(contains_all_words("2 chrome --type=renderer", &words));
    assert!(!contains_all_words("1 chrome --type=gpu", &words));
    assert!(!contains_all_words("3 sshd", &words));
    assert!(contains_all_words("anything", &vec![]));
}

#[test]
fn contains_all_words_lowercases_the_text() {
    let words = vec!["chrome".to_string()];
    assert!(contains_all_words("1 CHROME --type=gpu", &words));
}

#[test]
fn parse_u64_accepts_digits_and_rejects_the_rest() {
    assert_eq!(parse_u64(&"12345".chars().collect::<Vec<char>>()), Some(12345));
    assert_eq!(parse_u64(&"0".chars().collect::<Vec<char>>()), Some(0));
    assert_eq!(parse_u64(&"".chars().collect::<Vec<char>>()), None);
    assert_eq!(parse_u64(&"12a".chars().collect::<Vec<char>>()), None);
    assert_eq!(parse_u64(&"-5".chars().collect::<Vec<char>>()), None);
    assert_eq!(
        parse_u64(&"18446744073709551615".chars().collect::<Vec<char>>()),
        Some(u64::MAX)
    );
    assert_eq!(parse_u64(&"18446744073709551616".chars().collect::<Vec<char>>()), None);
}

#[test]
fn parse_memory_table() {
    let lines = vec![
        "MemTotal:       16000 kB".to_string(),
        "MemFree:         4000 kB".to_string(),
        "MemAvailable:    8000 kB".to_string(),
        "Buffers:          100 kB".to_string(),
        "Cached:           200 kB".to_string(),
        "Dirty:             10 kB".to_string(),
        "Writeback:          5 kB".to_string(),
        "SwapTotal:       2000 kB".to_string(),
        "SwapFree:        1500 kB".to_string(),
        "garbage line".to_string(),
    ];
    let m = parse_memory_stats(&lines);
    assert_eq!(m.total, 16000);
    assert_eq!(m.free, 4000);
    assert_eq!(m.used, 8000); // total - available
    assert_eq!(m.cache, 200);
    assert_eq!(m.buffers, 100);
    assert_eq!(m.dirty, 10);
    assert_eq!(m.writeback, 5);
    assert_eq!(m.usage, 5000); // 8000 / 16000 = 0.5 = 5000 basis points
    assert_eq!(m.swap_total, 2000);
    assert_eq!(m.swap_used, 500);
    assert_eq!(m.swap_usage, 2500);
}

#[test]
fn parse_memory_table_defensive_defaults() {
    let m = parse_memory_stats(&vec![]);
    assert_eq!(m.total, 0);
    assert_eq!(m.usage, 0);
    // an unparseable value counts as zero, and never aborts the poll
    let m2 = parse_memory_stats(&vec!["MemTotal: junk kB".to_string()]);
    assert_eq!(m2.total, 0);
}

#[test]
fn parse_cpu_counter_line() {
    let r = parse_cpu_counters("cpu  1 2 3 4 5 6 7 8 9 10");
    // busy = 1+2+3+6+7+8+9+10 = 46; total = busy + idle(4) + iowait(5) = 55
    assert_eq!(r, Some((46, 55)));
    assert_eq!(parse_cpu_counters("cpu 1 2 3"), None);
    assert_eq!(parse_cpu_counters("intr 1 2 3 4 5 6 7 8 9 10"), None);
}

#[test]
fn parse_process_stat_line() {
    let line = "7 (cat) R 1 0 0 0 -1 0 0 0 0 0 120 34 0 0";
    assert_eq!(parse_process_cpu_time(line), Some(154));
    assert_eq!(parse_process_cpu_time("7 (cat) R 1 0 0 0 -1 0 0 0 0 0"), None);
}

#[test]
fn parse_disk_counter_lines() {
    let lines = vec![
        "8 0 sda 0 0 0 50 0 0 0 300 0 0".to_string(),
        "8 1 sdb 0 0 0 50 0 0 0 400 0 0".to_string(),
        "too short".to_string(),
    ];
    let d = parse_disk_io_stats(&lines);
    assert_eq!(d.time_reading_ms, 100); // the seventh field of each line
    assert_eq!(d.time_writing_ms, 700); // the eleventh field of each line
}

#[test]
fn parse_load_average_line() {
    let l = parse_load_avg("0.52 1.00 2.5 1/234 5678", 1).unwrap();
    assert_eq!(l.load_1m, 5200);
    assert_eq!(l.load_5m, 10000);
    assert_eq!(l.load_15m, 25000);
    let halved = parse_load_avg("0.52 1.00 2.5 1/234 5678", 2).unwrap();
    assert_eq!(halved.load_1m, 2600);
    assert!(parse_load_avg("0.52 1.00", 1).is_none());
}

#[test]
fn parse_decimal_basis_points() {
    assert_eq!(parse_decimal_bp(&"0.52".chars().collect::<Vec<char>>()), 5200);
    assert_eq!(parse_decimal_bp(&"3".chars().collect::<Vec<char>>()), 30000);
    assert_eq!(parse_decimal_bp(&"1.23456".chars().collect::<Vec<char>>()), 12345);
    assert_eq!(parse_decimal_bp(&"nonsense".chars().collect::<Vec<char>>()), 0);
}

#[test]
fn extract_exe_path_trims_and_falls_back() {
    assert_eq!(extract_exe_path("/bin/a (deleted)", "", "x"), "/bin/a");
    assert_eq!(extract_exe_path("/bin/a b", "", "x"), "/bin/a");
    assert_eq!(extract_exe_path("", "/opt/tool --flag", "x"), "/opt/tool");
    assert_eq!(extract_exe_path("", "", "bash"), "bash");
}

#[test]
fn interface_and_mount_point_predicates() {
    assert!(is_net_iface_physical("enp3s0"));
    assert!(is_net_iface_physical("wlan0"));
    assert!(!is_net_iface_physical("lo"));
    assert!(!is_net_iface_physical("docker0"));
    assert!(is_mount_point_eligible("/"));
    assert!(is_mount_point_eligible("/mnt/data"));
    assert!(is_mount_point_eligible("/media/usb"));
    assert!(!is_mount_point_eligible("/proc"));
    assert!(!is_mount_point_eligible("/sys"));
}
