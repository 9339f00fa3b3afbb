//! The system panel's text: one poll summarized line by line, with the
//! rates that need two reference points derived here. Instantaneous
//! rates (CPU usage, disk utilization) go against the previous poll;
//! session totals (network transfer) go against the startup baseline.
//! Styling the lines is the caller's affair.

use vstd::prelude::*;
use vstd::string::StringExecFns;

use crate::numbers::{
    spec_dec, spec_format_bytes, spec_format_kb, spec_i64_dec, spec_percent1, spec_percent2,
    PercentFormatterExt,
};
use crate::sysinfo::{
    sat64, spec_rate_bp, PartitionEntryV, SystemStat, SystemStatV, TemperatureEntryV,
};

verus! {

/// The difference of two cumulative counters, and 0 when the counter
/// went backwards.
pub open spec fn monus(a: int, b: int) -> int {
    if a >= b {
        a - b
    } else {
        0
    }
}

/// One partition's line: mount point, used and total bytes, usage share.
pub open spec fn spec_part_line(e: PartitionEntryV) -> Seq<char> {
    e.mount_point + ": "@ + spec_format_bytes(e.usage.used as nat) + " / "@ + spec_format_bytes(
        e.usage.total as nat,
    ) + " ("@ + spec_percent1(e.usage.usage as nat) + ")"@
}

/// The partition lines, in stored order.
pub open spec fn spec_part_lines(ps: Seq<PartitionEntryV>) -> Seq<Seq<char>> {
    ps.map_values(|e: PartitionEntryV| spec_part_line(e))
}

/// One sensor's line: label and whole degrees Celsius.
pub open spec fn spec_temp_line(e: TemperatureEntryV) -> Seq<char> {
    e.label + ": "@ + spec_i64_dec(e.degrees as int) + "\u{00B0}C"@
}

/// The temperature lines, in stored order.
pub open spec fn spec_temp_lines(ts: Seq<TemperatureEntryV>) -> Seq<Seq<char>> {
    ts.map_values(|e: TemperatureEntryV| spec_temp_line(e))
}

/// The memory section: the machine and host names, the memory figures,
/// and the swap figures when there is swap at all.
pub open spec fn spec_memory_lines(s: SystemStatV) -> Seq<Seq<char>> {
    seq![
        "OS: "@ + s.os_version,
        "Host: "@ + s.host_name,
        ""@,
        "# Memory"@,
        "Used: "@ + spec_format_kb(s.memory.used as nat) + " / "@ + spec_format_kb(
            s.memory.total as nat,
        ) + " ("@ + spec_percent1(s.memory.usage as nat) + ")"@,
        "Cache: "@ + spec_format_kb(s.memory.cache as nat),
        "Buffers: "@ + spec_format_kb(s.memory.buffers as nat),
        "Dirty & Writeback: "@ + spec_format_kb(
            sat64(s.memory.dirty + s.memory.writeback) as nat,
        ),
    ] + if s.memory.swap_total > 0 {
        seq![
            "Swap: "@ + spec_format_kb(s.memory.swap_used as nat) + " / "@ + spec_format_kb(
                s.memory.swap_total as nat,
            ) + " ("@ + spec_percent1(s.memory.swap_usage as nat) + ")"@,
        ]
    } else {
        Seq::empty()
    }
}

/// The CPU section: the core count when known, the usage rate against
/// the previous poll when tick counters exist, and the load averages.
pub open spec fn spec_cpu_lines(s: SystemStatV, prev: SystemStatV) -> Seq<Seq<char>> {
    seq![""@, "# CPU"@] + (if s.cpu_num > 0 {
        seq!["Cores: "@ + spec_dec(s.cpu_num as nat)]
    } else {
        Seq::empty()
    }) + (if s.cpu.total_time > 0 {
        seq![
            "Usage: "@ + spec_percent2(
                sat64(
                    spec_rate_bp(
                        s.cpu.busy_time as int,
                        prev.cpu.busy_time as int,
                        s.cpu.total_time as int,
                        prev.cpu.total_time as int,
                    ),
                ) as nat,
            ) + " / 100%"@,
        ]
    } else {
        Seq::empty()
    }) + seq![
        "1m Load average: "@ + spec_percent2(s.cpu.load_avg.load_1m as nat) + " / 100%"@,
        "5m Load average: "@ + spec_percent2(s.cpu.load_avg.load_5m as nat) + " / 100%"@,
        "15m Load average: "@ + spec_percent2(s.cpu.load_avg.load_15m as nat) + " / 100%"@,
    ]
}

/// The disk space section, present when any partition is shown.
pub open spec fn spec_disk_space_lines(s: SystemStatV) -> Seq<Seq<char>> {
    if s.disk_space_usages.len() > 0 {
        seq![""@, "# Disk space usage"@] + spec_part_lines(s.disk_space_usages)
    } else {
        Seq::empty()
    }
}

/// The disk utilization section, present when the disks reported any
/// cumulative time: reading and writing shares of the elapsed wall time
/// since the previous poll, shown only when time has passed.
pub open spec fn spec_disk_io_lines(s: SystemStatV, prev: SystemStatV) -> Seq<Seq<char>> {
    if s.disk.time_reading_ms > 0 || s.disk.time_writing_ms > 0 {
        seq![""@, "# Disk IO utilization"@] + (if s.time_ms > prev.time_ms {
            seq![
                "Reading: "@ + spec_percent1(
                    sat64(
                        spec_rate_bp(
                            s.disk.time_reading_ms as int,
                            prev.disk.time_reading_ms as int,
                            s.time_ms as int,
                            prev.time_ms as int,
                        ),
                    ) as nat,
                ),
                "Writing: "@ + spec_percent1(
                    sat64(
                        spec_rate_bp(
                            s.disk.time_writing_ms as int,
                            prev.disk.time_writing_ms as int,
                            s.time_ms as int,
                            prev.time_ms as int,
                        ),
                    ) as nat,
                ),
            ]
        } else {
            Seq::empty()
        })
    } else {
        Seq::empty()
    }
}

/// The network section, present when any traffic was counted: bytes
/// received and transmitted since the startup baseline, and 0 where a
/// counter went backwards.
pub open spec fn spec_network_lines(s: SystemStatV, init: SystemStatV) -> Seq<Seq<char>> {
    if sat64(s.network_total_rx + s.network_total_tx) > 0 {
        seq![
            ""@,
            "# Network transfer so far"@,
            "Received: "@ + spec_format_bytes(
                monus(s.network_total_rx as int, init.network_total_rx as int) as nat,
            ),
            "Transmitted: "@ + spec_format_bytes(
                monus(s.network_total_tx as int, init.network_total_tx as int) as nat,
            ),
        ]
    } else {
        Seq::empty()
    }
}

/// The temperature section, present when any sensor was read.
pub open spec fn spec_temperature_lines(s: SystemStatV) -> Seq<Seq<char>> {
    if s.temperatures.len() > 0 {
        seq![""@, "# Temperatures"@] + spec_temp_lines(s.temperatures)
    } else {
        Seq::empty()
    }
}

/// The whole panel, section by section.
pub open spec fn spec_summarize(s: SystemStatV, init: SystemStatV, prev: SystemStatV) -> Seq<
    Seq<char>,
> {
    spec_memory_lines(s) + spec_cpu_lines(s, prev) + spec_disk_space_lines(s)
        + spec_disk_io_lines(s, prev) + spec_network_lines(s, init) + spec_temperature_lines(s)
}

fn labeled_kb(label: &str, kb: u64) -> (r: String)
    ensures
        r@ == label@ + spec_format_kb(kb as nat),
{
    let mut s = String::new();
    s.append(label);
    let v = crate::numbers::format_kb(kb);
    s.append(v.as_str());
    proof {
        assert(s@ =~= label@ + spec_format_kb(kb as nat));
    }
    s
}

fn ratio_line(label: &str, part_text: String, whole_text: String, pct: String) -> (r: String)
    ensures
        r@ == label@ + part_text@ + " / "@ + whole_text@ + " ("@ + pct@ + ")"@,
{
    let mut s = String::new();
    s.append(label);
    s.append(part_text.as_str());
    s.append(" / ");
    s.append(whole_text.as_str());
    s.append(" (");
    s.append(pct.as_str());
    s.append(")");
    proof {
        assert(s@ =~= label@ + part_text@ + " / "@ + whole_text@ + " ("@ + pct@ + ")"@);
    }
    s
}

fn percent_100_line(label: &str, bp: u64) -> (r: String)
    ensures
        r@ == label@ + spec_percent2(bp as nat) + " / 100%"@,
{
    let mut s = String::new();
    s.append(label);
    let pct = PercentFormatterExt::to_percent2(&bp);
    s.append(pct.as_str());
    s.append(" / 100%");
    proof {
        assert(s@ =~= label@ + spec_percent2(bp as nat) + " / 100%"@);
    }
    s
}

fn literal_line(text: &str) -> (r: String)
    ensures
        r@ == text@,
{
    let mut s = String::new();
    s.append(text);
    proof {
        assert(s@ =~= text@);
    }
    s
}

fn labeled_prefix(label: &str, text: &str) -> (r: String)
    ensures
        r@ == label@ + text@,
{
    let mut s = String::new();
    s.append(label);
    s.append(text);
    proof {
        assert(s@ =~= label@ + text@);
    }
    s
}

fn labeled_prefix_owned(label: &str, text: String) -> (r: String)
    ensures
        r@ == label@ + text@,
{
    let mut s = String::new();
    s.append(label);
    s.append(text.as_str());
    proof {
        assert(s@ =~= label@ + text@);
    }
    s
}

fn part_line(e: &crate::sysinfo::PartitionEntry) -> (r: String)
    ensures
        r@ == spec_part_line(e@),
{
    let mut s = e.mount_point.clone();
    s.append(": ");
    let used = crate::numbers::format_bytes(e.usage.used);
    s.append(used.as_str());
    s.append(" / ");
    let total = crate::numbers::format_bytes(e.usage.total);
    s.append(total.as_str());
    s.append(" (");
    let pct = PercentFormatterExt::to_percent1(&e.usage.usage);
    s.append(pct.as_str());
    s.append(")");
    proof {
        assert(s@ =~= spec_part_line(e@));
    }
    s
}

fn temp_line(e: &crate::sysinfo::TemperatureEntry) -> (r: String)
    ensures
        r@ == spec_temp_line(e@),
{
    let mut s = e.label.clone();
    s.append(": ");
    let deg = crate::numbers::i64_to_string(e.degrees);
    s.append(deg.as_str());
    s.append("\u{00B0}C");
    proof {
        assert(s@ =~= spec_temp_line(e@));
    }
    s
}

fn append_memory_lines(lines: &mut Vec<String>, s: &SystemStat)
    ensures
        final(lines).deep_view() == old(lines).deep_view() + spec_memory_lines(s@),
{
    lines.push(labeled_prefix("OS: ", s.os_version.as_str()));
    lines.push(labeled_prefix("Host: ", s.host_name.as_str()));
    lines.push(literal_line(""));
    lines.push(literal_line("# Memory"));
    let used_line = ratio_line(
        "Used: ",
        crate::numbers::format_kb(s.memory.used),
        crate::numbers::format_kb(s.memory.total),
        PercentFormatterExt::to_percent1(&s.memory.usage),
    );
    lines.push(used_line);
    lines.push(labeled_kb("Cache: ", s.memory.cache));
    lines.push(labeled_kb("Buffers: ", s.memory.buffers));
    let dw = crate::sysinfo::sat_add(s.memory.dirty, s.memory.writeback);
    lines.push(labeled_kb("Dirty & Writeback: ", dw));
    if s.memory.swap_total > 0 {
        let swap_line = ratio_line(
            "Swap: ",
            crate::numbers::format_kb(s.memory.swap_used),
            crate::numbers::format_kb(s.memory.swap_total),
            PercentFormatterExt::to_percent1(&s.memory.swap_usage),
        );
        lines.push(swap_line);
    }
    proof {
        assert forall|k: int| 0 <= k < lines@.len() implies #[trigger] lines.deep_view()[k] == (
        old(lines).deep_view() + spec_memory_lines(s@))[k] by {
            assert(lines.deep_view()[k] == lines@[k]@);
            if k < old(lines)@.len() {
                assert(lines@[k] == old(lines)@[k]);
                assert(old(lines).deep_view()[k] == old(lines)@[k]@);
            }
        }
        assert(lines.deep_view() =~= old(lines).deep_view() + spec_memory_lines(s@));
    }
}

fn append_cpu_lines(lines: &mut Vec<String>, s: &SystemStat, prev: &SystemStat)
    ensures
        final(lines).deep_view() == old(lines).deep_view() + spec_cpu_lines(s@, prev@),
{
    lines.push(literal_line(""));
    lines.push(literal_line("# CPU"));
    if s.cpu_num > 0 {
        lines.push(labeled_prefix_owned("Cores: ", crate::numbers::u64_to_string(s.cpu_num as u64)));
    }
    if s.cpu.total_time > 0 {
        let usage_bp = crate::sysinfo::compute_rate_bp(
            s.cpu.busy_time,
            prev.cpu.busy_time,
            s.cpu.total_time,
            prev.cpu.total_time,
        );
        lines.push(percent_100_line("Usage: ", usage_bp));
    }
    lines.push(percent_100_line("1m Load average: ", s.cpu.load_avg.load_1m));
    lines.push(percent_100_line("5m Load average: ", s.cpu.load_avg.load_5m));
    lines.push(percent_100_line("15m Load average: ", s.cpu.load_avg.load_15m));
    proof {
        assert forall|k: int| 0 <= k < lines@.len() implies #[trigger] lines.deep_view()[k] == (
        old(lines).deep_view() + spec_cpu_lines(s@, prev@))[k] by {
            assert(lines.deep_view()[k] == lines@[k]@);
            if k < old(lines)@.len() {
                assert(lines@[k] == old(lines)@[k]);
                assert(old(lines).deep_view()[k] == old(lines)@[k]@);
            }
        }
        assert(lines.deep_view() =~= old(lines).deep_view() + spec_cpu_lines(s@, prev@));
    }
}

fn append_disk_space_lines(lines: &mut Vec<String>, s: &SystemStat)
    ensures
        final(lines).deep_view() == old(lines).deep_view() + spec_disk_space_lines(s@),
{
    if s.disk_space_usages.len() == 0 {
        proof {
            assert(lines.deep_view() =~= old(lines).deep_view() + spec_disk_space_lines(s@));
        }
        return ;
    }
    lines.push(literal_line(""));
    lines.push(literal_line("# Disk space usage"));
    let ghost base = lines@;
    let ghost pv = crate::sysinfo::part_views(s.disk_space_usages@);
    let mut i: usize = 0;
    while i < s.disk_space_usages.len()
        invariant
            pv == crate::sysinfo::part_views(s.disk_space_usages@),
            pv.len() == s.disk_space_usages@.len(),
            i <= s.disk_space_usages@.len(),
            lines@.len() == base.len() + i,
            forall|k: int| 0 <= k < base.len() ==> lines@[k] == base[k],
            forall|k: int| 0 <= k < i ==> (#[trigger] lines@[base.len() + k])@ == spec_part_line(
                pv[k],
            ),
        decreases s.disk_space_usages@.len() - i,
    {
        let e = &s.disk_space_usages[i];
        let line = part_line(e);
        lines.push(line);
        proof {
            assert(pv[i as int] == s.disk_space_usages@[i as int]@);
            assert((lines@[base.len() + i])@ == spec_part_line(pv[i as int]));
        }
        i += 1;
    }
    proof {
        assert forall|k: int| 0 <= k < lines@.len() implies #[trigger] lines.deep_view()[k] == (
        old(lines).deep_view() + spec_disk_space_lines(s@))[k] by {
            assert(lines.deep_view()[k] == lines@[k]@);
            if k < old(lines)@.len() {
                assert(lines@[k] == base[k]);
                assert(base[k] == old(lines)@[k]);
                assert(old(lines).deep_view()[k] == old(lines)@[k]@);
            } else if k < base.len() {
                assert(lines@[k] == base[k]);
            } else {
                let k2 = k - base.len();
                assert((lines@[base.len() + k2])@ == spec_part_line(pv[k2]));
                assert(spec_part_lines(pv)[k2] == spec_part_line(pv[k2]));
            }
        }
        assert(lines.deep_view() =~= old(lines).deep_view() + spec_disk_space_lines(s@));
    }
}

fn append_disk_io_lines(lines: &mut Vec<String>, s: &SystemStat, prev: &SystemStat)
    ensures
        final(lines).deep_view() == old(lines).deep_view() + spec_disk_io_lines(s@, prev@),
{
    if s.has_io_stats() {
        lines.push(literal_line(""));
        lines.push(literal_line("# Disk IO utilization"));
        if s.time_ms > prev.time_ms {
            let read_bp = crate::sysinfo::compute_rate_bp(
                s.disk.time_reading_ms,
                prev.disk.time_reading_ms,
                s.time_ms,
                prev.time_ms,
            );
            lines.push(labeled_prefix_owned("Reading: ", PercentFormatterExt::to_percent1(&read_bp)));
            let write_bp = crate::sysinfo::compute_rate_bp(
                s.disk.time_writing_ms,
                prev.disk.time_writing_ms,
                s.time_ms,
                prev.time_ms,
            );
            lines.push(labeled_prefix_owned("Writing: ", PercentFormatterExt::to_percent1(&write_bp)));
        }
    }
    proof {
        assert forall|k: int| 0 <= k < lines@.len() implies #[trigger] lines.deep_view()[k] == (
        old(lines).deep_view() + spec_disk_io_lines(s@, prev@))[k] by {
            assert(lines.deep_view()[k] == lines@[k]@);
            if k < old(lines)@.len() {
                assert(lines@[k] == old(lines)@[k]);
                assert(old(lines).deep_view()[k] == old(lines)@[k]@);
            }
        }
        assert(lines.deep_view() =~= old(lines).deep_view() + spec_disk_io_lines(s@, prev@));
    }
}

fn append_network_lines(lines: &mut Vec<String>, s: &SystemStat, init: &SystemStat)
    ensures
        final(lines).deep_view() == old(lines).deep_view() + spec_network_lines(s@, init@),
{
    let traffic = crate::sysinfo::sat_add(s.network_total_rx, s.network_total_tx);
    if traffic > 0 {
        lines.push(literal_line(""));
        lines.push(literal_line("# Network transfer so far"));
        let rx_delta = if s.network_total_rx >= init.network_total_rx {
            s.network_total_rx - init.network_total_rx
        } else {
            0
        };
        lines.push(labeled_prefix_owned("Received: ", crate::numbers::format_bytes(rx_delta)));
        let tx_delta = if s.network_total_tx >= init.network_total_tx {
            s.network_total_tx - init.network_total_tx
        } else {
            0
        };
        lines.push(labeled_prefix_owned("Transmitted: ", crate::numbers::format_bytes(tx_delta)));
    }
    proof {
        assert forall|k: int| 0 <= k < lines@.len() implies #[trigger] lines.deep_view()[k] == (
        old(lines).deep_view() + spec_network_lines(s@, init@))[k] by {
            assert(lines.deep_view()[k] == lines@[k]@);
            if k < old(lines)@.len() {
                assert(lines@[k] == old(lines)@[k]);
                assert(old(lines).deep_view()[k] == old(lines)@[k]@);
            }
        }
        assert(lines.deep_view() =~= old(lines).deep_view() + spec_network_lines(s@, init@));
    }
}

fn append_temperature_lines(lines: &mut Vec<String>, s: &SystemStat)
    ensures
        final(lines).deep_view() == old(lines).deep_view() + spec_temperature_lines(s@),
{
    if s.temperatures.len() == 0 {
        proof {
            assert(lines.deep_view() =~= old(lines).deep_view() + spec_temperature_lines(s@));
        }
        return ;
    }
    lines.push(literal_line(""));
    lines.push(literal_line("# Temperatures"));
    let ghost base = lines@;
    let ghost tv = crate::sysinfo::temp_views(s.temperatures@);
    let mut j: usize = 0;
    while j < s.temperatures.len()
        invariant
            tv == crate::sysinfo::temp_views(s.temperatures@),
            tv.len() == s.temperatures@.len(),
            j <= s.temperatures@.len(),
            lines@.len() == base.len() + j,
            forall|k: int| 0 <= k < base.len() ==> lines@[k] == base[k],
            forall|k: int| 0 <= k < j ==> (#[trigger] lines@[base.len() + k])@ == spec_temp_line(
                tv[k],
            ),
        decreases s.temperatures@.len() - j,
    {
        let e = &s.temperatures[j];
        let line = temp_line(e);
        lines.push(line);
        proof {
            assert(tv[j as int] == s.temperatures@[j as int]@);
            assert((lines@[base.len() + j])@ == spec_temp_line(tv[j as int]));
        }
        j += 1;
    }
    proof {
        assert forall|k: int| 0 <= k < lines@.len() implies #[trigger] lines.deep_view()[k] == (
        old(lines).deep_view() + spec_temperature_lines(s@))[k] by {
            assert(lines.deep_view()[k] == lines@[k]@);
            if k < old(lines)@.len() {
                assert(lines@[k] == base[k]);
                assert(base[k] == old(lines)@[k]);
                assert(old(lines).deep_view()[k] == old(lines)@[k]@);
            } else if k < base.len() {
                assert(lines@[k] == base[k]);
            } else {
                let k2 = k - base.len();
                assert((lines@[base.len() + k2])@ == spec_temp_line(tv[k2]));
                assert(spec_temp_lines(tv)[k2] == spec_temp_line(tv[k2]));
            }
        }
        assert(lines.deep_view() =~= old(lines).deep_view() + spec_temperature_lines(s@));
    }
}

impl SystemStat {
    /// The system panel's text for this poll: memory, CPU, disk space,
    /// disk utilization against the previous poll, network totals
    /// against the startup baseline, and temperatures.
    pub fn summarize(&self, init_stat: &SystemStat, previous_stat: &SystemStat) -> (r: Vec<String>)
        ensures
            r.deep_view() == spec_summarize(self@, init_stat@, previous_stat@),
    {
        let mut lines: Vec<String> = Vec::new();
        proof {
            assert(lines.deep_view() =~= Seq::<Seq<char>>::empty());
        }
        append_memory_lines(&mut lines, self);
        append_cpu_lines(&mut lines, self, previous_stat);
        append_disk_space_lines(&mut lines, self);
        append_disk_io_lines(&mut lines, self, previous_stat);
        append_network_lines(&mut lines, self, init_stat);
        append_temperature_lines(&mut lines, self);
        proof {
            assert(lines.deep_view() =~= spec_summarize(self@, init_stat@, previous_stat@));
        }
        lines
    }
}

} // verus!