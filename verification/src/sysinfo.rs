//! The statistics model: per-process and system-wide readings, the delta
//! engine that turns cumulative counters into rates, and the aggregator
//! that merges processes sharing an executable path.
//!
//! Counters that the operating system reports as floating fractions are
//! carried here as integers: fractions in basis points (ten-thousandths,
//! so 10000 is 1.0), times in milliseconds, sizes in bytes or kilobytes.

use vstd::prelude::*;
use vstd::string::StringExecFns;

verus! {

broadcast use vstd::seq_lib::group_seq_lib_default;

/// One process at one poll, with rates already derived.
pub struct ProcessStat {
    pub pid: String,
    pub pid_num: u32,
    /// Short name, e.g. chrome
    pub name: String,
    /// Full command, e.g. /opt/google/chrome/chrome --type=renderer
    pub cmd: String,
    /// Full executable path, e.g. /opt/google/chrome/chrome
    pub exe: String,
    pub cwd: String,
    pub status: String,
    /// Fraction of one core, in basis points; can exceed 10000 on
    /// multi-threaded processes.
    pub cpu_usage: u64,
    /// Fraction of total memory, in basis points.
    pub memory_usage: u64,
    /// Total written + read bytes.
    pub disk_usage: u64,
    pub user_id: Option<u32>,
    pub display_name: String,
    /// Uptime in seconds.
    pub run_time: u64,
    /// Timestamp of the reading, milliseconds since the epoch.
    pub time_ms: u64,
    /// Cumulative CPU time in milliseconds.
    pub cpu_time_ms: u64,
    pub parent_pid: Option<String>,
    /// The members merged into this entry, when it stands for a group.
    pub group_children: Vec<ProcessStat>,
}

/// The mathematical reading of a process entry, leaving its group members
/// aside.
pub ghost struct ProcFlatV {
    pub pid: Seq<char>,
    pub pid_num: u32,
    pub name: Seq<char>,
    pub cmd: Seq<char>,
    pub exe: Seq<char>,
    pub cwd: Seq<char>,
    pub status: Seq<char>,
    pub cpu_usage: u64,
    pub memory_usage: u64,
    pub disk_usage: u64,
    pub user_id: Option<u32>,
    pub display_name: Seq<char>,
    pub run_time: u64,
    pub time_ms: u64,
    pub cpu_time_ms: u64,
    pub parent_pid: Option<Seq<char>>,
}

/// The mathematical reading of a process entry with its group members.
pub ghost struct ProcV {
    pub flat: ProcFlatV,
    pub children: Seq<ProcFlatV>,
}

/// The flat reading of a process entry.
pub open spec fn flat_view(p: ProcessStat) -> ProcFlatV {
    ProcFlatV {
        pid: p.pid@,
        pid_num: p.pid_num,
        name: p.name@,
        cmd: p.cmd@,
        exe: p.exe@,
        cwd: p.cwd@,
        status: p.status@,
        cpu_usage: p.cpu_usage,
        memory_usage: p.memory_usage,
        disk_usage: p.disk_usage,
        user_id: p.user_id,
        display_name: p.display_name@,
        run_time: p.run_time,
        time_ms: p.time_ms,
        cpu_time_ms: p.cpu_time_ms,
        parent_pid: match p.parent_pid {
            Option::Some(s) => Option::Some(s@),
            Option::None => Option::None,
        },
    }
}

impl View for ProcessStat {
    type V = ProcV;

    open spec fn view(&self) -> ProcV {
        ProcV {
            flat: flat_view(*self),
            children: flat_views(self.group_children@),
        }
    }
}

/// The flat readings of a sequence of entries.
pub open spec fn flat_views(s: Seq<ProcessStat>) -> Seq<ProcFlatV> {
    s.map_values(|p: ProcessStat| flat_view(p))
}

/// The full readings of a sequence of entries.
pub open spec fn views_of(s: Seq<ProcessStat>) -> Seq<ProcV> {
    s.map_values(|p: ProcessStat| p@)
}

/// All process entries of one poll.
pub struct SystemProcStats {
    pub processes: Vec<ProcessStat>,
}

impl View for SystemProcStats {
    type V = Seq<ProcV>;

    open spec fn view(&self) -> Seq<ProcV> {
        views_of(self.processes@)
    }
}

impl SystemProcStats {
    /// An empty process list.
    pub fn new() -> (r: Self)
        ensures
            r@ =~= Seq::<ProcV>::empty(),
    {
        let r = SystemProcStats { processes: Vec::new() };
        proof {
            assert(r@ =~= Seq::<ProcV>::empty());
        }
        r
    }
}

/// Copies one ungrouped process entry.
pub fn clone_stat(p: &ProcessStat) -> (r: ProcessStat)
    requires
        p.group_children@.len() == 0,
    ensures
        r@ == p@,
        r.group_children@.len() == 0,
{
    let r = ProcessStat {
        pid: p.pid.clone(),
        pid_num: p.pid_num,
        name: p.name.clone(),
        cmd: p.cmd.clone(),
        exe: p.exe.clone(),
        cwd: p.cwd.clone(),
        status: p.status.clone(),
        cpu_usage: p.cpu_usage,
        memory_usage: p.memory_usage,
        disk_usage: p.disk_usage,
        user_id: p.user_id,
        display_name: p.display_name.clone(),
        run_time: p.run_time,
        time_ms: p.time_ms,
        cpu_time_ms: p.cpu_time_ms,
        parent_pid: match &p.parent_pid {
            Option::Some(s) => Option::Some(s.clone()),
            Option::None => Option::None,
        },
        group_children: Vec::new(),
    };
    proof {
        assert(r@.children =~= p@.children);
    }
    r
}

/// Caps a mathematical integer into the u64 range.
pub open spec fn sat64(x: int) -> u64 {
    if x > u64::MAX {
        u64::MAX
    } else if x < 0 {
        0u64
    } else {
        x as u64
    }
}

/// Addition that stops at the top of the u64 range.
pub fn sat_add(a: u64, b: u64) -> (r: u64)
    ensures
        r == sat64(a + b),
{
    if a > u64::MAX - b {
        u64::MAX
    } else {
        a + b
    }
}

/// The sum of a sequence of integers.
pub open spec fn sum_of(s: Seq<int>) -> int
    decreases s.len(),
{
    if s.len() == 0 {
        0
    } else {
        sum_of(s.drop_last()) + s.last()
    }
}

/// The largest element of a sequence of integers, or 0 when it is empty.
pub open spec fn max_of(s: Seq<int>) -> int
    decreases s.len(),
{
    if s.len() == 0 {
        0
    } else if s.last() >= max_of(s.drop_last()) {
        s.last()
    } else {
        max_of(s.drop_last())
    }
}

proof fn lemma_sum_of_nonneg(s: Seq<int>)
    requires
        forall|i: int| 0 <= i < s.len() ==> #[trigger] s[i] >= 0,
    ensures
        sum_of(s) >= 0,
    decreases s.len(),
{
    if s.len() > 0 {
        lemma_sum_of_nonneg(s.drop_last());
    }
}

proof fn lemma_max_of_range(s: Seq<int>, hi: int)
    requires
        hi >= 0,
        forall|i: int| 0 <= i < s.len() ==> 0 <= #[trigger] s[i] <= hi,
    ensures
        0 <= max_of(s) <= hi,
    decreases s.len(),
{
    if s.len() > 0 {
        lemma_max_of_range(s.drop_last(), hi);
    }
}

/// The merged entry of a non-empty group: identity fields from the first
/// member, summed rates, the longest uptime.
pub open spec fn spec_merge(cs: Seq<ProcFlatV>) -> ProcFlatV
    recommends
        cs.len() > 0,
{
    ProcFlatV {
        pid: cs[0].pid,
        pid_num: cs[0].pid_num,
        name: cs[0].name,
        cmd: cs[0].cmd,
        exe: cs[0].exe,
        cwd: cs[0].cwd,
        status: cs[0].status,
        cpu_usage: sat64(sum_of(cs.map_values(|f: ProcFlatV| f.cpu_usage as int))),
        memory_usage: sat64(sum_of(cs.map_values(|f: ProcFlatV| f.memory_usage as int))),
        disk_usage: sat64(sum_of(cs.map_values(|f: ProcFlatV| f.disk_usage as int))),
        user_id: cs[0].user_id,
        display_name: cs[0].exe,
        run_time: max_of(cs.map_values(|f: ProcFlatV| f.run_time as int)) as u64,
        time_ms: cs[0].time_ms,
        cpu_time_ms: sat64(sum_of(cs.map_values(|f: ProcFlatV| f.cpu_time_ms as int))),
        parent_pid: cs[0].parent_pid,
    }
}

/// Merges a non-empty group of processes that share an executable path
/// into one synthetic entry. CPU, memory and disk figures are summed
/// (stopping at the top of the range); the uptime is the longest of the
/// group; identity fields come from the first member; the members
/// themselves are kept for detail display.
pub fn merge_processes_group(processes: Vec<ProcessStat>) -> (r: ProcessStat)
    requires
        processes@.len() > 0,
    ensures
        r@.flat == spec_merge(flat_views(processes@)),
        r@.children == flat_views(processes@),
{
    let ghost cs = flat_views(processes@);
    let ghost cpu_ints = cs.map_values(|f: ProcFlatV| f.cpu_usage as int);
    let ghost mem_ints = cs.map_values(|f: ProcFlatV| f.memory_usage as int);
    let ghost disk_ints = cs.map_values(|f: ProcFlatV| f.disk_usage as int);
    let ghost ct_ints = cs.map_values(|f: ProcFlatV| f.cpu_time_ms as int);
    let ghost rt_ints = cs.map_values(|f: ProcFlatV| f.run_time as int);

    let n = processes.len();
    let mut cpu_acc: u64 = 0;
    let mut mem_acc: u64 = 0;
    let mut disk_acc: u64 = 0;
    let mut ct_acc: u64 = 0;
    let mut rt_acc: u64 = 0;
    let mut i: usize = 0;
    proof {
        assert(cpu_ints.take(0) =~= Seq::<int>::empty());
        assert(mem_ints.take(0) =~= Seq::<int>::empty());
        assert(disk_ints.take(0) =~= Seq::<int>::empty());
        assert(ct_ints.take(0) =~= Seq::<int>::empty());
        assert(rt_ints.take(0) =~= Seq::<int>::empty());
    }
    while i < n
        invariant
            n == processes@.len(),
            i <= n,
            cs == flat_views(processes@),
            cpu_ints == cs.map_values(|f: ProcFlatV| f.cpu_usage as int),
            mem_ints == cs.map_values(|f: ProcFlatV| f.memory_usage as int),
            disk_ints == cs.map_values(|f: ProcFlatV| f.disk_usage as int),
            ct_ints == cs.map_values(|f: ProcFlatV| f.cpu_time_ms as int),
            rt_ints == cs.map_values(|f: ProcFlatV| f.run_time as int),
            cpu_acc == sat64(sum_of(cpu_ints.take(i as int))),
            mem_acc == sat64(sum_of(mem_ints.take(i as int))),
            disk_acc == sat64(sum_of(disk_ints.take(i as int))),
            ct_acc == sat64(sum_of(ct_ints.take(i as int))),
            rt_acc == max_of(rt_ints.take(i as int)),
        decreases n - i,
    {
        let p = &processes[i];
        proof {
            assert(cpu_ints.take(i + 1).drop_last() =~= cpu_ints.take(i as int));
            assert(mem_ints.take(i + 1).drop_last() =~= mem_ints.take(i as int));
            assert(disk_ints.take(i + 1).drop_last() =~= disk_ints.take(i as int));
            assert(ct_ints.take(i + 1).drop_last() =~= ct_ints.take(i as int));
            assert(rt_ints.take(i + 1).drop_last() =~= rt_ints.take(i as int));
            lemma_sum_of_nonneg(cpu_ints.take(i as int));
            lemma_sum_of_nonneg(mem_ints.take(i as int));
            lemma_sum_of_nonneg(disk_ints.take(i as int));
            lemma_sum_of_nonneg(ct_ints.take(i as int));
            lemma_max_of_range(rt_ints.take(i as int), u64::MAX as int);
        }
        cpu_acc = sat_add(cpu_acc, p.cpu_usage);
        mem_acc = sat_add(mem_acc, p.memory_usage);
        disk_acc = sat_add(disk_acc, p.disk_usage);
        ct_acc = sat_add(ct_acc, p.cpu_time_ms);
        if p.run_time > rt_acc {
            rt_acc = p.run_time;
        }
        i += 1;
    }
    proof {
        assert(cpu_ints.take(n as int) =~= cpu_ints);
        assert(mem_ints.take(n as int) =~= mem_ints);
        assert(disk_ints.take(n as int) =~= disk_ints);
        assert(ct_ints.take(n as int) =~= ct_ints);
        assert(rt_ints.take(n as int) =~= rt_ints);
        lemma_max_of_range(rt_ints, u64::MAX as int);
    }
    let first = &processes[0];
    let pid = first.pid.clone();
    let pid_num = first.pid_num;
    let name = first.name.clone();
    let cmd = first.cmd.clone();
    let exe = first.exe.clone();
    let cwd = first.cwd.clone();
    let status = first.status.clone();
    let user_id = first.user_id;
    let display_name = first.exe.clone();
    let time_ms = first.time_ms;
    let parent_pid = match &first.parent_pid {
        Option::Some(s) => Option::Some(s.clone()),
        Option::None => Option::None,
    };
    let r = ProcessStat {
        pid,
        pid_num,
        name,
        cmd,
        exe,
        cwd,
        status,
        cpu_usage: cpu_acc,
        memory_usage: mem_acc,
        disk_usage: disk_acc,
        user_id,
        display_name,
        run_time: rt_acc,
        time_ms,
        cpu_time_ms: ct_acc,
        parent_pid,
        group_children: processes,
    };
    r
}

/// The rate that two readings of a cumulative counter give, in basis
/// points: the counter delta, scaled, over the elapsed time. Zero elapsed
/// time or a counter that went backwards (a reset) give 0, never a
/// division error or a negative rate.
pub open spec fn spec_rate_bp(cur_counter: int, prev_counter: int, cur_t: int, prev_t: int) -> int {
    if cur_t <= prev_t {
        0
    } else if cur_counter <= prev_counter {
        0
    } else {
        (cur_counter - prev_counter) * 10000 / (cur_t - prev_t)
    }
}

/// Computes a rate in basis points from two readings of a cumulative
/// counter, capped into the u64 range.
pub fn compute_rate_bp(cur_counter: u64, prev_counter: u64, cur_t: u64, prev_t: u64) -> (r: u64)
    ensures
        r == sat64(spec_rate_bp(cur_counter as int, prev_counter as int, cur_t as int, prev_t as int)),
{
    if cur_t <= prev_t {
        return 0;
    }
    if cur_counter <= prev_counter {
        return 0;
    }
    let dc = (cur_counter - prev_counter) as u128;
    let dt = (cur_t - prev_t) as u128;
    let wide = dc * 10000 / dt;
    if wide > u64::MAX as u128 {
        u64::MAX
    } else {
        wide as u64
    }
}

/// The CPU usage of a process entry given the previous poll: the rate that
/// its cumulative CPU time delta gives, or the entry's own instantaneous
/// estimate when the previous poll has no entry with its pid.
pub open spec fn spec_cpu_usage(cur: ProcFlatV, prevs: Seq<ProcV>) -> u64
    decreases prevs.len(),
{
    if prevs.len() == 0 {
        cur.cpu_usage
    } else if prevs[0].flat.pid == cur.pid {
        sat64(
            spec_rate_bp(
                cur.cpu_time_ms as int,
                prevs[0].flat.cpu_time_ms as int,
                cur.time_ms as int,
                prevs[0].flat.time_ms as int,
            ),
        )
    } else {
        spec_cpu_usage(cur, prevs.drop_first())
    }
}

impl ProcessStat {
    /// The text the filter matches against: pid and display name.
    pub fn search_name(&self) -> (r: String)
        ensures
            r@ == self@.flat.pid + seq![' '] + self@.flat.display_name,
    {
        let mut s = self.pid.clone();
        crate::strings::push_char(&mut s, ' ');
        s.append(self.display_name.as_str());
        s
    }

    /// Derives the CPU usage from the previous poll's entries: the rate of
    /// the cumulative CPU time against the first previous entry with the
    /// same pid, or the stored instantaneous estimate when none matches.
    pub fn calculate_cpu_usage(&self, previous_processes: &Vec<ProcessStat>) -> (r: u64)
        ensures
            r == spec_cpu_usage(self@.flat, views_of(previous_processes@)),
    {
        let ghost pvs = views_of(previous_processes@);
        let n = previous_processes.len();
        let mut i: usize = 0;
        proof {
            assert(pvs.skip(0) =~= pvs);
        }
        while i < n
            invariant
                pvs == views_of(previous_processes@),
                n == previous_processes@.len(),
                i <= n,
                spec_cpu_usage(self@.flat, pvs) == spec_cpu_usage(self@.flat, pvs.skip(i as int)),
            decreases n - i,
        {
            let p = &previous_processes[i];
            if p.pid == self.pid {
                return compute_rate_bp(self.cpu_time_ms, p.cpu_time_ms, self.time_ms, p.time_ms);
            }
            proof {
                assert(pvs.skip(i as int).drop_first() =~= pvs.skip(i + 1));
            }
            i += 1;
        }
        proof {
            assert(pvs.skip(n as int).len() == 0);
        }
        self.cpu_usage
    }

    /// Renders the CPU usage: `0%` for an idle process, otherwise a
    /// percentage in at most five characters.
    pub fn format_cpu_usage(&self) -> (r: String)
        ensures
            r@ == if self.cpu_usage == 0 {
                "0%"@
            } else {
                crate::numbers::spec_percent_len5(self.cpu_usage as nat)
            },
    {
        if self.cpu_usage == 0 {
            let mut s = String::new();
            s.append("0%");
            proof {
                assert(s@ =~= "0%"@);
            }
            return s;
        }
        crate::numbers::PercentFormatterExt::to_percent_len5(&self.cpu_usage)
    }

    /// The command line, or the short name when the command line is empty.
    pub fn full_command(&self) -> (r: String)
        ensures
            r@ == if self@.flat.cmd.len() > 0 {
                self@.flat.cmd
            } else {
                self@.flat.name
            },
    {
        if self.cmd.as_str().unicode_len() > 0 {
            self.cmd.clone()
        } else {
            self.name.clone()
        }
    }
}

/// The parts joined with the separator between them.
pub open spec fn spec_join(parts: Seq<Seq<char>>, sep: Seq<char>) -> Seq<char>
    decreases parts.len(),
{
    if parts.len() == 0 {
        Seq::empty()
    } else if parts.len() == 1 {
        parts[0]
    } else {
        spec_join(parts.drop_last(), sep) + sep + parts.last()
    }
}

/// Joins strings with a separator between them.
pub fn join_strings(parts: &Vec<String>, sep: &str) -> (r: String)
    ensures
        r@ == spec_join(parts.deep_view(), sep@),
{
    let mut r = String::new();
    let mut i: usize = 0;
    proof {
        assert(parts.deep_view().take(0) =~= Seq::<Seq<char>>::empty());
        assert(r@ =~= spec_join(parts.deep_view().take(0), sep@));
    }
    while i < parts.len()
        invariant
            i <= parts@.len(),
            parts.deep_view().len() == parts@.len(),
            r@ == spec_join(parts.deep_view().take(i as int), sep@),
        decreases parts@.len() - i,
    {
        if i > 0 {
            r.append(sep);
        }
        r.append(parts[i].as_str());
        proof {
            assert(parts.deep_view()[i as int] == parts@[i as int]@);
            assert(parts.deep_view().take(i + 1).drop_last() =~= parts.deep_view().take(i as int));
            assert(parts.deep_view().take(i + 1).last() == parts.deep_view()[i as int]);
            if i == 0 {
                assert(r@ =~= spec_join(parts.deep_view().take(1), sep@));
            } else {
                assert(r@ =~= spec_join(parts.deep_view().take(i + 1), sep@));
            }
        }
        i += 1;
    }
    proof {
        assert(parts.deep_view().take(parts@.len() as int) =~= parts.deep_view());
    }
    r
}

/// System memory readings, in kilobytes; the usage fractions are in basis
/// points.
#[derive(Clone, Copy)]
pub struct SystemMemoryStat {
    pub total: u64,
    pub used: u64,
    pub free: u64,
    pub cache: u64,
    pub buffers: u64,
    pub dirty: u64,
    pub writeback: u64,
    pub usage: u64,
    pub swap_total: u64,
    pub swap_used: u64,
    pub swap_usage: u64,
}

impl SystemMemoryStat {
    /// The kilobytes that are dirty or under writeback, together.
    pub fn dirty_writeback(&self) -> (r: u64)
        requires
            self.dirty + self.writeback <= u64::MAX,
        ensures
            r == self.dirty + self.writeback,
    {
        self.dirty + self.writeback
    }
}

/// Cumulative milliseconds the disks spent reading and writing.
#[derive(Clone, Copy, PartialEq, Eq, Structural)]
pub struct DiskIOStat {
    pub time_reading_ms: u64,
    pub time_writing_ms: u64,
}

/// Space usage of one mounted partition; the fraction is in basis points.
#[derive(Clone, Copy)]
pub struct PartitionUsage {
    pub used: u64,
    pub total: u64,
    pub usage: u64,
}

/// System CPU load averages over one, five and fifteen minutes, in basis
/// points of the whole machine.
#[derive(Clone, Copy)]
pub struct CpuLoadAvg {
    pub load_1m: u64,
    pub load_5m: u64,
    pub load_15m: u64,
}

/// Cumulative system CPU tick counters and the load averages.
#[derive(Clone, Copy)]
pub struct SystemCpuStat {
    pub busy_time: u64,
    pub total_time: u64,
    pub load_avg: CpuLoadAvg,
}

/// One mounted partition with its space usage.
pub struct PartitionEntry {
    pub mount_point: String,
    pub usage: PartitionUsage,
}

/// The ghost readings of a sequence of partition entries.
pub open spec fn part_views(s: Seq<PartitionEntry>) -> Seq<PartitionEntryV> {
    s.map_values(|e: PartitionEntry| e@)
}

/// The ghost reading of a partition entry.
pub ghost struct PartitionEntryV {
    pub mount_point: Seq<char>,
    pub usage: PartitionUsage,
}

impl View for PartitionEntry {
    type V = PartitionEntryV;

    open spec fn view(&self) -> PartitionEntryV {
        PartitionEntryV { mount_point: self.mount_point@, usage: self.usage }
    }
}

/// One temperature sensor with its reading in whole degrees Celsius.
pub struct TemperatureEntry {
    pub label: String,
    pub degrees: i64,
}

/// The ghost readings of a sequence of temperature entries.
pub open spec fn temp_views(s: Seq<TemperatureEntry>) -> Seq<TemperatureEntryV> {
    s.map_values(|e: TemperatureEntry| e@)
}

/// The ghost reading of a temperature entry.
pub ghost struct TemperatureEntryV {
    pub label: Seq<char>,
    pub degrees: i64,
}

impl View for TemperatureEntry {
    type V = TemperatureEntryV;

    open spec fn view(&self) -> TemperatureEntryV {
        TemperatureEntryV { label: self.label@, degrees: self.degrees }
    }
}

/// System-wide counters and derived rates of one poll.
pub struct SystemStat {
    /// Timestamp of the poll, milliseconds since the epoch.
    pub time_ms: u64,
    pub os_version: String,
    pub host_name: String,
    pub cpu_num: usize,
    pub memory: SystemMemoryStat,
    pub disk: DiskIOStat,
    pub cpu: SystemCpuStat,
    pub disk_space_usages: Vec<PartitionEntry>,
    /// Total number of bytes transmitted.
    pub network_total_tx: u64,
    pub network_total_rx: u64,
    pub temperatures: Vec<TemperatureEntry>,
}

/// The ghost reading of a system poll.
pub ghost struct SystemStatV {
    pub time_ms: u64,
    pub os_version: Seq<char>,
    pub host_name: Seq<char>,
    pub cpu_num: usize,
    pub memory: SystemMemoryStat,
    pub disk: DiskIOStat,
    pub cpu: SystemCpuStat,
    pub disk_space_usages: Seq<PartitionEntryV>,
    pub network_total_tx: u64,
    pub network_total_rx: u64,
    pub temperatures: Seq<TemperatureEntryV>,
}

impl View for SystemStat {
    type V = SystemStatV;

    open spec fn view(&self) -> SystemStatV {
        SystemStatV {
            time_ms: self.time_ms,
            os_version: self.os_version@,
            host_name: self.host_name@,
            cpu_num: self.cpu_num,
            memory: self.memory,
            disk: self.disk,
            cpu: self.cpu,
            disk_space_usages: part_views(self.disk_space_usages@),
            network_total_tx: self.network_total_tx,
            network_total_rx: self.network_total_rx,
            temperatures: temp_views(self.temperatures@),
        }
    }
}

impl SystemStat {
    /// A poll with every counter at its default.
    pub fn new() -> (r: Self)
        ensures
            r@.time_ms == 0,
            r@.os_version.len() == 0,
            r@.host_name.len() == 0,
            r@.cpu_num == 0,
            r@.memory == (SystemMemoryStat {
                total: 0u64,
                used: 0u64,
                free: 0u64,
                cache: 0u64,
                buffers: 0u64,
                dirty: 0u64,
                writeback: 0u64,
                usage: 0u64,
                swap_total: 0u64,
                swap_used: 0u64,
                swap_usage: 0u64,
            }),
            r@.disk == (DiskIOStat { time_reading_ms: 0u64, time_writing_ms: 0u64 }),
            r@.cpu.busy_time == 0 && r@.cpu.total_time == 0,
            r@.cpu.load_avg == (CpuLoadAvg { load_1m: 0u64, load_5m: 0u64, load_15m: 0u64 }),
            r@.disk_space_usages.len() == 0,
            r@.network_total_tx == 0,
            r@.network_total_rx == 0,
            r@.temperatures.len() == 0,
    {
        SystemStat {
            time_ms: 0,
            os_version: String::new(),
            host_name: String::new(),
            cpu_num: 0,
            memory: SystemMemoryStat {
                total: 0,
                used: 0,
                free: 0,
                cache: 0,
                buffers: 0,
                dirty: 0,
                writeback: 0,
                usage: 0,
                swap_total: 0,
                swap_used: 0,
                swap_usage: 0,
            },
            disk: DiskIOStat { time_reading_ms: 0, time_writing_ms: 0 },
            cpu: SystemCpuStat {
                busy_time: 0,
                total_time: 0,
                load_avg: CpuLoadAvg { load_1m: 0, load_5m: 0, load_15m: 0 },
            },
            disk_space_usages: Vec::new(),
            network_total_tx: 0,
            network_total_rx: 0,
            temperatures: Vec::new(),
        }
    }

    /// Whether the disks reported any cumulative read or write time.
    pub fn has_io_stats(&self) -> (r: bool)
        ensures
            r == (self.disk.time_reading_ms > 0 || self.disk.time_writing_ms > 0),
    {
        self.disk.time_reading_ms > 0 || self.disk.time_writing_ms > 0
    }
}

impl Clone for SystemStat {
    /// Copies the poll unchanged.
    fn clone(&self) -> (r: Self)
        ensures
            r@ == self@,
    {
        let mut parts: Vec<PartitionEntry> = Vec::new();
        let mut i: usize = 0;
        while i < self.disk_space_usages.len()
            invariant
                i <= self.disk_space_usages@.len(),
                parts@.len() == i,
                forall|k: int| 0 <= k < i ==> #[trigger] parts@[k]@ == self.disk_space_usages@[k]@,
            decreases self.disk_space_usages@.len() - i,
        {
            let e = &self.disk_space_usages[i];
            parts.push(PartitionEntry { mount_point: e.mount_point.clone(), usage: e.usage });
            proof {
                assert(parts@[i as int]@ == self.disk_space_usages@[i as int]@);
            }
            i += 1;
        }
        let mut temps: Vec<TemperatureEntry> = Vec::new();
        let mut j: usize = 0;
        while j < self.temperatures.len()
            invariant
                j <= self.temperatures@.len(),
                temps@.len() == j,
                forall|k: int| 0 <= k < j ==> #[trigger] temps@[k]@ == self.temperatures@[k]@,
            decreases self.temperatures@.len() - j,
        {
            let e = &self.temperatures[j];
            temps.push(TemperatureEntry { label: e.label.clone(), degrees: e.degrees });
            proof {
                assert(temps@[j as int]@ == self.temperatures@[j as int]@);
            }
            j += 1;
        }
        let r = SystemStat {
            time_ms: self.time_ms,
            os_version: self.os_version.clone(),
            host_name: self.host_name.clone(),
            cpu_num: self.cpu_num,
            memory: self.memory,
            disk: self.disk,
            cpu: self.cpu,
            disk_space_usages: parts,
            network_total_tx: self.network_total_tx,
            network_total_rx: self.network_total_rx,
            temperatures: temps,
        };
        proof {
            assert(part_views(r.disk_space_usages@) =~= part_views(self.disk_space_usages@));
            assert(temp_views(r.temperatures@) =~= temp_views(self.temperatures@));
        }
        r
    }
}

/// An optional text, or the given placeholder.
pub open spec fn spec_opt_str(o: Option<Seq<char>>, dflt: Seq<char>) -> Seq<char> {
    match o {
        Option::Some(s) => s,
        Option::None => dflt,
    }
}

/// A user id in decimal, or `unknown`.
pub open spec fn spec_uid_str(o: Option<u32>) -> Seq<char> {
    match o {
        Option::Some(u) => crate::numbers::spec_dec(u as nat),
        Option::None => "unknown"@,
    }
}

/// A CPU usage: `0%` when idle, otherwise at most five characters.
pub open spec fn spec_cpu_usage_str(bp: u64) -> Seq<char> {
    if bp == 0 {
        "0%"@
    } else {
        crate::numbers::spec_percent_len5(bp as nat)
    }
}

/// The machine's CPU ceiling: one hundred percent per core.
pub open spec fn spec_max_cpu_str(cpu_num: usize) -> Seq<char> {
    crate::numbers::spec_dec(sat64(cpu_num * 100) as nat) + "%"@
}

/// The command line, or the short name when it is empty.
pub open spec fn spec_full_command(f: ProcFlatV) -> Seq<char> {
    if f.cmd.len() > 0 {
        f.cmd
    } else {
        f.name
    }
}

/// The detail text of one ungrouped process.
pub open spec fn spec_details(f: ProcFlatV, sys: SystemStatV) -> Seq<char> {
    "Process ID: "@ + f.pid + "\nParent Process ID: "@ + spec_opt_str(f.parent_pid, "-"@)
        + "\nUser ID: "@ + spec_uid_str(f.user_id) + "\nUptime: "@
        + crate::numbers::spec_format_duration(f.run_time as nat) + "\nStatus: "@ + f.status
        + "\nMemory usage: "@ + crate::numbers::spec_percent1(f.memory_usage as nat)
        + "\nCPU usage: "@ + spec_cpu_usage_str(f.cpu_usage) + " / "@ + spec_max_cpu_str(
        sys.cpu_num,
    ) + "\n\nFull command: "@ + spec_full_command(f) + "\n\nExecutable path: "@ + f.exe
        + "\n\nWorking directory: "@ + f.cwd + "\n"@
}

/// The pids of the group members.
pub open spec fn spec_children_pids(cs: Seq<ProcFlatV>) -> Seq<Seq<char>> {
    cs.map_values(|c: ProcFlatV| c.pid)
}

/// The parent pids of the group members, `-` where unknown.
pub open spec fn spec_children_parents(cs: Seq<ProcFlatV>) -> Seq<Seq<char>> {
    cs.map_values(|c: ProcFlatV| spec_opt_str(c.parent_pid, "-"@))
}

/// The statuses of the group members.
pub open spec fn spec_children_statuses(cs: Seq<ProcFlatV>) -> Seq<Seq<char>> {
    cs.map_values(|c: ProcFlatV| c.status)
}

/// The full commands of the group members.
pub open spec fn spec_children_commands(cs: Seq<ProcFlatV>) -> Seq<Seq<char>> {
    cs.map_values(|c: ProcFlatV| spec_full_command(c))
}

/// The detail text of a merged group entry.
pub open spec fn spec_group_details(p: ProcV, sys: SystemStatV) -> Seq<char> {
    "Processes in the group: "@ + crate::numbers::spec_dec(p.children.len())
        + "\nProcess IDs: "@ + spec_join(spec_children_pids(p.children), ", "@)
        + "\nParent Process IDs: "@ + spec_join(spec_children_parents(p.children), ", "@)
        + "\nUser ID: "@ + spec_uid_str(p.flat.user_id) + "\nUptime: "@
        + crate::numbers::spec_format_duration(p.flat.run_time as nat) + "\nStatus: "@
        + spec_join(spec_children_statuses(p.children), ", "@) + "\nMemory usage: "@
        + crate::numbers::spec_percent1(p.flat.memory_usage as nat) + "\nCPU usage: "@
        + spec_cpu_usage_str(p.flat.cpu_usage) + " / "@ + spec_max_cpu_str(sys.cpu_num)
        + "\n\nExecutable path: "@ + p.flat.exe + "\n\nFull commands:\n"@ + spec_join(
        spec_children_commands(p.children),
        "\n"@,
    ) + "\n"@
}

/// The detail text an entry shows: the group form when it merges members,
/// the plain form otherwise.
pub open spec fn spec_details_of(p: ProcV, sys: SystemStatV) -> Seq<char> {
    if p.children.len() > 0 {
        spec_group_details(p, sys)
    } else {
        spec_details(p.flat, sys)
    }
}

fn opt_string(o: &Option<String>, dflt: &str) -> (r: String)
    ensures
        r@ == spec_opt_str(
            match o {
                Option::Some(s) => Option::Some(s@),
                Option::None => Option::None,
            },
            dflt@,
        ),
{
    match o {
        Option::Some(s) => s.clone(),
        Option::None => {
            let mut r = String::new();
            r.append(dflt);
            proof {
                assert(r@ =~= dflt@);
            }
            r
        },
    }
}

fn uid_string(o: &Option<u32>) -> (r: String)
    ensures
        r@ == spec_uid_str(*o),
{
    match o {
        Option::Some(u) => crate::numbers::u64_to_string(*u as u64),
        Option::None => {
            let mut r = String::new();
            r.append("unknown");
            proof {
                assert(r@ =~= "unknown"@);
            }
            r
        },
    }
}

fn max_cpu_string(cpu_num: usize) -> (r: String)
    ensures
        r@ == spec_max_cpu_str(cpu_num),
{
    let wide = (cpu_num as u128) * 100;
    let capped: u64 = if wide > u64::MAX as u128 {
        u64::MAX
    } else {
        wide as u64
    };
    let mut r = crate::numbers::u64_to_string(capped);
    r.append("%");
    proof {
        assert(r@ =~= spec_max_cpu_str(cpu_num));
    }
    r
}

impl ProcessStat {
    /// The formatted text block the details view shows for this entry.
    /// Building it always succeeds and changes nothing.
    pub fn details(&self, sys_stat: &SystemStat) -> (r: String)
        ensures
            r@ == spec_details_of(self@, sys_stat@),
    {
        if self.group_children.len() > 0 {
            return self.group_details(sys_stat);
        }
        let mut s = String::new();
        s.append("Process ID: ");
        s.append(self.pid.as_str());
        s.append("\nParent Process ID: ");
        let ppid = opt_string(&self.parent_pid, "-");
        s.append(ppid.as_str());
        s.append("\nUser ID: ");
        let uid = uid_string(&self.user_id);
        s.append(uid.as_str());
        s.append("\nUptime: ");
        let up = crate::numbers::format_duration(self.run_time);
        s.append(up.as_str());
        s.append("\nStatus: ");
        s.append(self.status.as_str());
        s.append("\nMemory usage: ");
        let mem = crate::numbers::PercentFormatterExt::to_percent1(&self.memory_usage);
        s.append(mem.as_str());
        s.append("\nCPU usage: ");
        let cpu = self.format_cpu_usage();
        s.append(cpu.as_str());
        s.append(" / ");
        let maxcpu = max_cpu_string(sys_stat.cpu_num);
        s.append(maxcpu.as_str());
        s.append("\n\nFull command: ");
        let cmd = self.full_command();
        s.append(cmd.as_str());
        s.append("\n\nExecutable path: ");
        s.append(self.exe.as_str());
        s.append("\n\nWorking directory: ");
        s.append(self.cwd.as_str());
        s.append("\n");
        proof {
            assert(s@ =~= spec_details(self@.flat, sys_stat@));
        }
        s
    }

    /// The formatted text block the details view shows for a merged
    /// group: counts, per-member identities and commands, and the summed
    /// figures.
    pub fn group_details(&self, sys_stat: &SystemStat) -> (r: String)
        requires
            self@.children.len() > 0,
        ensures
            r@ == spec_group_details(self@, sys_stat@),
    {
        let ghost cs = self@.children;
        let n = self.group_children.len();
        let mut pids: Vec<String> = Vec::new();
        let mut parents: Vec<String> = Vec::new();
        let mut statuses: Vec<String> = Vec::new();
        let mut commands: Vec<String> = Vec::new();
        let mut i: usize = 0;
        while i < n
            invariant
                n == self.group_children@.len(),
                cs == self@.children,
                cs.len() == n,
                i <= n,
                pids@.len() == i,
                parents@.len() == i,
                statuses@.len() == i,
                commands@.len() == i,
                forall|k: int| 0 <= k < i ==> #[trigger] pids@[k]@ == spec_children_pids(cs)[k],
                forall|k: int|
                    0 <= k < i ==> #[trigger] parents@[k]@ == spec_children_parents(cs)[k],
                forall|k: int|
                    0 <= k < i ==> #[trigger] statuses@[k]@ == spec_children_statuses(cs)[k],
                forall|k: int|
                    0 <= k < i ==> #[trigger] commands@[k]@ == spec_children_commands(cs)[k],
            decreases n - i,
        {
            let c = &self.group_children[i];
            proof {
                assert(cs[i as int] == flat_view(self.group_children@[i as int]));
            }
            pids.push(c.pid.clone());
            parents.push(opt_string(&c.parent_pid, "-"));
            statuses.push(c.status.clone());
            commands.push(c.full_command());
            proof {
                assert(pids@[i as int]@ == spec_children_pids(cs)[i as int]);
                assert(parents@[i as int]@ == spec_children_parents(cs)[i as int]);
                assert(statuses@[i as int]@ == spec_children_statuses(cs)[i as int]);
                assert(commands@[i as int]@ == spec_children_commands(cs)[i as int]);
            }
            i += 1;
        }
        proof {
            assert forall|k: int| 0 <= k < n implies #[trigger] pids.deep_view()[k]
                == spec_children_pids(cs)[k] by {
                assert(pids@[k]@ == spec_children_pids(cs)[k]);
            }
            assert forall|k: int| 0 <= k < n implies #[trigger] parents.deep_view()[k]
                == spec_children_parents(cs)[k] by {
                assert(parents@[k]@ == spec_children_parents(cs)[k]);
            }
            assert forall|k: int| 0 <= k < n implies #[trigger] statuses.deep_view()[k]
                == spec_children_statuses(cs)[k] by {
                assert(statuses@[k]@ == spec_children_statuses(cs)[k]);
            }
            assert forall|k: int| 0 <= k < n implies #[trigger] commands.deep_view()[k]
                == spec_children_commands(cs)[k] by {
                assert(commands@[k]@ == spec_children_commands(cs)[k]);
            }
            assert(pids.deep_view() =~= spec_children_pids(cs));
            assert(parents.deep_view() =~= spec_children_parents(cs));
            assert(statuses.deep_view() =~= spec_children_statuses(cs));
            assert(commands.deep_view() =~= spec_children_commands(cs));
        }
        let mut s = String::new();
        s.append("Processes in the group: ");
        let count = crate::numbers::u64_to_string(n as u64);
        s.append(count.as_str());
        s.append("\nProcess IDs: ");
        let pids_j = join_strings(&pids, ", ");
        s.append(pids_j.as_str());
        s.append("\nParent Process IDs: ");
        let parents_j = join_strings(&parents, ", ");
        s.append(parents_j.as_str());
        s.append("\nUser ID: ");
        let uid = uid_string(&self.user_id);
        s.append(uid.as_str());
        s.append("\nUptime: ");
        let up = crate::numbers::format_duration(self.run_time);
        s.append(up.as_str());
        s.append("\nStatus: ");
        let statuses_j = join_strings(&statuses, ", ");
        s.append(statuses_j.as_str());
        s.append("\nMemory usage: ");
        let mem = crate::numbers::PercentFormatterExt::to_percent1(&self.memory_usage);
        s.append(mem.as_str());
        s.append("\nCPU usage: ");
        let cpu = self.format_cpu_usage();
        s.append(cpu.as_str());
        s.append(" / ");
        let maxcpu = max_cpu_string(sys_stat.cpu_num);
        s.append(maxcpu.as_str());
        s.append("\n\nExecutable path: ");
        s.append(self.exe.as_str());
        s.append("\n\nFull commands:\n");
        let commands_j = join_strings(&commands, "\n");
        s.append(commands_j.as_str());
        s.append("\n");
        proof {
            assert(s@ =~= spec_group_details(self@, sys_stat@));
        }
        s
    }
}

/// The entries whose executable path equals `key`, in order.
pub open spec fn filter_exe_eq(s: Seq<ProcFlatV>, key: Seq<char>) -> Seq<ProcFlatV>
    decreases s.len(),
{
    if s.len() == 0 {
        Seq::empty()
    } else if s[0].exe == key {
        seq![s[0]] + filter_exe_eq(s.drop_first(), key)
    } else {
        filter_exe_eq(s.drop_first(), key)
    }
}

/// The entries whose executable path differs from `key`, in order.
pub open spec fn filter_exe_ne(s: Seq<ProcFlatV>, key: Seq<char>) -> Seq<ProcFlatV>
    decreases s.len(),
{
    if s.len() == 0 {
        Seq::empty()
    } else if s[0].exe != key {
        seq![s[0]] + filter_exe_ne(s.drop_first(), key)
    } else {
        filter_exe_ne(s.drop_first(), key)
    }
}

proof fn lemma_filter_exe_len(s: Seq<ProcFlatV>, key: Seq<char>)
    ensures
        filter_exe_eq(s, key).len() <= s.len(),
        filter_exe_ne(s, key).len() <= s.len(),
    decreases s.len(),
{
    if s.len() > 0 {
        lemma_filter_exe_len(s.drop_first(), key);
    }
}

proof fn lemma_filter_exe_push(s: Seq<ProcFlatV>, key: Seq<char>, x: ProcFlatV)
    ensures
        filter_exe_eq(s.push(x), key) == if x.exe == key {
            filter_exe_eq(s, key).push(x)
        } else {
            filter_exe_eq(s, key)
        },
        filter_exe_ne(s.push(x), key) == if x.exe != key {
            filter_exe_ne(s, key).push(x)
        } else {
            filter_exe_ne(s, key)
        },
    decreases s.len(),
{
    if s.len() == 0 {
        assert(s.push(x).drop_first() =~= s);
        if x.exe == key {
            assert(filter_exe_eq(s.push(x), key) =~= filter_exe_eq(s, key).push(x));
        } else {
            assert(filter_exe_ne(s.push(x), key) =~= filter_exe_ne(s, key).push(x));
        }
    } else {
        assert(s.push(x)[0] == s[0]);
        assert(s.push(x).drop_first() =~= s.drop_first().push(x));
        lemma_filter_exe_push(s.drop_first(), key, x);
        if s[0].exe == key {
            if x.exe == key {
                assert(filter_exe_eq(s.push(x), key) =~= filter_exe_eq(s, key).push(x));
            }
        } else {
            if x.exe != key {
                assert(filter_exe_ne(s.push(x), key) =~= filter_exe_ne(s, key).push(x));
            }
        }
    }
}

/// The grouped reading of a process list: one merged entry per distinct
/// executable path, in order of first appearance, each carrying the members
/// it merges.
pub open spec fn spec_group_by(s: Seq<ProcFlatV>) -> Seq<ProcV>
    decreases s.len(),
    via spec_group_by_decreases
{
    if s.len() == 0 {
        Seq::empty()
    } else {
        let grp = filter_exe_eq(s, s[0].exe);
        seq![ProcV { flat: spec_merge(grp), children: grp }] + spec_group_by(
            filter_exe_ne(s, s[0].exe),
        )
    }
}

#[via_fn]
proof fn spec_group_by_decreases(s: Seq<ProcFlatV>) {
    if s.len() > 0 {
        lemma_filter_exe_len(s.drop_first(), s[0].exe);
    }
}

/// Whether every entry of a process list is ungrouped.
pub open spec fn all_flat(s: Seq<ProcessStat>) -> bool {
    forall|i: int| 0 <= i < s.len() ==> (#[trigger] s[i]).group_children@.len() == 0
}

/// Merges processes that share an executable path: one synthetic entry per
/// distinct path, in order of first appearance. The input entries must be
/// ungrouped; they are not changed.
pub fn group_by_exe_path(processes: &Vec<ProcessStat>) -> (r: Vec<ProcessStat>)
    requires
        all_flat(processes@),
    ensures
        views_of(r@) == spec_group_by(flat_views(processes@)),
{
    let mut rest: Vec<ProcessStat> = Vec::new();
    let mut i: usize = 0;
    while i < processes.len()
        invariant
            all_flat(processes@),
            i <= processes@.len(),
            rest@.len() == i,
            all_flat(rest@),
            forall|k: int| 0 <= k < i ==> #[trigger] rest@[k]@ == processes@[k]@,
        decreases processes@.len() - i,
    {
        rest.push(clone_stat(&processes[i]));
        i += 1;
    }
    proof {
        assert forall|k: int| 0 <= k < processes@.len() implies flat_views(rest@)[k]
            == flat_views(processes@)[k] by {
            assert(rest@[k]@ == processes@[k]@);
        }
        assert(flat_views(rest@) =~= flat_views(processes@));
    }
    let ghost target = spec_group_by(flat_views(processes@));
    let mut out: Vec<ProcessStat> = Vec::new();
    proof {
        assert(views_of(out@) + spec_group_by(flat_views(rest@)) =~= target);
    }
    while rest.len() > 0
        invariant
            all_flat(rest@),
            views_of(out@) + spec_group_by(flat_views(rest@)) == target,
        decreases rest@.len(),
    {
        let ghost rv = flat_views(rest@);
        let key = rest[0].exe.clone();
        proof {
            assert(rv[0].exe == key@);
        }
        let mut grp: Vec<ProcessStat> = Vec::new();
        let mut others: Vec<ProcessStat> = Vec::new();
        let mut k: usize = 0;
        proof {
            assert(rv.take(0) =~= Seq::<ProcFlatV>::empty());
        }
        while k < rest.len()
            invariant
                all_flat(rest@),
                rv == flat_views(rest@),
                k <= rest@.len(),
                all_flat(grp@),
                all_flat(others@),
                flat_views(grp@) == filter_exe_eq(rv.take(k as int), key@),
                flat_views(others@) == filter_exe_ne(rv.take(k as int), key@),
            decreases rest@.len() - k,
        {
            let p = &rest[k];
            proof {
                assert(rv.take(k + 1) =~= rv.take(k as int).push(rv[k as int]));
                lemma_filter_exe_push(rv.take(k as int), key@, rv[k as int]);
            }
            if p.exe == key {
                grp.push(clone_stat(p));
                proof {
                    assert(flat_views(grp@) =~= filter_exe_eq(rv.take(k as int), key@).push(
                        rv[k as int],
                    ));
                }
            } else {
                others.push(clone_stat(p));
                proof {
                    assert(flat_views(others@) =~= filter_exe_ne(rv.take(k as int), key@).push(
                        rv[k as int],
                    ));
                }
            }
            k += 1;
        }
        proof {
            assert(rv.take(rest@.len() as int) =~= rv);
            assert(rv[0].exe == key@);
            assert(filter_exe_eq(rv, key@) == seq![rv[0]] + filter_exe_eq(rv.drop_first(), key@));
            assert(flat_views(grp@).len() > 0);
            assert(filter_exe_ne(rv, key@) == filter_exe_ne(rv.drop_first(), key@));
            lemma_filter_exe_len(rv.drop_first(), key@);
            assert(flat_views(others@).len() < rv.len());
        }
        let merged = merge_processes_group(grp);
        proof {
            assert(merged@ == (ProcV {
                flat: spec_merge(filter_exe_eq(rv, key@)),
                children: filter_exe_eq(rv, key@),
            }));
            assert(spec_group_by(rv) == seq![merged@] + spec_group_by(filter_exe_ne(rv, key@)));
        }
        out.push(merged);
        proof {
            assert(views_of(out@) =~= views_of(out@.drop_last()).push(out@.last()@));
        }
        rest = others;
        proof {
            assert(views_of(out@) + spec_group_by(flat_views(rest@)) =~= target);
        }
    }
    proof {
        assert(spec_group_by(flat_views(rest@)) =~= Seq::<ProcV>::empty());
        assert(views_of(out@) =~= target);
    }
    out
}

/// Every entry that grouping produces is a faithful merge of its own
/// members: its flat reading is their merge, and it has at least one
/// member.
pub proof fn lemma_group_by_entries(s: Seq<ProcFlatV>, k: int)
    requires
        0 <= k < spec_group_by(s).len(),
    ensures
        spec_group_by(s)[k].flat == spec_merge(spec_group_by(s)[k].children),
        spec_group_by(s)[k].children.len() > 0,
    decreases s.len(),
{
    lemma_filter_exe_len(s, s[0].exe);
    if k == 0 {
        assert(spec_group_by(s)[0] == (ProcV {
            flat: spec_merge(filter_exe_eq(s, s[0].exe)),
            children: filter_exe_eq(s, s[0].exe),
        }));
        assert(filter_exe_eq(s, s[0].exe).len() > 0);
    } else {
        let rest = filter_exe_ne(s, s[0].exe);
        lemma_filter_exe_len(s.drop_first(), s[0].exe);
        assert(spec_group_by(s)[k] == spec_group_by(rest)[k - 1]);
        lemma_group_by_entries(rest, k - 1);
    }
}

/// Summing a group's members reproduces the group's own reported totals
/// exactly, as long as the true sums fit the counters: CPU, memory and
/// disk figures are the members' sums, the uptime is their maximum, and
/// cumulative CPU time is their sum.
pub proof fn lemma_group_totals(g: ProcV)
    requires
        g.flat == spec_merge(g.children),
        g.children.len() > 0,
        sum_of(g.children.map_values(|f: ProcFlatV| f.cpu_usage as int)) <= u64::MAX,
        sum_of(g.children.map_values(|f: ProcFlatV| f.memory_usage as int)) <= u64::MAX,
        sum_of(g.children.map_values(|f: ProcFlatV| f.disk_usage as int)) <= u64::MAX,
    ensures
        g.flat.cpu_usage as int == sum_of(g.children.map_values(|f: ProcFlatV| f.cpu_usage as int)),
        g.flat.memory_usage as int == sum_of(
            g.children.map_values(|f: ProcFlatV| f.memory_usage as int),
        ),
        g.flat.disk_usage as int == sum_of(
            g.children.map_values(|f: ProcFlatV| f.disk_usage as int),
        ),
        g.flat.run_time as int == max_of(g.children.map_values(|f: ProcFlatV| f.run_time as int)),
{
    lemma_sum_of_nonneg(g.children.map_values(|f: ProcFlatV| f.cpu_usage as int));
    lemma_sum_of_nonneg(g.children.map_values(|f: ProcFlatV| f.memory_usage as int));
    lemma_sum_of_nonneg(g.children.map_values(|f: ProcFlatV| f.disk_usage as int));
    lemma_max_of_range(
        g.children.map_values(|f: ProcFlatV| f.run_time as int),
        u64::MAX as int,
    );
}

/// `s` with every trailing ` (deleted)` marker removed.
pub open spec fn spec_trim_deleted(s: Seq<char>) -> Seq<char>
    decreases s.len(),
{
    if s.len() >= 10 && s.subrange(s.len() - 10, s.len() as int) == " (deleted)"@ {
        spec_trim_deleted(s.take(s.len() - 10))
    } else {
        s
    }
}

/// The executable path of a process: the exe reading without any
/// ` (deleted)` marker, its first command part; failing that, the first
/// part of the command line's first word; failing that, the short name.
pub open spec fn spec_extract_exe_path(exe: Seq<char>, cmd_first: Seq<char>, name: Seq<char>) -> Seq<
    char,
> {
    let e = spec_trim_deleted(exe);
    if e.len() > 0 {
        crate::strings::spec_first_cmd_part(e)
    } else if crate::strings::spec_first_cmd_part(cmd_first).len() > 0 {
        crate::strings::spec_first_cmd_part(cmd_first)
    } else {
        name
    }
}

/// Extracts the executable path from the raw exe reading, the first word
/// of the command line, and the short name.
pub fn extract_exe_path(exe: &str, cmd_first: &str, name: &str) -> (r: String)
    ensures
        r@ == spec_extract_exe_path(exe@, cmd_first@, name@),
{
    let marker = crate::strings::chars_vec(" (deleted)");
    proof {
        reveal_strlit(" (deleted)");
        assert(marker@.len() == 10);
    }
    let mut v = crate::strings::chars_vec(exe);
    while v.len() >= 10 && crate::strings::match_at(&v, &marker, v.len() - 10)
        invariant
            marker@ == " (deleted)"@,
            marker@.len() == 10,
            spec_trim_deleted(v@) == spec_trim_deleted(exe@),
        decreases v@.len(),
    {
        let ghost before = v@;
        let mut t: usize = 0;
        let keep = v.len() - 10;
        let mut trimmed: Vec<char> = Vec::new();
        while t < keep
            invariant
                keep <= v@.len(),
                t <= keep,
                trimmed@ == v@.take(t as int),
            decreases keep - t,
        {
            trimmed.push(v[t]);
            t += 1;
            proof {
                assert(trimmed@ =~= v@.take(t as int));
            }
        }
        v = trimmed;
        proof {
            assert(crate::strings::occurs_at(before, " (deleted)"@, before.len() - 10));
            assert(before.subrange(before.len() - 10, before.len() as int) == " (deleted)"@);
            assert(v@ == before.take(before.len() - 10));
        }
    }
    proof {
        if v@.len() >= 10 {
            assert(!crate::strings::occurs_at(v@, " (deleted)"@, v@.len() - 10));
            assert(v@.subrange(v@.len() - 10, v@.len() as int) != " (deleted)"@);
        }
        assert(spec_trim_deleted(v@) == v@);
    }
    if v.len() > 0 {
        let trimmed_str = crate::strings::string_of_chars(&v);
        return crate::strings::first_cmd_part(trimmed_str.as_str());
    }
    let cmd = crate::strings::first_cmd_part(cmd_first);
    if cmd.as_str().unicode_len() > 0 {
        return cmd;
    }
    let mut r = String::new();
    r.append(name);
    proof {
        assert(r@ =~= name@);
    }
    r
}

/// Whether a sequence starts with the given prefix.
pub open spec fn spec_starts_with(s: Seq<char>, p: Seq<char>) -> bool {
    p.len() <= s.len() && s.subrange(0, p.len() as int) == p
}

/// Whether the character vector starts with the given prefix.
pub fn starts_with_chars(v: &Vec<char>, p: &Vec<char>) -> (r: bool)
    ensures
        r == spec_starts_with(v@, p@),
{
    if p.len() > v.len() {
        proof {
            assert(!spec_starts_with(v@, p@));
        }
        return false;
    }
    let r = crate::strings::match_at(v, p, 0);
    proof {
        assert(crate::strings::occurs_at(v@, p@, 0) == spec_starts_with(v@, p@));
    }
    r
}

/// Whether a network interface name belongs to a physical interface:
/// wired (enp, eth) or wireless (wlp, wlan) naming.
pub open spec fn spec_is_net_iface_physical(s: Seq<char>) -> bool {
    ||| spec_starts_with(s, "enp"@)
    ||| spec_starts_with(s, "eth"@)
    ||| spec_starts_with(s, "wlp"@)
    ||| spec_starts_with(s, "wlan"@)
}

/// Whether the interface counts toward network totals.
pub fn is_net_iface_physical(name: &str) -> (r: bool)
    ensures
        r == spec_is_net_iface_physical(name@),
{
    let v = crate::strings::chars_vec(name);
    let enp = crate::strings::chars_vec("enp");
    let eth = crate::strings::chars_vec("eth");
    let wlp = crate::strings::chars_vec("wlp");
    let wlan = crate::strings::chars_vec("wlan");
    starts_with_chars(&v, &enp) || starts_with_chars(&v, &eth) || starts_with_chars(&v, &wlp)
        || starts_with_chars(&v, &wlan)
}

/// Whether a mount point is shown among disk space usages: the root, or
/// a mount under /mnt/, /media/ or /storage/.
pub open spec fn spec_is_mount_point_eligible(s: Seq<char>) -> bool {
    ||| s == "/"@
    ||| spec_starts_with(s, "/mnt/"@)
    ||| spec_starts_with(s, "/media/"@)
    ||| spec_starts_with(s, "/storage/"@)
}

/// Whether the mount point counts toward disk space usage display.
pub fn is_mount_point_eligible(mount_point: &str) -> (r: bool)
    ensures
        r == spec_is_mount_point_eligible(mount_point@),
{
    let v = crate::strings::chars_vec(mount_point);
    let root = crate::strings::chars_vec("/");
    let mnt = crate::strings::chars_vec("/mnt/");
    let media = crate::strings::chars_vec("/media/");
    let storage = crate::strings::chars_vec("/storage/");
    let is_root = v.len() == 1 && starts_with_chars(&v, &root);
    proof {
        reveal_strlit("/");
        assert(is_root == (v@ == "/"@)) by {
            if v@.len() == 1 && spec_starts_with(v@, "/"@) {
                assert(v@ =~= "/"@);
            }
            if v@ == "/"@ {
                assert(spec_starts_with(v@, "/"@)) by {
                    assert(v@.subrange(0, 1) =~= "/"@);
                }
            }
        }
    }
    is_root || starts_with_chars(&v, &mnt) || starts_with_chars(&v, &media)
        || starts_with_chars(&v, &storage)
}

/// The memory share of a process in basis points: its resident kilobytes
/// over the machine's total kilobytes. A zero total gives 0.
pub open spec fn spec_mem_usage_bp(mem_bytes: int, total_kb: int) -> int {
    if total_kb <= 0 {
        0
    } else {
        (mem_bytes / 1024) * 10000 / total_kb
    }
}

/// Computes a process's memory share in basis points from its resident
/// bytes and the machine's total kilobytes.
pub fn memory_usage_bp(mem_bytes: u64, total_kb: u64) -> (r: u64)
    ensures
        r == sat64(spec_mem_usage_bp(mem_bytes as int, total_kb as int)),
{
    if total_kb == 0 {
        return 0;
    }
    let kb = (mem_bytes / 1024) as u128;
    let wide = kb * 10000 / (total_kb as u128);
    if wide > u64::MAX as u128 {
        u64::MAX
    } else {
        wide as u64
    }
}

/// Cumulative CPU time in milliseconds, from scheduler ticks and the
/// machine's ticks-per-second rate. A non-positive rate gives 0.
pub open spec fn spec_cpu_time_ms(ticks: int, clk_tck: int) -> int {
    if clk_tck <= 0 {
        0
    } else {
        ticks * 1000 / clk_tck
    }
}

/// Converts scheduler ticks into milliseconds of CPU time.
pub fn cpu_time_ms_of_ticks(ticks: u64, clk_tck: u64) -> (r: u64)
    ensures
        r == sat64(spec_cpu_time_ms(ticks as int, clk_tck as int)),
{
    if clk_tck == 0 {
        return 0;
    }
    let wide = (ticks as u128) * 1000 / (clk_tck as u128);
    if wide > u64::MAX as u128 {
        u64::MAX
    } else {
        wide as u64
    }
}

/// The ticks-per-second rate to use: the reading itself when it is
/// positive, otherwise the conventional 100.
pub fn resolve_clock_ticks(raw: i64) -> (r: u64)
    ensures
        r == if raw <= 0 {
            100u64
        } else {
            raw as u64
        },
        r > 0,
{
    if raw <= 0 {
        100
    } else {
        raw as u64
    }
}

} // verus!
