//! Parsers for the counter text the kernel exposes under /proc: memory
//! readings, disk I/O totals, CPU tick counters, per-process CPU time,
//! and load averages. Reading the files is the caller's job; these
//! functions turn their lines into statistics, substituting zero for any
//! value that does not parse, so one bad line never aborts a poll.

use vstd::prelude::*;

use crate::strings::spec_tokens;
use crate::sysinfo::sat64;

verus! {

broadcast use vstd::string::group_string_axioms;

/// Whether the character is a decimal digit.
pub open spec fn is_digit(c: char) -> bool {
    '0' <= c && c <= '9'
}

/// The value of a decimal digit character.
pub open spec fn digit_val(c: char) -> int {
    c as int - '0' as int
}

/// Whether the sequence is one or more decimal digits.
pub open spec fn all_digits(s: Seq<char>) -> bool {
    s.len() > 0 && forall|i: int| 0 <= i < s.len() ==> is_digit(#[trigger] s[i])
}

/// The number the digit sequence denotes.
pub open spec fn digits_val(s: Seq<char>) -> int
    decreases s.len(),
{
    if s.len() == 0 {
        0
    } else {
        digits_val(s.drop_last()) * 10 + digit_val(s.last())
    }
}

proof fn lemma_digits_val_nonneg(s: Seq<char>)
    requires
        forall|i: int| 0 <= i < s.len() ==> is_digit(#[trigger] s[i]),
    ensures
        digits_val(s) >= 0,
    decreases s.len(),
{
    if s.len() > 0 {
        lemma_digits_val_nonneg(s.drop_last());
    }
}

proof fn lemma_digits_val_prefix_le(s: Seq<char>, i: int)
    requires
        forall|k: int| 0 <= k < s.len() ==> is_digit(#[trigger] s[k]),
        0 <= i <= s.len(),
    ensures
        digits_val(s.take(i)) <= digits_val(s),
    decreases s.len() - i,
{
    if i < s.len() {
        lemma_digits_val_prefix_le(s, i + 1);
        assert(s.take(i + 1).drop_last() =~= s.take(i));
        lemma_digits_val_nonneg(s.take(i));
    } else {
        assert(s.take(i) =~= s);
    }
}

/// The number a digit string denotes, or 0 when the text is not a number
/// that fits: how every counter field is read, so one bad field never
/// aborts a poll.
pub open spec fn field_val(s: Seq<char>) -> u64 {
    if all_digits(s) && digits_val(s) <= u64::MAX {
        digits_val(s) as u64
    } else {
        0
    }
}

/// Parses a decimal digit string. Returns the value exactly when the text
/// is all digits and fits in a u64.
pub fn parse_u64(v: &Vec<char>) -> (r: Option<u64>)
    ensures
        r is Some <==> all_digits(v@) && digits_val(v@) <= u64::MAX,
        r is Some ==> r->0 == digits_val(v@),
{
    let n = v.len();
    if n == 0 {
        return None;
    }
    let mut acc: u64 = 0;
    let mut i: usize = 0;
    proof {
        assert(v@.take(0) =~= Seq::<char>::empty());
    }
    while i < n
        invariant
            n == v@.len(),
            0 < n <= usize::MAX,
            i <= n,
            forall|k: int| 0 <= k < i ==> is_digit(#[trigger] v@[k]),
            acc == digits_val(v@.take(i as int)),
        decreases n - i,
    {
        let c = v[i];
        if !('0' <= c && c <= '9') {
            return None;
        }
        let d = (c as u32 - '0' as u32) as u64;
        proof {
            assert(d == digit_val(v@[i as int]));
            assert(v@.take(i + 1).drop_last() =~= v@.take(i as int));
        }
        if acc > (u64::MAX - d) / 10 {
            proof {
                assert(digits_val(v@.take(i + 1)) == acc * 10 + d);
                assert(acc * 10 + d > u64::MAX) by (nonlinear_arith)
                    requires
                        acc > (u64::MAX - d) / 10,
                        d <= 9,
                        acc <= u64::MAX,
                ;
                if all_digits(v@) {
                    lemma_digits_val_prefix_le(v@, i + 1);
                }
            }
            return None;
        }
        acc = acc * 10 + d;
        i += 1;
    }
    proof {
        assert(v@.take(n as int) =~= v@);
    }
    Some(acc)
}

/// Parses a decimal digit string, substituting 0 for anything that does
/// not parse.
pub fn parse_field(v: &Vec<char>) -> (r: u64)
    ensures
        r == field_val(v@),
{
    match parse_u64(v) {
        Option::Some(x) => x,
        Option::None => 0,
    }
}

/// Whether two character vectors hold the same text.
pub fn chars_eq(a: &Vec<char>, b: &Vec<char>) -> (r: bool)
    ensures
        r == (a@ == b@),
{
    if a.len() != b.len() {
        return false;
    }
    let r = crate::strings::match_at(a, b, 0);
    proof {
        if crate::strings::occurs_at(a@, b@, 0) {
            assert(a@.subrange(0, b@.len() as int) =~= a@);
        }
        if a@ == b@ {
            assert(a@.subrange(0, b@.len() as int) =~= b@);
        }
    }
    r
}

/// A part's share of a whole, in basis points; a zero whole gives 0.
pub open spec fn spec_usage_bp(part: u64, whole: u64) -> u64 {
    if whole == 0 {
        0u64
    } else {
        sat64(part as int * 10000 / whole as int)
    }
}

/// Computes a part's share of a whole in basis points.
pub fn usage_bp(part: u64, whole: u64) -> (r: u64)
    ensures
        r == spec_usage_bp(part, whole),
{
    if whole == 0 {
        return 0;
    }
    let wide = (part as u128) * 10000 / (whole as u128);
    if wide > u64::MAX as u128 {
        u64::MAX
    } else {
        wide as u64
    }
}

proof fn lemma_meminfo_keys_distinct()
    ensures
        "MemTotal:"@ != "MemFree:"@,
        "MemTotal:"@ != "MemAvailable:"@,
        "MemTotal:"@ != "Buffers:"@,
        "MemTotal:"@ != "Cached:"@,
        "MemTotal:"@ != "Dirty:"@,
        "MemTotal:"@ != "Writeback:"@,
        "MemTotal:"@ != "SwapTotal:"@,
        "MemTotal:"@ != "SwapFree:"@,
        "MemFree:"@ != "MemAvailable:"@,
        "MemFree:"@ != "Buffers:"@,
        "MemFree:"@ != "Cached:"@,
        "MemFree:"@ != "Dirty:"@,
        "MemFree:"@ != "Writeback:"@,
        "MemFree:"@ != "SwapTotal:"@,
        "MemFree:"@ != "SwapFree:"@,
        "MemAvailable:"@ != "Buffers:"@,
        "MemAvailable:"@ != "Cached:"@,
        "MemAvailable:"@ != "Dirty:"@,
        "MemAvailable:"@ != "Writeback:"@,
        "MemAvailable:"@ != "SwapTotal:"@,
        "MemAvailable:"@ != "SwapFree:"@,
        "Buffers:"@ != "Cached:"@,
        "Buffers:"@ != "Dirty:"@,
        "Buffers:"@ != "Writeback:"@,
        "Buffers:"@ != "SwapTotal:"@,
        "Buffers:"@ != "SwapFree:"@,
        "Cached:"@ != "Dirty:"@,
        "Cached:"@ != "Writeback:"@,
        "Cached:"@ != "SwapTotal:"@,
        "Cached:"@ != "SwapFree:"@,
        "Dirty:"@ != "Writeback:"@,
        "Dirty:"@ != "SwapTotal:"@,
        "Dirty:"@ != "SwapFree:"@,
        "Writeback:"@ != "SwapTotal:"@,
        "Writeback:"@ != "SwapFree:"@,
        "SwapTotal:"@ != "SwapFree:"@,
{
    reveal_strlit("MemTotal:");
    reveal_strlit("MemFree:");
    reveal_strlit("MemAvailable:");
    reveal_strlit("Buffers:");
    reveal_strlit("Cached:");
    reveal_strlit("Dirty:");
    reveal_strlit("Writeback:");
    reveal_strlit("SwapTotal:");
    reveal_strlit("SwapFree:");
    assert("MemTotal:"@.len() == 9);
    assert("MemFree:"@.len() == 8);
    assert("MemAvailable:"@.len() == 13);
    assert("Buffers:"@.len() == 8);
    assert("Cached:"@.len() == 7);
    assert("Dirty:"@.len() == 6);
    assert("Writeback:"@.len() == 10);
    assert("SwapTotal:"@.len() == 10);
    assert("SwapFree:"@.len() == 9);
    assert("MemFree:"@[0] == 'M');
    assert("Buffers:"@[0] == 'B');
    assert("MemTotal:"@[0] == 'M');
    assert("SwapFree:"@[0] == 'S');
    assert("Writeback:"@[0] == 'W');
    assert("SwapTotal:"@[0] == 'S');
}

/// The value of the last line whose three tokens open with `key`: how one
/// field of the memory table is read; a missing key gives 0.
pub open spec fn meminfo_value(lines: Seq<Seq<char>>, key: Seq<char>) -> u64
    decreases lines.len(),
{
    if lines.len() == 0 {
        0u64
    } else {
        let toks = spec_tokens(lines.last());
        if toks.len() == 3 && toks[0] == key {
            field_val(toks[1])
        } else {
            meminfo_value(lines.drop_last(), key)
        }
    }
}

/// The memory statistics the memory-table lines give: raw kilobyte
/// counters, used = total − available (0 when available exceeds total),
/// and usage fractions in basis points.
pub open spec fn spec_memory_stats(lines: Seq<Seq<char>>) -> crate::sysinfo::SystemMemoryStat {
    let total = meminfo_value(lines, "MemTotal:"@);
    let free = meminfo_value(lines, "MemFree:"@);
    let available = meminfo_value(lines, "MemAvailable:"@);
    let buffers = meminfo_value(lines, "Buffers:"@);
    let cache = meminfo_value(lines, "Cached:"@);
    let dirty = meminfo_value(lines, "Dirty:"@);
    let writeback = meminfo_value(lines, "Writeback:"@);
    let swap_total = meminfo_value(lines, "SwapTotal:"@);
    let swap_free = meminfo_value(lines, "SwapFree:"@);
    let used = if available <= total {
        (total - available) as u64
    } else {
        0u64
    };
    let swap_used = if swap_free <= swap_total {
        (swap_total - swap_free) as u64
    } else {
        0u64
    };
    crate::sysinfo::SystemMemoryStat {
        total,
        used,
        free,
        cache,
        buffers,
        dirty,
        writeback,
        usage: spec_usage_bp(used, total),
        swap_total,
        swap_used,
        swap_usage: spec_usage_bp(swap_used, swap_total),
    }
}

/// Parses the lines of the kernel's memory table into memory statistics.
/// A value that does not parse counts as 0; a missing key counts as 0.
#[verifier::rlimit(60)]
pub fn parse_memory_stats(lines: &Vec<String>) -> (r: crate::sysinfo::SystemMemoryStat)
    ensures
        r == spec_memory_stats(lines.deep_view()),
{
    let key_total = crate::strings::chars_vec("MemTotal:");
    let key_free = crate::strings::chars_vec("MemFree:");
    let key_available = crate::strings::chars_vec("MemAvailable:");
    let key_buffers = crate::strings::chars_vec("Buffers:");
    let key_cached = crate::strings::chars_vec("Cached:");
    let key_dirty = crate::strings::chars_vec("Dirty:");
    let key_writeback = crate::strings::chars_vec("Writeback:");
    let key_swap_total = crate::strings::chars_vec("SwapTotal:");
    let key_swap_free = crate::strings::chars_vec("SwapFree:");
    proof {
        reveal_strlit("MemTotal:");
        reveal_strlit("MemFree:");
        reveal_strlit("MemAvailable:");
        reveal_strlit("Buffers:");
        reveal_strlit("Cached:");
        reveal_strlit("Dirty:");
        reveal_strlit("Writeback:");
        reveal_strlit("SwapTotal:");
        reveal_strlit("SwapFree:");
    }
    let ghost dv = lines.deep_view();
    let mut total: u64 = 0;
    let mut free: u64 = 0;
    let mut available: u64 = 0;
    let mut buffers: u64 = 0;
    let mut cache: u64 = 0;
    let mut dirty: u64 = 0;
    let mut writeback: u64 = 0;
    let mut swap_total: u64 = 0;
    let mut swap_free: u64 = 0;
    let mut i: usize = 0;
    proof {
        assert(dv.take(0) =~= Seq::<Seq<char>>::empty());
    }
    while i < lines.len()
        invariant
            dv == lines.deep_view(),
            i <= lines@.len(),
            dv.len() == lines@.len(),
            key_total@ == "MemTotal:"@,
            key_free@ == "MemFree:"@,
            key_available@ == "MemAvailable:"@,
            key_buffers@ == "Buffers:"@,
            key_cached@ == "Cached:"@,
            key_dirty@ == "Dirty:"@,
            key_writeback@ == "Writeback:"@,
            key_swap_total@ == "SwapTotal:"@,
            key_swap_free@ == "SwapFree:"@,
            total == meminfo_value(dv.take(i as int), "MemTotal:"@),
            free == meminfo_value(dv.take(i as int), "MemFree:"@),
            available == meminfo_value(dv.take(i as int), "MemAvailable:"@),
            buffers == meminfo_value(dv.take(i as int), "Buffers:"@),
            cache == meminfo_value(dv.take(i as int), "Cached:"@),
            dirty == meminfo_value(dv.take(i as int), "Dirty:"@),
            writeback == meminfo_value(dv.take(i as int), "Writeback:"@),
            swap_total == meminfo_value(dv.take(i as int), "SwapTotal:"@),
            swap_free == meminfo_value(dv.take(i as int), "SwapFree:"@),
        decreases lines@.len() - i,
    {
        let words = crate::strings::split_words(lines[i].as_str());
        proof {
            lemma_meminfo_keys_distinct();
            assert(dv[i as int] == lines@[i as int]@);
            assert(dv.take(i + 1).drop_last() =~= dv.take(i as int));
            assert(dv.take(i + 1).last() == dv[i as int]);
        }
        if words.len() == 3 {
            let key = crate::strings::chars_vec(words[0].as_str());
            proof {
                assert(key@ == words.deep_view()[0]);
            }
            let value_chars = crate::strings::chars_vec(words[1].as_str());
            proof {
                assert(value_chars@ == words.deep_view()[1]);
            }
            let value = parse_field(&value_chars);
            if chars_eq(&key, &key_total) {
                total = value;
            } else if chars_eq(&key, &key_free) {
                free = value;
            } else if chars_eq(&key, &key_available) {
                available = value;
            } else if chars_eq(&key, &key_buffers) {
                buffers = value;
            } else if chars_eq(&key, &key_cached) {
                cache = value;
            } else if chars_eq(&key, &key_dirty) {
                dirty = value;
            } else if chars_eq(&key, &key_writeback) {
                writeback = value;
            } else if chars_eq(&key, &key_swap_total) {
                swap_total = value;
            } else if chars_eq(&key, &key_swap_free) {
                swap_free = value;
            }
        }
        i += 1;
    }
    proof {
        assert(dv.take(lines@.len() as int) =~= dv);
    }
    let used = if available <= total {
        total - available
    } else {
        0
    };
    let swap_used = if swap_free <= swap_total {
        swap_total - swap_free
    } else {
        0
    };
    let usage = usage_bp(used, total);
    let swap_usage = usage_bp(swap_used, swap_total);
    crate::sysinfo::SystemMemoryStat {
        total,
        used,
        free,
        cache,
        buffers,
        dirty,
        writeback,
        usage,
        swap_total,
        swap_used,
        swap_usage,
    }
}

/// The reading-time total the disk-counter lines give: the seventh token
/// of every line with at least eleven tokens, summed.
pub open spec fn disk_read_sum(lines: Seq<Seq<char>>) -> int
    decreases lines.len(),
{
    if lines.len() == 0 {
        0
    } else {
        let toks = spec_tokens(lines.last());
        disk_read_sum(lines.drop_last()) + if toks.len() >= 11 {
            field_val(toks[6]) as int
        } else {
            0
        }
    }
}

/// The writing-time total the disk-counter lines give: the eleventh token
/// of every line with at least eleven tokens, summed.
pub open spec fn disk_write_sum(lines: Seq<Seq<char>>) -> int
    decreases lines.len(),
{
    if lines.len() == 0 {
        0
    } else {
        let toks = spec_tokens(lines.last());
        disk_write_sum(lines.drop_last()) + if toks.len() >= 11 {
            field_val(toks[10]) as int
        } else {
            0
        }
    }
}

proof fn lemma_disk_sums_nonneg(lines: Seq<Seq<char>>)
    ensures
        disk_read_sum(lines) >= 0,
        disk_write_sum(lines) >= 0,
    decreases lines.len(),
{
    if lines.len() > 0 {
        lemma_disk_sums_nonneg(lines.drop_last());
    }
}

/// Parses the kernel's disk counter lines into cumulative read and write
/// times, summed over all devices and capped into the u64 range.
pub fn parse_disk_io_stats(lines: &Vec<String>) -> (r: crate::sysinfo::DiskIOStat)
    ensures
        r.time_reading_ms == sat64(disk_read_sum(lines.deep_view())),
        r.time_writing_ms == sat64(disk_write_sum(lines.deep_view())),
{
    let ghost dv = lines.deep_view();
    let mut reading: u64 = 0;
    let mut writing: u64 = 0;
    let mut i: usize = 0;
    proof {
        assert(dv.take(0) =~= Seq::<Seq<char>>::empty());
    }
    while i < lines.len()
        invariant
            dv == lines.deep_view(),
            i <= lines@.len(),
            dv.len() == lines@.len(),
            reading == sat64(disk_read_sum(dv.take(i as int))),
            writing == sat64(disk_write_sum(dv.take(i as int))),
        decreases lines@.len() - i,
    {
        let words = crate::strings::split_words(lines[i].as_str());
        proof {
            assert(dv[i as int] == lines@[i as int]@);
            assert(dv.take(i + 1).drop_last() =~= dv.take(i as int));
            assert(dv.take(i + 1).last() == dv[i as int]);
            lemma_disk_sums_nonneg(dv.take(i as int));
        }
        if words.len() >= 11 {
            let rc = crate::strings::chars_vec(words[6].as_str());
            let wc = crate::strings::chars_vec(words[10].as_str());
            proof {
                assert(rc@ == words.deep_view()[6]);
                assert(wc@ == words.deep_view()[10]);
            }
            reading = crate::sysinfo::sat_add(reading, parse_field(&rc));
            writing = crate::sysinfo::sat_add(writing, parse_field(&wc));
        }
        i += 1;
    }
    proof {
        assert(dv.take(lines@.len() as int) =~= dv);
    }
    crate::sysinfo::DiskIOStat { time_reading_ms: reading, time_writing_ms: writing }
}

/// The busy and total tick counters the first line of the kernel's CPU
/// table gives: present only when the line opens with a `cpu` token and
/// has at least eleven fields. The total sums all ten counters; the busy
/// part leaves the idle and I/O-wait ticks out. Sums are capped into the
/// u64 range.
pub open spec fn spec_cpu_counters(line: Seq<char>) -> Option<(u64, u64)> {
    let toks = spec_tokens(line);
    if toks.len() < 11 || !crate::sysinfo::spec_starts_with(toks[0], "cpu"@) {
        Option::None
    } else {
        let user = field_val(toks[1]) as int;
        let nice = field_val(toks[2]) as int;
        let system = field_val(toks[3]) as int;
        let idle = field_val(toks[4]) as int;
        let iowait = field_val(toks[5]) as int;
        let irq = field_val(toks[6]) as int;
        let softirq = field_val(toks[7]) as int;
        let steal = field_val(toks[8]) as int;
        let guest = field_val(toks[9]) as int;
        let guest_nice = field_val(toks[10]) as int;
        let busy = user + nice + system + irq + softirq + steal + guest + guest_nice;
        let total = busy + idle + iowait;
        Option::Some((sat64(busy), sat64(total)))
    }
}

/// Parses the first line of the kernel's CPU table into busy and total
/// tick counters.
pub fn parse_cpu_counters(line: &str) -> (r: Option<(u64, u64)>)
    ensures
        r == spec_cpu_counters(line@),
{
    let words = crate::strings::split_words(line);
    if words.len() < 11 {
        return None;
    }
    let head = crate::strings::chars_vec(words[0].as_str());
    let cpu_prefix = crate::strings::chars_vec("cpu");
    proof {
        assert(head@ == words.deep_view()[0]);
    }
    if !crate::sysinfo::starts_with_chars(&head, &cpu_prefix) {
        return None;
    }
    let mut vals: Vec<u64> = Vec::new();
    let mut i: usize = 1;
    while i < 11
        invariant
            words.deep_view() == spec_tokens(line@),
            words.deep_view().len() >= 11,
            1 <= i <= 11,
            vals@.len() == i - 1,
            forall|k: int| 0 <= k < i - 1 ==> vals@[k] == field_val(words.deep_view()[k + 1]),
        decreases 11 - i,
    {
        let c = crate::strings::chars_vec(words[i].as_str());
        proof {
            assert(c@ == words.deep_view()[i as int]);
        }
        vals.push(parse_field(&c));
        i += 1;
    }
    let busy = crate::sysinfo::sat_add(
        crate::sysinfo::sat_add(
            crate::sysinfo::sat_add(vals[0], vals[1]),
            crate::sysinfo::sat_add(vals[2], vals[5]),
        ),
        crate::sysinfo::sat_add(
            crate::sysinfo::sat_add(vals[6], vals[7]),
            crate::sysinfo::sat_add(vals[8], vals[9]),
        ),
    );
    let total = crate::sysinfo::sat_add(busy, crate::sysinfo::sat_add(vals[3], vals[4]));
    Some((busy, total))
}

/// The cumulative CPU ticks one line of a process's stat reading gives:
/// the fourteenth and fifteenth fields summed, present only when the line
/// has at least fifteen fields.
pub open spec fn spec_process_cpu_ticks(line: Seq<char>) -> Option<u64> {
    let toks = spec_tokens(line);
    if toks.len() < 15 {
        Option::None
    } else {
        Option::Some(sat64(field_val(toks[13]) + field_val(toks[14])))
    }
}

/// Parses a process's stat line into its cumulative CPU ticks, user and
/// system time together.
pub fn parse_process_cpu_time(line: &str) -> (r: Option<u64>)
    ensures
        r == spec_process_cpu_ticks(line@),
{
    let words = crate::strings::split_words(line);
    if words.len() < 15 {
        return None;
    }
    let u = crate::strings::chars_vec(words[13].as_str());
    let s = crate::strings::chars_vec(words[14].as_str());
    proof {
        assert(u@ == words.deep_view()[13]);
        assert(s@ == words.deep_view()[14]);
    }
    Some(crate::sysinfo::sat_add(parse_field(&u), parse_field(&s)))
}

/// Ten to the `k`.
pub open spec fn pow10(k: nat) -> int
    decreases k,
{
    if k == 0 {
        1
    } else {
        10 * pow10((k - 1) as nat)
    }
}

proof fn lemma_pow10_pos(k: nat)
    ensures
        pow10(k) >= 1,
    decreases k,
{
    if k > 0 {
        lemma_pow10_pos((k - 1) as nat);
    }
}

/// The length of the leading run of characters other than a dot.
pub open spec fn dot_run_len(s: Seq<char>) -> nat
    decreases s.len(),
{
    if s.len() == 0 {
        0
    } else if s[0] == '.' {
        0
    } else {
        1 + dot_run_len(s.drop_first())
    }
}

proof fn lemma_dot_run_len_is(s: Seq<char>, m: int)
    requires
        0 <= m <= s.len(),
        forall|k: int| 0 <= k < m ==> #[trigger] s[k] != '.',
        m < s.len() ==> s[m] == '.',
    ensures
        dot_run_len(s) == m,
    decreases s.len(),
{
    if m == 0 {
    } else {
        assert forall|k: int| 0 <= k < m - 1 implies #[trigger] s.drop_first()[k] != '.' by {
            assert(s.drop_first()[k] == s[k + 1]);
        }
        if m - 1 < s.drop_first().len() {
            assert(s.drop_first()[m - 1] == s[m]);
        }
        lemma_dot_run_len_is(s.drop_first(), m - 1);
    }
}

/// A non-negative decimal with an optional fractional part, read in basis
/// points: the digits before the first dot scaled by 10000, plus the
/// first four fractional digits; deeper digits are cut off. Anything else
/// reads as 0, and the result is capped into the u64 range.
pub open spec fn spec_decimal_bp(s: Seq<char>) -> u64 {
    let d = dot_run_len(s) as int;
    let ip = s.take(d);
    let fp = if d < s.len() {
        s.skip(d + 1)
    } else {
        Seq::<char>::empty()
    };
    if all_digits(ip) && (fp.len() == 0 || all_digits(fp)) {
        let f4 = if fp.len() <= 4 {
            fp
        } else {
            fp.take(4)
        };
        sat64(digits_val(ip) * 10000 + digits_val(f4) * pow10((4 - f4.len()) as nat))
    } else {
        0u64
    }
}

/// Parses a non-negative decimal such as `0.52` into basis points.
pub fn parse_decimal_bp(v: &Vec<char>) -> (r: u64)
    ensures
        r == spec_decimal_bp(v@),
{
    let n = v.len();
    let mut d: usize = 0;
    while d < n && v[d] != '.'
        invariant
            n == v@.len(),
            d <= n,
            forall|k: int| 0 <= k < d ==> #[trigger] v@[k] != '.',
        decreases n - d,
    {
        d += 1;
    }
    proof {
        lemma_dot_run_len_is(v@, d as int);
    }
    let mut ip: Vec<char> = Vec::new();
    let mut i: usize = 0;
    while i < d
        invariant
            d <= v@.len(),
            i <= d,
            ip@ == v@.take(d as int).take(i as int),
        decreases d - i,
    {
        ip.push(v[i]);
        i += 1;
        proof {
            assert(ip@ =~= v@.take(d as int).take(i as int));
        }
    }
    proof {
        assert(ip@ =~= v@.take(d as int));
    }
    let mut fp: Vec<char> = Vec::new();
    if d < n {
        let mut j: usize = d + 1;
        while j < n
            invariant
                d + 1 <= j <= n,
                n == v@.len(),
                fp@ == v@.skip(d + 1).take(j - d - 1),
            decreases n - j,
        {
            fp.push(v[j]);
            j += 1;
            proof {
                assert(fp@ =~= v@.skip(d + 1).take(j - d - 1));
            }
        }
        proof {
            assert(fp@ =~= v@.skip(d + 1));
        }
    }
    proof {
        if d == n {
            assert(fp@ =~= Seq::<char>::empty());
        }
    }
    let mut all_int_digits = ip.len() > 0;
    let mut q: usize = 0;
    while q < ip.len()
        invariant
            q <= ip@.len(),
            all_int_digits == (ip@.len() > 0 && forall|t: int|
                0 <= t < q ==> is_digit(#[trigger] ip@[t])),
        decreases ip@.len() - q,
    {
        let c = ip[q];
        if !('0' <= c && c <= '9') {
            all_int_digits = false;
        }
        q += 1;
    }
    if !all_int_digits {
        proof {
            assert(!all_digits(ip@));
        }
        return 0;
    }
    let mut all_frac_digits = true;
    let mut k: usize = 0;
    while k < fp.len()
        invariant
            k <= fp@.len(),
            all_frac_digits == (forall|t: int| 0 <= t < k ==> is_digit(#[trigger] fp@[t])),
        decreases fp@.len() - k,
    {
        let c = fp[k];
        if !('0' <= c && c <= '9') {
            all_frac_digits = false;
        }
        k += 1;
    }
    if !(fp.len() == 0 || all_frac_digits) {
        return 0;
    }
    let f4_len: usize = if fp.len() <= 4 {
        fp.len()
    } else {
        4
    };
    let mut f4: Vec<char> = Vec::new();
    let mut t: usize = 0;
    while t < f4_len
        invariant
            f4_len <= fp@.len(),
            t <= f4_len,
            f4@ == fp@.take(f4_len as int).take(t as int),
        decreases f4_len - t,
    {
        f4.push(fp[t]);
        t += 1;
        proof {
            assert(f4@ =~= fp@.take(f4_len as int).take(t as int));
        }
    }
    proof {
        assert(f4@ =~= fp@.take(f4_len as int));
        if fp@.len() <= 4 {
            assert(f4@ =~= fp@);
        }
        assert(forall|t2: int| 0 <= t2 < f4@.len() ==> is_digit(#[trigger] f4@[t2]));
        lemma_digits_val_bound(f4@);
        assert(pow10(0) == 1);
        assert(pow10(1) == 10);
        assert(pow10(2) == 100);
        assert(pow10(3) == 1000);
        assert(pow10(4) == 10000);
        assert(digits_val(f4@) < 10000) by {
            if f4@.len() == 0 {
            } else if f4@.len() == 1 {
            } else if f4@.len() == 2 {
            } else if f4@.len() == 3 {
            } else {
                assert(f4@.len() == 4);
            }
        }
        lemma_digits_val_nonneg(f4@);
    }
    let f4_val = match parse_u64(&f4) {
        Option::Some(x) => x,
        Option::None => 0,
    };
    let scale: u64 = if f4_len == 0 {
        10000
    } else if f4_len == 1 {
        1000
    } else if f4_len == 2 {
        100
    } else if f4_len == 3 {
        10
    } else {
        1
    };
    proof {
        assert(scale == pow10((4 - f4_len) as nat));
    }
    proof {
        assert(f4_val <= 9999);
        assert(scale <= 10000);
    }
    let frac = f4_val * scale;
    proof {
        if f4_len == 0 {
            assert(digits_val(f4@) == 0);
        }
        assert(frac == digits_val(f4@) * pow10((4 - f4@.len()) as nat));
    }
    let ip_val = match parse_u64(&ip) {
        Option::Some(x) => x,
        Option::None => {
            proof {
                assert(all_digits(ip@));
                assert(digits_val(ip@) > u64::MAX);
                assert(digits_val(ip@) * 10000 > u64::MAX) by (nonlinear_arith)
                    requires
                        digits_val(ip@) > u64::MAX,
                ;
            }
            return u64::MAX;
        },
    };
    let wide = (ip_val as u128) * 10000 + (frac as u128);
    if wide > u64::MAX as u128 {
        u64::MAX
    } else {
        wide as u64
    }
}

proof fn lemma_digits_val_bound(s: Seq<char>)
    requires
        forall|i: int| 0 <= i < s.len() ==> is_digit(#[trigger] s[i]),
    ensures
        0 <= digits_val(s) < pow10(s.len()),
    decreases s.len(),
{
    if s.len() == 0 {
    } else {
        assert(forall|i: int|
            0 <= i < s.drop_last().len() ==> is_digit(#[trigger] s.drop_last()[i]));
        lemma_digits_val_bound(s.drop_last());
        assert(is_digit(s[s.len() - 1]));
        assert(digit_val(s.last()) <= 9);
        assert(pow10(s.len()) == 10 * pow10((s.len() - 1) as nat));
    }
}

/// The load averages a loadavg line gives, scaled down by the core count:
/// present only when the line has at least three fields. Each field is a
/// decimal read in basis points; a zero core count counts as one core.
pub open spec fn spec_load_avg(line: Seq<char>, cpu_num: int) -> Option<
    crate::sysinfo::CpuLoadAvg,
> {
    let toks = spec_tokens(line);
    let cores = if cpu_num <= 0 {
        1
    } else {
        cpu_num
    };
    if toks.len() < 3 {
        Option::None
    } else {
        Option::Some(
            crate::sysinfo::CpuLoadAvg {
                load_1m: (spec_decimal_bp(toks[0]) as int / cores) as u64,
                load_5m: (spec_decimal_bp(toks[1]) as int / cores) as u64,
                load_15m: (spec_decimal_bp(toks[2]) as int / cores) as u64,
            },
        )
    }
}

/// Parses a loadavg line into per-core load averages in basis points.
pub fn parse_load_avg(line: &str, cpu_num: usize) -> (r: Option<crate::sysinfo::CpuLoadAvg>)
    ensures
        r == spec_load_avg(line@, cpu_num as int),
{
    let words = crate::strings::split_words(line);
    if words.len() < 3 {
        return None;
    }
    let cores: u64 = if cpu_num == 0 {
        1
    } else {
        cpu_num as u64
    };
    let c1 = crate::strings::chars_vec(words[0].as_str());
    let c5 = crate::strings::chars_vec(words[1].as_str());
    let c15 = crate::strings::chars_vec(words[2].as_str());
    proof {
        assert(c1@ == words.deep_view()[0]);
        assert(c5@ == words.deep_view()[1]);
        assert(c15@ == words.deep_view()[2]);
    }
    Some(
        crate::sysinfo::CpuLoadAvg {
            load_1m: parse_decimal_bp(&c1) / cores,
            load_5m: parse_decimal_bp(&c5) / cores,
            load_15m: parse_decimal_bp(&c15) / cores,
        },
    )
}

} // verus!
