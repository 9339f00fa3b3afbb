//! The filter/sort engine and the interaction logic of the dashboard:
//! free-text filtering, the total sort orders with their pid tie-break,
//! cursor movement, and the handling of confirmed actions.

use vstd::prelude::*;
use vstd::string::StringExecFns;

use crate::app::App;
use crate::appdata::{Effect, Ordering, WindowFocus};
use crate::strings::lower_of;
use crate::sysinfo::{views_of, ProcFlatV, ProcV, ProcessStat, SystemProcStats};

verus! {

/// The key the filter matches against: the pid, one space, the display
/// name.
pub open spec fn spec_search_name(f: ProcFlatV) -> Seq<char> {
    f.pid + seq![' '] + f.display_name
}

/// Whether one process entry passes the filter: every token occurs in its
/// lowercased search key. An empty token list passes everything.
pub open spec fn spec_matches(p: ProcV, toks: Seq<Seq<char>>) -> bool {
    crate::strings::spec_contains_all(lower_of(spec_search_name(p.flat)), toks)
}

/// The entries that pass the filter, in order.
pub open spec fn select_matching(s: Seq<ProcV>, toks: Seq<Seq<char>>) -> Seq<ProcV>
    decreases s.len(),
{
    if s.len() == 0 {
        Seq::empty()
    } else if spec_matches(s[0], toks) {
        seq![s[0]] + select_matching(s.drop_first(), toks)
    } else {
        select_matching(s.drop_first(), toks)
    }
}

proof fn lemma_select_matching_push(s: Seq<ProcV>, toks: Seq<Seq<char>>, x: ProcV)
    ensures
        select_matching(s.push(x), toks) == if spec_matches(x, toks) {
            select_matching(s, toks).push(x)
        } else {
            select_matching(s, toks)
        },
    decreases s.len(),
{
    if s.len() == 0 {
        assert(s.push(x).drop_first() =~= s);
        if spec_matches(x, toks) {
            assert(select_matching(s.push(x), toks) =~= select_matching(s, toks).push(x));
        }
    } else {
        assert(s.push(x)[0] == s[0]);
        assert(s.push(x).drop_first() =~= s.drop_first().push(x));
        lemma_select_matching_push(s.drop_first(), toks, x);
        if spec_matches(s[0], toks) && spec_matches(x, toks) {
            assert(select_matching(s.push(x), toks) =~= select_matching(s, toks).push(x));
        }
    }
}

/// Membership in the filtered list: an entry is kept exactly when it was
/// present and passes the filter.
pub proof fn lemma_select_matching_contains(s: Seq<ProcV>, toks: Seq<Seq<char>>, p: ProcV)
    ensures
        select_matching(s, toks).contains(p) <==> (s.contains(p) && spec_matches(p, toks)),
    decreases s.len(),
{
    if s.len() > 0 {
        lemma_select_matching_contains(s.drop_first(), toks, p);
        assert(s.contains(p) <==> (s[0] == p || s.drop_first().contains(p))) by {
            if s.contains(p) {
                let i = choose|i: int| 0 <= i < s.len() && s[i] == p;
                if i > 0 {
                    assert(s.drop_first()[i - 1] == p);
                }
            }
            if s.drop_first().contains(p) {
                let i = choose|i: int| 0 <= i < s.drop_first().len() && s.drop_first()[i] == p;
                assert(s[i + 1] == p);
            }
        }
        if spec_matches(s[0], toks) {
            let t = select_matching(s, toks);
            let rest = select_matching(s.drop_first(), toks);
            assert(t == seq![s[0]] + rest);
            assert(t.contains(p) <==> (s[0] == p || rest.contains(p))) by {
                if t.contains(p) {
                    let i = choose|i: int| 0 <= i < t.len() && t[i] == p;
                    if i > 0 {
                        assert(rest[i - 1] == p);
                    }
                }
                if rest.contains(p) {
                    let i = choose|i: int| 0 <= i < rest.len() && rest[i] == p;
                    assert(t[i + 1] == p);
                }
                if s[0] == p {
                    assert(t[0] == p);
                }
            }
        }
    }
}

/// The order the active sort mode puts two entries in: `a` may stand
/// before `b`. ByUptime orders by ascending uptime, ByMemory by
/// descending memory share, ByCpu by descending CPU usage; every tie
/// falls back to descending pid, so equal-metric entries never reorder
/// between polls.
pub open spec fn proc_le(ord: Ordering, a: ProcFlatV, b: ProcFlatV) -> bool {
    match ord {
        Ordering::ByUptime => a.run_time < b.run_time || (a.run_time == b.run_time && a.pid_num
            >= b.pid_num),
        Ordering::ByMemory => a.memory_usage > b.memory_usage || (a.memory_usage == b.memory_usage
            && a.pid_num >= b.pid_num),
        Ordering::ByCpu => a.cpu_usage > b.cpu_usage || (a.cpu_usage == b.cpu_usage && a.pid_num
            >= b.pid_num),
    }
}

/// The sort order is total: of any two entries, one may stand before the
/// other; and it is transitive.
pub proof fn lemma_proc_le_total_trans(ord: Ordering)
    ensures
        forall|a: ProcFlatV, b: ProcFlatV| #[trigger] proc_le(ord, a, b) || #[trigger] proc_le(ord, b, a),
        forall|a: ProcFlatV, b: ProcFlatV, c: ProcFlatV|
            #[trigger] proc_le(ord, a, b) && #[trigger] proc_le(ord, b, c) ==> proc_le(ord, a, c),
{
}

/// Sortedness: every earlier entry may stand before every later one.
pub open spec fn spec_sorted(ord: Ordering, s: Seq<ProcV>) -> bool {
    forall|i: int, j: int| 0 <= i < j < s.len() ==> proc_le(ord, (#[trigger] s[i]).flat, (#[trigger] s[j]).flat)
}

/// Whether `a` may stand before `b` under the active sort order.
pub fn proc_before(ord: Ordering, a: &ProcessStat, b: &ProcessStat) -> (r: bool)
    ensures
        r == proc_le(ord, a@.flat, b@.flat),
{
    match ord {
        Ordering::ByUptime => a.run_time < b.run_time || (a.run_time == b.run_time && a.pid_num
            >= b.pid_num),
        Ordering::ByMemory => a.memory_usage > b.memory_usage || (a.memory_usage == b.memory_usage
            && a.pid_num >= b.pid_num),
        Ordering::ByCpu => a.cpu_usage > b.cpu_usage || (a.cpu_usage == b.cpu_usage && a.pid_num
            >= b.pid_num),
    }
}

/// Sorts the entries by the active order. The result is sorted, holds
/// exactly the input entries, and an input that is already sorted comes
/// back unchanged, so sorting twice equals sorting once.
pub fn sort_processes(ord: Ordering, v: Vec<ProcessStat>) -> (r: Vec<ProcessStat>)
    ensures
        spec_sorted(ord, views_of(r@)),
        views_of(r@).to_multiset() == views_of(v@).to_multiset(),
        spec_sorted(ord, views_of(v@)) ==> views_of(r@) == views_of(v@),
{
    let n = v.len();
    let mut adjacent_sorted = true;
    let mut c: usize = 1;
    while c < n
        invariant
            n == v@.len(),
            1 <= c,
            c <= n || (n == 0 && c == 1),
            adjacent_sorted == (forall|i: int|
                0 < i < c ==> proc_le(
                    ord,
                    (#[trigger] views_of(v@)[i - 1]).flat,
                    views_of(v@)[i].flat,
                )),
        decreases n - c,
    {
        proof {
            assert(views_of(v@)[c - 1] == v@[c - 1]@);
            assert(views_of(v@)[c as int] == v@[c as int]@);
        }
        if !proc_before(ord, &v[c - 1], &v[c]) {
            adjacent_sorted = false;
        }
        c += 1;
    }
    if adjacent_sorted {
        proof {
            let vs = views_of(v@);
            assert forall|i: int, j: int| 0 <= i < j < vs.len() implies proc_le(
                ord,
                vs[i].flat,
                vs[j].flat,
            ) by {
                lemma_adjacent_sorted_implies_pairwise(ord, vs, i, j);
            }
        }
        return v;
    }
    let mut w = v;
    let ghost input_views = views_of(w@);
    let mut i: usize = 1;
    while i < n
        invariant
            n == w@.len(),
            1 <= i,
            i <= n || (n == 0 && i == 1),
            views_of(w@).to_multiset() == input_views.to_multiset(),
            spec_sorted(ord, views_of(w@).take(i as int)),
        decreases n - i,
    {
        let ghost before = w@;
        let x = w.remove(i);
        proof {
            assert(views_of(w@) =~= views_of(before).remove(i as int)) by {
                assert forall|k: int| 0 <= k < views_of(w@).len() implies views_of(w@)[k]
                    == views_of(before).remove(i as int)[k] by {
                    if k < i {
                        assert(w@[k] == before[k]);
                    } else {
                        assert(w@[k] == before[k + 1]);
                    }
                }
            }
            assert(views_of(w@).take(i as int) =~= views_of(before).take(i as int));
        }
        let mut pos: usize = 0;
        while pos < i && proc_before(ord, &w[pos], &x)
            invariant
                i < n,
                n - 1 == w@.len(),
                pos <= i,
                x@ == views_of(before)[i as int],
                w@ =~= before.remove(i as int),
                spec_sorted(ord, views_of(w@).take(i as int)),
                forall|k: int| 0 <= k < pos ==> proc_le(ord, (#[trigger] views_of(w@)[k]).flat, x@.flat),
            decreases i - pos,
        {
            pos += 1;
        }
        proof {
            lemma_proc_le_total_trans(ord);
        }
        let ghost mid = w@;
        w.insert(pos, x);
        proof {
            let vs_mid = views_of(mid);
            let vs_new = views_of(w@);
            assert(vs_new =~= vs_mid.insert(pos as int, x@)) by {
                assert forall|k: int| 0 <= k < vs_new.len() implies vs_new[k] == vs_mid.insert(
                    pos as int,
                    x@,
                )[k] by {
                    if k < pos {
                        assert(w@[k] == mid[k]);
                    } else if k == pos {
                        assert(w@[k] == x);
                    } else {
                        assert(w@[k] == mid[k - 1]);
                    }
                }
            }
            lemma_to_multiset_insert(vs_mid, pos as int, x@);
            assert(views_of(before)[i as int] == views_of(before)[i as int]);
            broadcast use vstd::seq_lib::group_to_multiset_ensures;

            assert(vs_mid.to_multiset() == views_of(before).to_multiset().remove(x@));
            assert(views_of(before).contains(x@)) by {
                assert(views_of(before)[i as int] == x@);
            }
            assert(views_of(before).to_multiset().count(x@) > 0);
            assert(vs_new.to_multiset() =~= views_of(before).to_multiset());

            // the prefix of length i + 1 is sorted after the insertion
            assert forall|a: int, b: int| 0 <= a < b < i + 1 implies proc_le(
                ord,
                (#[trigger] vs_new[a]).flat,
                (#[trigger] vs_new[b]).flat,
            ) by {
                if b < pos {
                    assert(vs_new[a] == vs_mid[a] && vs_new[b] == vs_mid[b]);
                } else if b == pos {
                    assert(vs_new[b] == x@);
                    assert(proc_le(ord, vs_mid[a].flat, x@.flat));
                } else {
                    // b > pos
                    assert(vs_new[b] == vs_mid[b - 1]);
                    assert(proc_le(ord, x@.flat, vs_mid[pos as int].flat) || pos == i) by {
                        if (pos as int) < i {
                            assert(!proc_le(ord, vs_mid[pos as int].flat, x@.flat)
                                || proc_le(ord, x@.flat, vs_mid[pos as int].flat));
                        }
                    }
                    if a == pos {
                        assert(vs_new[a] == x@);
                        if b - 1 == pos {
                            assert(proc_le(ord, x@.flat, vs_mid[pos as int].flat));
                        } else {
                            assert(proc_le(ord, vs_mid[pos as int].flat, vs_mid[b - 1].flat));
                            assert(proc_le(ord, x@.flat, vs_mid[pos as int].flat));
                        }
                    } else if a < pos {
                        assert(vs_new[a] == vs_mid[a]);
                        if b - 1 == a {
                            assert(proc_le(ord, vs_mid[a].flat, x@.flat));
                            assert(proc_le(ord, x@.flat, vs_new[b].flat));
                        } else {
                            assert(proc_le(ord, vs_mid[a].flat, vs_mid[b - 1].flat));
                        }
                    } else {
                        // pos < a < b, both from mid shifted
                        assert(vs_new[a] == vs_mid[a - 1]);
                        assert(proc_le(ord, vs_mid[a - 1].flat, vs_mid[b - 1].flat));
                    }
                }
            }
            assert(spec_sorted(ord, views_of(w@).take(i + 1)));
        }
        i += 1;
    }
    proof {
        assert(views_of(w@).take(n as int) =~= views_of(w@));
        if n == 0 {
            assert(spec_sorted(ord, views_of(w@)));
        }
    }
    w
}

proof fn lemma_adjacent_sorted_implies_pairwise(ord: Ordering, s: Seq<ProcV>, i: int, j: int)
    requires
        forall|k: int| 0 < k < s.len() ==> proc_le(ord, (#[trigger] s[k - 1]).flat, s[k].flat),
        0 <= i < j < s.len(),
    ensures
        proc_le(ord, s[i].flat, s[j].flat),
    decreases j - i,
{
    lemma_proc_le_total_trans(ord);
    if j == i + 1 {
        assert(proc_le(ord, s[j - 1].flat, s[j].flat));
    } else {
        lemma_adjacent_sorted_implies_pairwise(ord, s, i, j - 1);
        assert(proc_le(ord, s[j - 1].flat, s[j].flat));
    }
}

/// The lowercased white-space tokens of a filter text.
pub open spec fn lower_tokens(ft: Seq<char>) -> Seq<Seq<char>> {
    crate::strings::spec_tokens(ft).map_values(|t: Seq<char>| lower_of(t))
}

/// The flat readings of full readings.
pub open spec fn flats_of(s: Seq<ProcV>) -> Seq<ProcFlatV> {
    s.map_values(|p: ProcV| p.flat)
}

/// A cursor after clamping into the list: inside `[0, len - 1]`, or 0
/// when the list is empty; never left dangling past the end.
pub open spec fn spec_clamp_cursor(x: int, len: nat) -> usize {
    if len == 0 {
        0
    } else if x < 0 {
        0
    } else if x >= len {
        (len - 1) as usize
    } else {
        x as usize
    }
}

/// An integer pressed into the usize range.
pub open spec fn spec_clamp_usize(x: int) -> usize {
    if x < 0 {
        0
    } else if x > usize::MAX {
        usize::MAX
    } else {
        x as usize
    }
}

/// An integer pressed into the non-negative i32 range.
pub open spec fn spec_clamp_scroll(x: int) -> i32 {
    if x < 0 {
        0
    } else if x > i32::MAX {
        i32::MAX as i32
    } else {
        x as i32
    }
}

/// The sort order after one forward switch.
pub open spec fn next_ordering(o: Ordering) -> Ordering {
    match o {
        Ordering::ByUptime => Ordering::ByMemory,
        Ordering::ByMemory => Ordering::ByCpu,
        Ordering::ByCpu => Ordering::ByUptime,
    }
}

/// How one cursor move changes the state: an open info popup steals the
/// movement for its own scroll; otherwise the cursor of the focused
/// window moves and is clamped into its list, and nothing else changes.
pub open spec fn cursor_moved(pre: App, post: App, delta: int) -> bool {
    if pre.info_message is Some {
        post == (App {
            info_message_scroll: spec_clamp_usize(pre.info_message_scroll + delta),
            ..pre
        })
    } else {
        match pre.window_focus {
            WindowFocus::Browse | WindowFocus::ProcessFilter => post == (App {
                process_cursor: spec_clamp_cursor(
                    pre.process_cursor + delta,
                    pre.filtered_processes@.len(),
                ),
                ..pre
            }),
            WindowFocus::SignalPick => post == (App {
                menu_action_cursor: spec_clamp_cursor(
                    pre.menu_action_cursor + delta,
                    pre.known_menu_actions@.len(),
                ),
                ..pre
            }),
            WindowFocus::SystemStats => post == (App {
                sysinfo_scroll: spec_clamp_scroll(pre.sysinfo_scroll + delta),
                ..pre
            }),
        }
    }
}

/// How a jump to an end changes the state: only an open info popup
/// reacts, scrolling by a whole popup height, clamped into the text.
pub open spec fn cursor_end_moved(pre: App, post: App, direction: int) -> bool {
    if pre.info_message is Some {
        let lines = match pre.info_lines_num {
            Option::Some(l) => l as int,
            Option::None => 0,
        };
        let target = pre.info_message_scroll + direction * lines;
        let capped = if target <= lines {
            target
        } else {
            lines
        };
        post == (App { info_message_scroll: spec_clamp_usize(capped), ..pre })
    } else {
        post == pre
    }
}

impl App {
    /// The entries the display pipeline owes: the processes that pass the
    /// filter, merged by executable path when grouping is on. Filtering
    /// comes first, grouping after, in that fixed order.
    pub open spec fn display_set(self) -> Seq<ProcV> {
        let toks = lower_tokens(self.filter_text@);
        let sel = select_matching(views_of(self.proc_stats.processes@), toks);
        if self.group_by_exe {
            crate::sysinfo::spec_group_by(flats_of(sel))
        } else {
            sel
        }
    }
}

/// How one pass of the display pipeline changes the state: the filtered
/// list holds exactly the owed entries, sorted by the active order, the
/// cursor is clamped into it, and nothing else changes.
pub open spec fn pipeline_rel(pre: App, post: App) -> bool {
    &&& post == (App {
        filtered_processes: post.filtered_processes,
        process_cursor: post.process_cursor,
        ..pre
    })
    &&& spec_sorted(pre.ordering, views_of(post.filtered_processes@))
    &&& views_of(post.filtered_processes@).to_multiset() == pre.display_set().to_multiset()
    &&& post.process_cursor == spec_clamp_cursor(
        pre.process_cursor as int,
        post.filtered_processes@.len(),
    )
}

impl App {
    /// Whether an error popup is open.
    pub fn has_error(&self) -> (r: bool)
        ensures
            r == (self.error_message is Some),
    {
        self.error_message.is_some()
    }

    /// Dismisses the error popup.
    pub fn clear_error(&mut self)
        ensures
            *final(self) == (App { error_message: Option::None, ..*old(self) }),
    {
        self.error_message = None;
    }

    /// Whether an info popup is open.
    pub fn has_info(&self) -> (r: bool)
        ensures
            r == (self.info_message is Some),
    {
        self.info_message.is_some()
    }

    /// Opens the info popup on the given text, scrolled to its top.
    pub fn show_info(&mut self, message: String)
        ensures
            *final(self) == (App {
                info_message: Option::Some(message),
                info_message_scroll: 0,
                ..*old(self)
            }),
    {
        self.info_message = Some(message);
        self.info_message_scroll = 0;
    }

    /// Dismisses the info popup.
    pub fn clear_info(&mut self)
        ensures
            *final(self) == (App { info_message: Option::None, ..*old(self) }),
    {
        self.info_message = None;
    }

    /// Moves the focused cursor by `delta` and clamps it into its list;
    /// an open info popup takes the movement for its own scroll.
    pub fn move_cursor(&mut self, delta: i32)
        requires
            old(self).wf(),
        ensures
            final(self).wf(),
            cursor_moved(*old(self), *final(self), delta as int),
    {
        if self.has_info() {
            let target = self.info_message_scroll as i128 + delta as i128;
            self.info_message_scroll = if target < 0 {
                0
            } else if target > usize::MAX as i128 {
                usize::MAX
            } else {
                target as usize
            };
            return ;
        }
        match self.window_focus {
            WindowFocus::Browse | WindowFocus::ProcessFilter => {
                let len = self.filtered_processes.len();
                let target = self.process_cursor as i128 + delta as i128;
                self.process_cursor = if len == 0 {
                    0
                } else if target < 0 {
                    0
                } else if target >= len as i128 {
                    len - 1
                } else {
                    target as usize
                };
            },
            WindowFocus::SignalPick => {
                let len = self.known_menu_actions.len();
                let target = self.menu_action_cursor as i128 + delta as i128;
                self.menu_action_cursor = if len == 0 {
                    0
                } else if target < 0 {
                    0
                } else if target >= len as i128 {
                    len - 1
                } else {
                    target as usize
                };
            },
            WindowFocus::SystemStats => {
                let target = self.sysinfo_scroll as i64 + delta as i64;
                self.sysinfo_scroll = if target < 0 {
                    0
                } else if target > i32::MAX as i64 {
                    i32::MAX
                } else {
                    target as i32
                };
            },
        }
    }

    /// Jumps an open info popup by a whole popup height in the given
    /// direction, clamped into the text; without a popup nothing moves.
    pub fn move_cursor_end(&mut self, direction: i32)
        requires
            old(self).wf(),
        ensures
            final(self).wf(),
            cursor_end_moved(*old(self), *final(self), direction as int),
    {
        if self.has_info() {
            let lines: usize = match self.info_lines_num {
                Option::Some(l) => l,
                Option::None => 0,
            };
            let d128 = direction as i128;
            let l128 = lines as i128;
            proof {
                assert(-0x8000_0000_0000_0000_0000_0000i128 <= d128 * l128
                    <= 0x8000_0000_0000_0000_0000_0000i128) by (nonlinear_arith)
                    requires
                        -0x8000_0000i128 <= d128 <= 0x7FFF_FFFFi128,
                        0 <= l128 <= 0xFFFF_FFFF_FFFF_FFFFi128,
                ;
            }
            let target = self.info_message_scroll as i128 + d128 * l128;
            let capped = if target <= lines as i128 {
                target
            } else {
                lines as i128
            };
            self.info_message_scroll = if capped < 0 {
                0
            } else {
                capped as usize
            };
        }
    }

    /// Scrolls the process table horizontally, never past its left edge.
    pub fn move_horizontal_scroll(&mut self, delta: i32)
        ensures
            *final(self) == (App {
                horizontal_scroll: spec_clamp_scroll(old(self).horizontal_scroll + delta),
                ..*old(self)
            }),
    {
        let target = self.horizontal_scroll as i64 + delta as i64;
        self.horizontal_scroll = if target < 0 {
            0
        } else if target > i32::MAX as i64 {
            i32::MAX
        } else {
            target as i32
        };
    }

    /// Recomputes the filtered, grouped and sorted view of the process
    /// list from the current snapshot, then clamps the cursor into it.
    pub fn filter_processes(&mut self)
        requires
            old(self).wf(),
        ensures
            final(self).wf(),
            pipeline_rel(*old(self), *final(self)),
    {
        let ghost ft = self.filter_text@;
        let ghost toks = lower_tokens(ft);
        let words = crate::strings::split_words(self.filter_text.as_str());
        let mut filter_words: Vec<String> = Vec::new();
        let mut k: usize = 0;
        while k < words.len()
            invariant
                *self == *old(self),
                words.deep_view() == crate::strings::spec_tokens(ft),
                words.deep_view().len() == words@.len(),
                toks == lower_tokens(ft),
                k <= words@.len(),
                filter_words@.len() == k,
                forall|j: int| 0 <= j < k ==> #[trigger] filter_words@[j]@ == toks[j],
            decreases words@.len() - k,
        {
            let lw = crate::strings::to_lowercase_str(words[k].as_str());
            filter_words.push(lw);
            proof {
                assert(words.deep_view()[k as int] == words@[k as int]@);
                assert(filter_words@[k as int]@ == lower_of(crate::strings::spec_tokens(ft)[k as int]));
            }
            k += 1;
        }
        proof {
            assert forall|j: int| 0 <= j < toks.len() implies #[trigger] filter_words.deep_view()[j]
                == toks[j] by {
                assert(filter_words.deep_view()[j] == filter_words@[j]@);
            }
            assert(filter_words.deep_view() =~= toks);
        }
        let ghost pvs = views_of(self.proc_stats.processes@);
        let mut selected: Vec<ProcessStat> = Vec::new();
        let mut i: usize = 0;
        proof {
            assert(pvs.take(0) =~= Seq::<ProcV>::empty());
            assert(views_of(selected@) =~= select_matching(pvs.take(0), toks));
        }
        while i < self.proc_stats.processes.len()
            invariant
                *self == *old(self),
                old(self).wf(),
                pvs == views_of(self.proc_stats.processes@),
                pvs.len() == self.proc_stats.processes@.len(),
                filter_words.deep_view() == toks,
                i <= self.proc_stats.processes@.len(),
                crate::sysinfo::all_flat(selected@),
                views_of(selected@) == select_matching(pvs.take(i as int), toks),
            decreases self.proc_stats.processes@.len() - i,
        {
            let p = &self.proc_stats.processes[i];
            let name = p.search_name();
            let m = crate::strings::contains_all_words(name.as_str(), &filter_words);
            proof {
                assert(pvs.take(i + 1) =~= pvs.take(i as int).push(pvs[i as int]));
                lemma_select_matching_push(pvs.take(i as int), toks, pvs[i as int]);
                assert(pvs[i as int] == p@);
                assert(name@ == spec_search_name(p@.flat));
                assert(m == spec_matches(p@, toks));
            }
            if m {
                selected.push(crate::sysinfo::clone_stat(p));
                proof {
                    assert(views_of(selected@) =~= select_matching(pvs.take(i as int), toks).push(
                        p@,
                    ));
                }
            }
            i += 1;
        }
        proof {
            assert(pvs.take(self.proc_stats.processes@.len() as int) =~= pvs);
            assert(views_of(selected@) == select_matching(pvs, toks));
        }
        let work: Vec<ProcessStat> = if self.group_by_exe {
            let grouped = crate::sysinfo::group_by_exe_path(&selected);
            proof {
                assert forall|j: int| 0 <= j < views_of(selected@).len() implies #[trigger] crate::sysinfo::flat_views(
                    selected@,
                )[j] == flats_of(views_of(selected@))[j] by {
                    assert(views_of(selected@)[j] == selected@[j]@);
                }
                assert(crate::sysinfo::flat_views(selected@) =~= flats_of(views_of(selected@)));
            }
            grouped
        } else {
            selected
        };
        proof {
            assert(views_of(work@) == old(self).display_set());
        }
        let sorted_list = sort_processes(self.ordering, work);
        self.filtered_processes = sorted_list;
        let len = self.filtered_processes.len();
        if len == 0 {
            self.process_cursor = 0;
        } else if self.process_cursor >= len {
            self.process_cursor = len - 1;
        }
    }

    /// Cycles the sort order forward and reapplies the display pipeline.
    pub fn switch_ordering(&mut self)
        requires
            old(self).wf(),
        ensures
            final(self).wf(),
            pipeline_rel(
                App { ordering: next_ordering(old(self).ordering), ..*old(self) },
                *final(self),
            ),
    {
        self.ordering = match self.ordering {
            Ordering::ByUptime => Ordering::ByMemory,
            Ordering::ByMemory => Ordering::ByCpu,
            Ordering::ByCpu => Ordering::ByUptime,
        };
        self.filter_processes();
    }

    /// Sets the sort order and reapplies the display pipeline.
    pub fn set_process_ordering(&mut self, ordering: Ordering)
        requires
            old(self).wf(),
        ensures
            final(self).wf(),
            pipeline_rel(App { ordering: ordering, ..*old(self) }, *final(self)),
    {
        self.ordering = ordering;
        self.filter_processes();
    }

    /// Toggles grouping by executable path and reapplies the display
    /// pipeline.
    pub fn toggle_group_by_exe(&mut self)
        requires
            old(self).wf(),
        ensures
            final(self).wf(),
            pipeline_rel(
                App { group_by_exe: !old(self).group_by_exe, ..*old(self) },
                *final(self),
            ),
    {
        self.group_by_exe = !self.group_by_exe;
        self.filter_processes();
    }

    /// Empties the filter text and reapplies the display pipeline.
    pub fn filter_clear(&mut self)
        requires
            old(self).wf(),
        ensures
            final(self).wf(),
            final(self).filter_text@ == Seq::<char>::empty(),
            pipeline_rel(
                App { filter_text: final(self).filter_text, ..*old(self) },
                *final(self),
            ),
    {
        self.filter_text = String::new();
        self.filter_processes();
    }

    /// Erases the last filter character, if any, and reapplies the
    /// display pipeline.
    pub fn filter_backspace(&mut self)
        requires
            old(self).wf(),
        ensures
            final(self).wf(),
            final(self).filter_text@ == if old(self).filter_text@.len() == 0 {
                old(self).filter_text@
            } else {
                old(self).filter_text@.drop_last()
            },
            pipeline_rel(
                App { filter_text: final(self).filter_text, ..*old(self) },
                *final(self),
            ),
    {
        let chars = crate::strings::chars_vec(self.filter_text.as_str());
        if chars.len() > 0 {
            let mut shorter: Vec<char> = Vec::new();
            let keep = chars.len() - 1;
            let mut t: usize = 0;
            while t < keep
                invariant
                    keep < chars@.len(),
                    t <= keep,
                    shorter@ == chars@.take(t as int),
                decreases keep - t,
            {
                shorter.push(chars[t]);
                t += 1;
                proof {
                    assert(shorter@ =~= chars@.take(t as int));
                }
            }
            self.filter_text = crate::strings::string_of_chars(&shorter);
            proof {
                assert(self.filter_text@ =~= old(self).filter_text@.drop_last());
            }
        }
        self.filter_processes();
    }

    /// Appends one character to the filter text and reapplies the
    /// display pipeline.
    pub fn filter_append(&mut self, c: char)
        requires
            old(self).wf(),
        ensures
            final(self).wf(),
            final(self).filter_text@ == old(self).filter_text@.push(c),
            pipeline_rel(
                App { filter_text: final(self).filter_text, ..*old(self) },
                *final(self),
            ),
    {
        crate::strings::push_char(&mut self.filter_text, c);
        self.filter_processes();
    }

    /// Confirms the selected process: opens the action menu on it. With
    /// the cursor past the list (an empty list), nothing happens.
    pub fn confirm_process(&mut self)
        requires
            old(self).wf(),
        ensures
            final(self).wf(),
            *final(self) == if old(self).process_cursor < old(self).filtered_processes@.len() {
                App {
                    window_focus: WindowFocus::SignalPick,
                    menu_action_cursor: 0,
                    ..*old(self)
                }
            } else {
                *old(self)
            },
    {
        if self.process_cursor >= self.filtered_processes.len() {
            return ;
        }
        self.window_focus = WindowFocus::SignalPick;
        self.menu_action_cursor = 0;
    }

    /// Confirms the chosen menu action on the selected process and
    /// returns to browsing. Showing details opens the info popup at once;
    /// a signal becomes a command the caller must run, report and follow
    /// with a refresh. When the selection vanished under the menu (the
    /// list shrank to nothing), nothing is done beyond the focus change.
    pub fn confirm_signal(&mut self) -> (eff: Effect)
        requires
            old(self).wf(),
        ensures
            final(self).wf(),
            confirm_signal_rel(*old(self), *final(self), eff),
    {
        if self.process_cursor >= self.filtered_processes.len() {
            self.window_focus = WindowFocus::Browse;
            return Effect::NoOp;
        }
        let op = self.known_menu_actions[self.menu_action_cursor].operation;
        match op {
            crate::action_menu::Operation::KillSignal { template } => {
                let cmd = crate::action_menu::kill_pid(
                    &self.filtered_processes[self.process_cursor].pid,
                    template,
                );
                self.window_focus = WindowFocus::Browse;
                proof {
                    assert(views_of(old(self).filtered_processes@)[old(self).process_cursor as int]
                        == old(self).filtered_processes@[old(self).process_cursor as int]@);
                }
                Effect::RunCommand(cmd)
            },
            crate::action_menu::Operation::ShowDetails => {
                let text = self.filtered_processes[self.process_cursor].details(&self.sys_stat);
                self.show_info(text);
                self.window_focus = WindowFocus::Browse;
                proof {
                    assert(views_of(old(self).filtered_processes@)[old(self).process_cursor as int]
                        == old(self).filtered_processes@[old(self).process_cursor as int]@);
                }
                Effect::NoOp
            },
        }
    }

    /// The system panel's text, with the panel's own scroll applied: the
    /// summary of the current poll against the startup baseline and the
    /// previous poll, minus the scrolled-away leading lines.
    pub fn format_sys_stats(&self) -> (r: Vec<String>)
        requires
            self.sysinfo_scroll >= 0,
        ensures
            r.deep_view() == ({
                let all = crate::sysinfo_render::spec_summarize(
                    self.sys_stat@,
                    self.init_stat@,
                    self.previous_stat@,
                );
                if self.sysinfo_scroll as int <= all.len() {
                    all.skip(self.sysinfo_scroll as int)
                } else {
                    Seq::empty()
                }
            }),
    {
        let lines = self.sys_stat.summarize(&self.init_stat, &self.previous_stat);
        let ghost all = lines.deep_view();
        let n = lines.len();
        proof {
            assert(all.len() == lines@.len());
        }
        let start: usize = if self.sysinfo_scroll as usize <= n {
            self.sysinfo_scroll as usize
        } else {
            n
        };
        let mut out: Vec<String> = Vec::new();
        let mut i: usize = start;
        while i < n
            invariant
                all == lines.deep_view(),
                all.len() == lines@.len(),
                n == lines@.len(),
                start <= i <= n,
                out@.len() == i - start,
                forall|k: int| 0 <= k < i - start ==> #[trigger] out@[k]@ == all[start + k],
            decreases n - i,
        {
            out.push(lines[i].clone());
            proof {
                assert(out@[i - start]@ == all[i as int]);
            }
            i += 1;
        }
        proof {
            assert forall|k: int| 0 <= k < out@.len() implies #[trigger] out.deep_view()[k]
                == all.skip(start as int)[k] by {
                assert(out.deep_view()[k] == out@[k]@);
            }
            assert(out.deep_view() =~= all.skip(start as int));
            if self.sysinfo_scroll as int > all.len() {
                assert(out.deep_view() =~= Seq::<Seq<char>>::empty());
            }
        }
        out
    }

    /// Opens the help popup.
    pub fn show_help(&mut self)
        ensures
            *final(self) == (App {
                info_message: final(self).info_message,
                info_message_scroll: 0,
                ..*old(self)
            }),
            final(self).info_message is Some,
            final(self).info_message->0@ == HELP_INFO@,
    {
        let mut text = String::new();
        text.append(HELP_INFO);
        proof {
            assert(text@ =~= HELP_INFO@);
        }
        self.show_info(text);
    }

    /// Recomputes every current entry's CPU usage against the previous
    /// poll's entries; everything else of each entry stays as it is.
    pub fn enrich_proc_stats(&mut self)
        requires
            old(self).wf(),
        ensures
            final(self).wf(),
            *final(self) == (App { proc_stats: final(self).proc_stats, ..*old(self) }),
            final(self).proc_stats@ == spec_enriched(
                old(self).proc_stats@,
                old(self).previous_proc_stats@,
            ),
    {
        let ghost cur = self.proc_stats@;
        let ghost prev = self.previous_proc_stats@;
        let mut enriched: Vec<ProcessStat> = Vec::new();
        let mut i: usize = 0;
        while i < self.proc_stats.processes.len()
            invariant
                *self == *old(self),
                old(self).wf(),
                cur == self.proc_stats@,
                prev == self.previous_proc_stats@,
                cur.len() == self.proc_stats.processes@.len(),
                i <= self.proc_stats.processes@.len(),
                crate::sysinfo::all_flat(enriched@),
                enriched@.len() == i,
                forall|k: int| 0 <= k < i ==> #[trigger] enriched@[k]@ == enrich_one(cur[k], prev),
            decreases self.proc_stats.processes@.len() - i,
        {
            let p = &self.proc_stats.processes[i];
            let usage = p.calculate_cpu_usage(&self.previous_proc_stats.processes);
            let mut q = crate::sysinfo::clone_stat(p);
            q.cpu_usage = usage;
            proof {
                assert(cur[i as int] == p@);
                assert(q@.children =~= p@.children);
            }
            enriched.push(q);
            i += 1;
        }
        self.proc_stats = SystemProcStats { processes: enriched };
        proof {
            assert forall|k: int| 0 <= k < cur.len() implies #[trigger] views_of(
                self.proc_stats.processes@,
            )[k] == spec_enriched(cur, prev)[k] by {
                assert(views_of(self.proc_stats.processes@)[k] == self.proc_stats.processes@[k]@);
            }
            assert(self.proc_stats@ =~= spec_enriched(cur, prev));
        }
    }

    /// Takes a fresh process snapshot: the current entries become the
    /// previous poll, the fresh entries have their CPU usage derived
    /// against them, and the display pipeline is reapplied.
    pub fn refresh_processes(&mut self, new_stats: SystemProcStats)
        requires
            old(self).wf(),
            crate::sysinfo::all_flat(new_stats.processes@),
        ensures
            final(self).wf(),
            final(self).previous_proc_stats@ == old(self).proc_stats@,
            final(self).proc_stats@ == spec_enriched(new_stats@, old(self).proc_stats@),
            pipeline_rel(
                App {
                    proc_stats: final(self).proc_stats,
                    previous_proc_stats: final(self).previous_proc_stats,
                    ..*old(self)
                },
                *final(self),
            ),
    {
        core::mem::swap(&mut self.previous_proc_stats, &mut self.proc_stats);
        self.proc_stats = new_stats;
        self.enrich_proc_stats();
        self.filter_processes();
    }
}

/// How a confirmed menu action changes the state: the focus returns to
/// browsing; details open the info popup on the selected entry's text; a
/// signal yields the shell command for the selected entry's pid.
pub open spec fn confirm_signal_rel(pre: App, post: App, eff: Effect) -> bool {
    if pre.process_cursor >= pre.filtered_processes@.len() {
        post == (App { window_focus: WindowFocus::Browse, ..pre }) && eff is NoOp
    } else {
        let target = views_of(pre.filtered_processes@)[pre.process_cursor as int];
        match pre.known_menu_actions@[pre.menu_action_cursor as int].operation {
            crate::action_menu::Operation::KillSignal { template } => {
                &&& post == (App { window_focus: WindowFocus::Browse, ..pre })
                &&& eff is RunCommand
                &&& eff->0@ == template@ + target.flat.pid
            },
            crate::action_menu::Operation::ShowDetails => {
                &&& post == (App {
                    window_focus: WindowFocus::Browse,
                    info_message: post.info_message,
                    info_message_scroll: 0,
                    ..pre
                })
                &&& post.info_message is Some
                &&& post.info_message->0@ == crate::sysinfo::spec_details_of(target, pre.sys_stat@)
                &&& eff is NoOp
            },
        }
    }
}

/// One entry with its CPU usage rederived against the previous poll.
pub open spec fn enrich_one(p: ProcV, prev: Seq<ProcV>) -> ProcV {
    ProcV {
        flat: ProcFlatV { cpu_usage: crate::sysinfo::spec_cpu_usage(p.flat, prev), ..p.flat },
        children: p.children,
    }
}

/// Every entry with its CPU usage rederived against the previous poll.
pub open spec fn spec_enriched(cur: Seq<ProcV>, prev: Seq<ProcV>) -> Seq<ProcV> {
    cur.map_values(|p: ProcV| enrich_one(p, prev))
}

/// Whether two entries tie on the active order's primary key.
pub open spec fn primary_equal(ord: Ordering, a: ProcFlatV, b: ProcFlatV) -> bool {
    match ord {
        Ordering::ByUptime => a.run_time == b.run_time,
        Ordering::ByMemory => a.memory_usage == b.memory_usage,
        Ordering::ByCpu => a.cpu_usage == b.cpu_usage,
    }
}

/// The pid tie-break holds throughout a sorted list: under every order,
/// two entries with equal primary key stand in descending pid order, so
/// equal-metric entries never reorder between polls.
pub proof fn lemma_sorted_tie_break(ord: Ordering, s: Seq<ProcV>, i: int, j: int)
    requires
        spec_sorted(ord, s),
        0 <= i < j < s.len(),
        primary_equal(ord, s[i].flat, s[j].flat),
    ensures
        s[i].flat.pid_num >= s[j].flat.pid_num,
{
    assert(proc_le(ord, s[i].flat, s[j].flat));
}

/// Filter membership through the whole display pipeline, with grouping
/// off: a process stands in the displayed list exactly when it stood in
/// the snapshot and every filter token occurs in its lowercased search
/// key.
pub proof fn lemma_display_membership(pre: App, post: App, p: ProcV)
    requires
        pipeline_rel(pre, post),
        !pre.group_by_exe,
    ensures
        views_of(post.filtered_processes@).contains(p) <==> (views_of(
            pre.proc_stats.processes@,
        ).contains(p) && spec_matches(p, lower_tokens(pre.filter_text@))),
{
    broadcast use vstd::seq_lib::group_to_multiset_ensures;

    let shown = views_of(post.filtered_processes@);
    let owed = pre.display_set();
    assert(shown.to_multiset() == owed.to_multiset());
    assert(shown.contains(p) <==> shown.to_multiset().count(p) > 0);
    assert(owed.contains(p) <==> owed.to_multiset().count(p) > 0);
    lemma_select_matching_contains(
        views_of(pre.proc_stats.processes@),
        lower_tokens(pre.filter_text@),
        p,
    );
}

/// The help text behind the `?` key.
pub const HELP_INFO: &'static str = "Keyboard controls:\n`?` to show help.\n`Ctrl+F` to filter processes.\nArrows `\u{2191}` and `\u{2193}` to navigate list.\n`F5` or `R` to refresh list.\n`S` to sort.\n`M` to order by memory usage.\n`C` to order by CPU usage.\n`U` to order by uptime.\n`G` group processes by executable path.\n`Enter` to execute.\n`Tab` to switch tab.\n`Esc` to cancel.";

proof fn lemma_to_multiset_insert<A>(s: Seq<A>, pos: int, x: A)
    requires
        0 <= pos <= s.len(),
    ensures
        s.insert(pos, x).to_multiset() =~= s.to_multiset().insert(x),
{
    broadcast use vstd::seq_lib::group_to_multiset_ensures;
    broadcast use vstd::multiset::group_multiset_axioms;

    assert(s.insert(pos, x) =~= s.take(pos).push(x) + s.skip(pos));
    vstd::seq_lib::lemma_multiset_commutative(s.take(pos).push(x), s.skip(pos));
    assert(s =~= s.take(pos) + s.skip(pos));
    vstd::seq_lib::lemma_multiset_commutative(s.take(pos), s.skip(pos));
    assert(s.take(pos).push(x).to_multiset() =~= s.take(pos).to_multiset().insert(x));
}

} // verus!