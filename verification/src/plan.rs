//! `DiffPlan`: the ordered action list the diff engine produces, with
//! aggregate counters that agree with the list at all times, and the stable
//! path ordering applied before the plan is handed to the executor.

use vstd::prelude::*;
use crate::action::SyncAction;
use crate::textutil::lex_le;
use crate::textutil::lemma_lex_le_total;
use crate::textutil::lemma_lex_le_transitive;
use crate::textutil::lemma_lex_le_antisymmetric;
use crate::textutil::spec_decimal;
use crate::textutil::u64_to_string;

verus! {

/// How much one action adds to each counter: tag 0 counts `CopyNew`, 1
/// `Overwrite`, 2 `Delete`, 3 `Skip`, 4 sums the bytes of transfers, and any
/// other tag counts `Move`.
pub open spec fn action_weight(a: SyncAction, tag: int) -> int {
    if tag == 0 {
        if a is CopyNew {
            1
        } else {
            0
        }
    } else if tag == 1 {
        if a is Overwrite {
            1
        } else {
            0
        }
    } else if tag == 2 {
        if a is Delete {
            1
        } else {
            0
        }
    } else if tag == 3 {
        if a is Skip {
            1
        } else {
            0
        }
    } else if tag == 4 {
        if a.spec_requires_transfer() {
            a.spec_file_entry().unwrap().size as int
        } else {
            0
        }
    } else {
        if a is Move {
            1
        } else {
            0
        }
    }
}

/// Sum of `action_weight` over an action sequence.
pub open spec fn plan_total(s: Seq<SyncAction>, tag: int) -> int
    decreases s.len(),
{
    if s.len() == 0 {
        0
    } else {
        plan_total(s.drop_last(), tag) + action_weight(s.last(), tag)
    }
}

/// Number of `CopyNew` actions.
pub open spec fn count_copy(s: Seq<SyncAction>) -> int {
    plan_total(s, 0)
}

/// Number of `Overwrite` actions.
pub open spec fn count_overwrite(s: Seq<SyncAction>) -> int {
    plan_total(s, 1)
}

/// Number of `Delete` actions.
pub open spec fn count_delete(s: Seq<SyncAction>) -> int {
    plan_total(s, 2)
}

/// Number of `Skip` actions.
pub open spec fn count_skip(s: Seq<SyncAction>) -> int {
    plan_total(s, 3)
}

/// Sum of the entry sizes of the `CopyNew` and `Overwrite` actions.
pub open spec fn sum_transfer_bytes(s: Seq<SyncAction>) -> int {
    plan_total(s, 4)
}

/// Number of `Move` actions.
pub open spec fn count_move(s: Seq<SyncAction>) -> int {
    plan_total(s, 5)
}

/// Whether the sequence holds `a` somewhere.
pub open spec fn plan_has(s: Seq<SyncAction>, a: SyncAction) -> bool {
    exists|k: int| 0 <= k < s.len() && s[k] == a
}

/// Whether the sequence holds a `Delete` for the path reading `p`.
pub open spec fn has_delete(s: Seq<SyncAction>, p: Seq<char>) -> bool {
    exists|k: int|
        0 <= k < s.len() && #[trigger] s[k] is Delete && s[k].spec_path().unwrap()@ == p
}

pub proof fn lemma_plan_has_insert(s: Seq<SyncAction>, i: int, x: SyncAction, a: SyncAction)
    requires
        0 <= i <= s.len(),
    ensures
        plan_has(s.insert(i, x), a) == (plan_has(s, a) || a == x),
{
    if plan_has(s, a) {
        let k = choose|k: int| 0 <= k < s.len() && s[k] == a;
        if k < i {
            assert(s.insert(i, x)[k] == a);
        } else {
            assert(s.insert(i, x)[k + 1] == a);
        }
    }
    if a == x {
        assert(s.insert(i, x)[i] == a);
    }
    if plan_has(s.insert(i, x), a) && a != x {
        let k = choose|k: int| 0 <= k < s.insert(i, x).len() && s.insert(i, x)[k] == a;
        if k < i {
            assert(s[k] == a);
        } else {
            assert(k != i);
            assert(s[k - 1] == a);
        }
    }
}

/// Growing a plan keeps everything it already holds.
pub proof fn lemma_plan_grows(s: Seq<SyncAction>, x: SyncAction)
    ensures
        forall|a: SyncAction| plan_has(s, a) ==> plan_has(s.push(x), a),
        forall|p: Seq<char>| has_delete(s, p) ==> has_delete(s.push(x), p),
{
    assert forall|a: SyncAction| plan_has(s, a) implies plan_has(s.push(x), a) by {
        let k = choose|k: int| 0 <= k < s.len() && s[k] == a;
        assert(s.push(x)[k] == a);
    }
    assert forall|p: Seq<char>| has_delete(s, p) implies has_delete(s.push(x), p) by {
        let k = choose|k: int|
            0 <= k < s.len() && #[trigger] s[k] is Delete && s[k].spec_path().unwrap()@ == p;
        assert(s.push(x)[k] == s[k]);
    }
}

/// A count of zero for a tag below four (or for `Move`) means no action of
/// that shape is present, and a `Delete` count equal to the length means every
/// action is a `Delete`.
pub proof fn lemma_counts_members(s: Seq<SyncAction>)
    ensures
        count_move(s) == 0 <==> (forall|k: int| 0 <= k < s.len() ==> !(#[trigger] s[k] is Move)),
        count_delete(s) == s.len() <==> (forall|k: int|
            0 <= k < s.len() ==> (#[trigger] s[k]) is Delete),
        count_delete(s) == 0 <==> (forall|k: int| 0 <= k < s.len() ==> !(#[trigger] s[k] is Delete)),
    decreases s.len(),
{
    lemma_plan_total_bounds(s, 2);
    lemma_plan_total_bounds(s, 5);
    if s.len() > 0 {
        let d = s.drop_last();
        lemma_counts_members(d);
        lemma_plan_total_bounds(d, 2);
        lemma_plan_total_bounds(d, 5);
        assert(s.last() == s[s.len() - 1]);
        if count_move(s) == 0 {
            assert(count_move(d) == 0);
            assert forall|k: int| 0 <= k < s.len() implies !(#[trigger] s[k] is Move) by {
                if k < s.len() - 1 {
                    assert(s[k] == d[k]);
                }
            }
        } else {
            if count_move(d) != 0 {
                let k = choose|k: int| 0 <= k < d.len() && #[trigger] d[k] is Move;
                assert(s[k] == d[k]);
            }
        }
        if count_delete(s) == s.len() {
            assert(count_delete(d) == d.len());
            assert forall|k: int| 0 <= k < s.len() implies (#[trigger] s[k]) is Delete by {
                if k < s.len() - 1 {
                    assert(s[k] == d[k]);
                }
            }
        } else {
            if count_delete(d) != d.len() {
                let k = choose|k: int| 0 <= k < d.len() && !((#[trigger] d[k]) is Delete);
                assert(s[k] == d[k]);
            }
        }
        if count_delete(s) == 0 {
            assert(count_delete(d) == 0);
            assert forall|k: int| 0 <= k < s.len() implies !(#[trigger] s[k] is Delete) by {
                if k < s.len() - 1 {
                    assert(s[k] == d[k]);
                }
            }
        } else {
            if count_delete(d) != 0 {
                let k = choose|k: int| 0 <= k < d.len() && #[trigger] d[k] is Delete;
                assert(s[k] == d[k]);
            }
        }
    }
}

pub proof fn lemma_plan_total_push(s: Seq<SyncAction>, x: SyncAction, tag: int)
    ensures
        plan_total(s.push(x), tag) == plan_total(s, tag) + action_weight(x, tag),
{
    assert(s.push(x).drop_last() =~= s);
    assert(s.push(x).last() == x);
}

pub proof fn lemma_plan_total_insert(s: Seq<SyncAction>, i: int, x: SyncAction, tag: int)
    requires
        0 <= i <= s.len(),
    ensures
        plan_total(s.insert(i, x), tag) == plan_total(s, tag) + action_weight(x, tag),
    decreases s.len(),
{
    if i == s.len() {
        assert(s.insert(i, x) =~= s.push(x));
        lemma_plan_total_push(s, x, tag);
    } else {
        assert(s.insert(i, x).drop_last() =~= s.drop_last().insert(i, x));
        assert(s.insert(i, x).last() == s.last());
        lemma_plan_total_insert(s.drop_last(), i, x, tag);
    }
}

pub proof fn lemma_plan_total_bounds(s: Seq<SyncAction>, tag: int)
    ensures
        tag != 4 ==> 0 <= plan_total(s, tag) <= s.len(),
        plan_total(s, 4) >= 0,
    decreases s.len(),
{
    if s.len() > 0 {
        lemma_plan_total_bounds(s.drop_last(), tag);
    }
}

pub proof fn lemma_transfer_counts_bound(s: Seq<SyncAction>)
    ensures
        0 <= plan_total(s, 0) + plan_total(s, 1) <= s.len(),
    decreases s.len(),
{
    if s.len() > 0 {
        lemma_transfer_counts_bound(s.drop_last());
    }
}

/// Aggregate counters of a plan.
#[derive(Debug, Clone, Copy, PartialEq, Eq, Structural)]
pub struct PlanStats {
    /// Number of files to transfer (`CopyNew` plus `Overwrite`).
    pub total_files: usize,
    /// Bytes to transfer (sum of sizes of `CopyNew` and `Overwrite` entries).
    pub total_bytes: u64,
    /// Number of `CopyNew` actions.
    pub copy_count: usize,
    /// Number of `Overwrite` actions.
    pub overwrite_count: usize,
    /// Number of `Delete` actions.
    pub delete_count: usize,
    /// Number of `Skip` actions.
    pub skip_count: usize,
}

impl Default for PlanStats {
    fn default() -> (r: Self)
        ensures
            r == (PlanStats {
                total_files: 0,
                total_bytes: 0,
                copy_count: 0,
                overwrite_count: 0,
                delete_count: 0,
                skip_count: 0,
            }),
    {
        PlanStats {
            total_files: 0,
            total_bytes: 0,
            copy_count: 0,
            overwrite_count: 0,
            delete_count: 0,
            skip_count: 0,
        }
    }
}

/// Seconds the transfer is expected to take at `bytes_per_second`, plus ten
/// milliseconds of bookkeeping per file; zero when either side is zero.
pub open spec fn spec_estimate_duration(stats: PlanStats, bytes_per_second: u64) -> int {
    if bytes_per_second == 0 || stats.total_bytes == 0 {
        0
    } else {
        stats.total_bytes as int / bytes_per_second as int + (stats.total_files as int * 10) / 1000
    }
}

/// The human form of a duration in seconds: hours and minutes, minutes and
/// seconds, or seconds alone, each part left out when it is zero.
pub open spec fn spec_duration_human(total: int) -> Seq<char> {
    if total == 0 {
        "0s"@
    } else {
        let hours = total / 3600;
        let minutes = (total % 3600) / 60;
        let seconds = total % 60;
        if hours > 0 {
            if minutes > 0 {
                spec_decimal(hours as nat) + "h "@ + spec_decimal(minutes as nat) + "m"@
            } else {
                spec_decimal(hours as nat) + "h"@
            }
        } else if minutes > 0 {
            if seconds > 0 {
                spec_decimal(minutes as nat) + "m "@ + spec_decimal(seconds as nat) + "s"@
            } else {
                spec_decimal(minutes as nat) + "m"@
            }
        } else {
            spec_decimal(seconds as nat) + "s"@
        }
    }
}

impl PlanStats {
    /// Rough transfer-time estimate in seconds at the given speed.
    pub fn estimate_duration(&self, bytes_per_second: u64) -> (r: u64)
        requires
            self.total_files * 10 <= u64::MAX,
            spec_estimate_duration(*self, bytes_per_second) <= u64::MAX,
        ensures
            r == spec_estimate_duration(*self, bytes_per_second),
    {
        if bytes_per_second == 0 || self.total_bytes == 0 {
            return 0;
        }
        let base_seconds = self.total_bytes / bytes_per_second;
        let file_overhead_ms = (self.total_files as u64) * 10;
        let file_overhead_seconds = file_overhead_ms / 1000;
        base_seconds + file_overhead_seconds
    }

    /// The same estimate rendered as text such as `2m 30s` or `1h 15m`.
    pub fn estimate_duration_human(&self, bytes_per_second: u64) -> (r: String)
        requires
            self.total_files * 10 <= u64::MAX,
            spec_estimate_duration(*self, bytes_per_second) <= u64::MAX,
        ensures
            r@ == spec_duration_human(spec_estimate_duration(*self, bytes_per_second)),
    {
        let total_seconds = self.estimate_duration(bytes_per_second);
        if total_seconds == 0 {
            proof {
                reveal_strlit("0s");
            }
            return "0s".to_owned();
        }
        let hours = total_seconds / 3600;
        let minutes = (total_seconds % 3600) / 60;
        let seconds = total_seconds % 60;
        if hours > 0 {
            let mut r = u64_to_string(hours);
            if minutes > 0 {
                r.append("h ");
                let m = u64_to_string(minutes);
                r.append(m.as_str());
                r.append("m");
            } else {
                r.append("h");
            }
            r
        } else if minutes > 0 {
            let mut r = u64_to_string(minutes);
            if seconds > 0 {
                r.append("m ");
                let s = u64_to_string(seconds);
                r.append(s.as_str());
                r.append("s");
            } else {
                r.append("m");
            }
            r
        } else {
            let mut r = u64_to_string(seconds);
            r.append("s");
            r
        }
    }
}

/// An ordered list of sync actions plus its aggregate counters.
#[derive(Debug, PartialEq)]
pub struct DiffPlan {
    /// The planned actions.
    pub actions: Vec<SyncAction>,
    /// Counters that agree with `actions` at all times.
    pub stats: PlanStats,
}

impl DiffPlan {
    /// The counter invariant every plan keeps: each counter equals the count
    /// over the action list, `total_files` is copies plus overwrites, and
    /// `total_bytes` sums the transferred entry sizes.
    pub open spec fn wf(self) -> bool {
        &&& self.stats.copy_count == count_copy(self.actions@)
        &&& self.stats.overwrite_count == count_overwrite(self.actions@)
        &&& self.stats.delete_count == count_delete(self.actions@)
        &&& self.stats.skip_count == count_skip(self.actions@)
        &&& self.stats.total_files == count_copy(self.actions@) + count_overwrite(self.actions@)
        &&& self.stats.total_bytes == sum_transfer_bytes(self.actions@)
    }

    /// Create an empty plan.
    pub fn new() -> (r: Self)
        ensures
            r.actions@.len() == 0,
            r.stats == (PlanStats {
                total_files: 0,
                total_bytes: 0,
                copy_count: 0,
                overwrite_count: 0,
                delete_count: 0,
                skip_count: 0,
            }),
            r.wf(),
    {
        let r = DiffPlan { actions: Vec::new(), stats: PlanStats::default() };
        proof {
            assert(r.actions@ =~= Seq::<SyncAction>::empty());
        }
        r
    }

    /// Append an action and update the counters for it.
    pub fn add_action(&mut self, action: SyncAction)
        requires
            old(self).wf(),
            old(self).actions@.len() + 1 <= usize::MAX,
            action.spec_requires_transfer() ==> old(self).stats.total_bytes
                + action.spec_file_entry().unwrap().size <= u64::MAX,
        ensures
            final(self).wf(),
            final(self).actions@ == old(self).actions@.push(action),
    {
        proof {
            lemma_plan_total_bounds(self.actions@, 0);
            lemma_plan_total_bounds(self.actions@, 1);
            lemma_plan_total_bounds(self.actions@, 2);
            lemma_plan_total_bounds(self.actions@, 3);
            lemma_transfer_counts_bound(self.actions@);
            lemma_plan_total_push(self.actions@, action, 0);
            lemma_plan_total_push(self.actions@, action, 1);
            lemma_plan_total_push(self.actions@, action, 2);
            lemma_plan_total_push(self.actions@, action, 3);
            lemma_plan_total_push(self.actions@, action, 4);
        }
        match &action {
            SyncAction::CopyNew(entry) => {
                self.stats.copy_count = self.stats.copy_count + 1;
                self.stats.total_files = self.stats.total_files + 1;
                self.stats.total_bytes = self.stats.total_bytes + entry.size;
            },
            SyncAction::Overwrite(entry) => {
                self.stats.overwrite_count = self.stats.overwrite_count + 1;
                self.stats.total_files = self.stats.total_files + 1;
                self.stats.total_bytes = self.stats.total_bytes + entry.size;
            },
            SyncAction::Delete(_) => {
                self.stats.delete_count = self.stats.delete_count + 1;
            },
            SyncAction::Skip => {
                self.stats.skip_count = self.stats.skip_count + 1;
            },
            SyncAction::Move { .. } => {},
        }
        self.actions.push(action);
    }
}

/// Rank used to break ties between actions at the same path: a `Delete` that
/// clears the way sorts before the action that then fills it.
pub open spec fn action_rank(a: SyncAction) -> int {
    if a is Delete {
        0
    } else {
        1
    }
}

/// The plan ordering: by path, with path-less actions after all others, and
/// `Delete` first among actions at the same path.
pub open spec fn action_le(a: SyncAction, b: SyncAction) -> bool {
    match (a.spec_path(), b.spec_path()) {
        (Some(pa), Some(pb)) => {
            if pa@ == pb@ {
                action_rank(a) <= action_rank(b)
            } else {
                lex_le(pa@, pb@)
            }
        },
        (Some(_), Option::None) => true,
        (Option::None, Some(_)) => false,
        (Option::None, Option::None) => true,
    }
}

pub proof fn lemma_action_le_total(a: SyncAction, b: SyncAction)
    ensures
        action_le(a, b) || action_le(b, a),
{
    match (a.spec_path(), b.spec_path()) {
        (Some(pa), Some(pb)) => {
            if pa@ != pb@ {
                lemma_lex_le_total(pa@, pb@);
            }
        },
        _ => {},
    }
}

pub proof fn lemma_action_le_transitive(a: SyncAction, b: SyncAction, c: SyncAction)
    requires
        action_le(a, b),
        action_le(b, c),
    ensures
        action_le(a, c),
{
    match (a.spec_path(), b.spec_path(), c.spec_path()) {
        (Some(pa), Some(pb), Some(pc)) => {
            if pa@ == pb@ && pb@ == pc@ {
            } else if pa@ == pb@ {
            } else if pb@ == pc@ {
            } else {
                lemma_lex_le_transitive(pa@, pb@, pc@);
                if pa@ == pc@ {
                    lemma_lex_le_antisymmetric(pa@, pb@);
                }
            }
        },
        _ => {},
    }
}

/// Sortedness under the plan ordering.
pub open spec fn actions_sorted(s: Seq<SyncAction>) -> bool {
    forall|i: int, j: int| 0 <= i < j < s.len() ==> action_le(#[trigger] s[i], #[trigger] s[j])
}

/// Decide `action_le` on concrete values.
fn action_le_exec(a: &SyncAction, b: &SyncAction) -> (r: bool)
    ensures
        r == action_le(*a, *b),
{
    let pa = a.path();
    let pb = b.path();
    match (pa, pb) {
        (Some(sa), Some(sb)) => {
            if crate::textutil::str_eq(sa.as_str(), sb.as_str()) {
                let ra = if a.is_delete() {
                    0u8
                } else {
                    1u8
                };
                let rb = if b.is_delete() {
                    0u8
                } else {
                    1u8
                };
                ra <= rb
            } else {
                crate::textutil::str_le(sa.as_str(), sb.as_str())
            }
        },
        (Some(_), Option::None) => true,
        (Option::None, Some(_)) => false,
        (Option::None, Option::None) => true,
    }
}

impl DiffPlan {
    /// Sort the actions by their path key, path-less actions last, `Delete`
    /// before other actions at an equal path. The counters do not change.
    #[verifier::loop_isolation(false)]
    pub fn sort_by_path(&mut self)
        requires
            old(self).wf(),
        ensures
            final(self).wf(),
            final(self).stats == old(self).stats,
            actions_sorted(final(self).actions@),
            final(self).actions@.len() == old(self).actions@.len(),
            forall|tag: int|
                plan_total(final(self).actions@, tag) == plan_total(old(self).actions@, tag),
            forall|a: SyncAction|
                plan_has(final(self).actions@, a) == plan_has(old(self).actions@, a),
    {
        let n = self.actions.len();
        let mut sorted: Vec<SyncAction> = Vec::new();
        let ghost input = self.actions@;
        let mut i: usize = 0;
        proof {
            assert(input.subrange(0, 0) =~= Seq::<SyncAction>::empty());
        }
        while i < n
            invariant
                i <= n,
                sorted@.len() == i,
                actions_sorted(sorted@),
                forall|tag: int|
                    plan_total(sorted@, tag) == plan_total(input.subrange(0, i as int), tag),
                forall|a: SyncAction|
                    plan_has(sorted@, a) == plan_has(input.subrange(0, i as int), a),
            decreases n - i,
        {
            let x = self.actions[i].clone();
            // Find the first position whose element must come after `x`.
            let mut pos: usize = 0;
            let slen = sorted.len();
            while pos < slen
                invariant
                    pos <= slen,
                    slen == sorted@.len(),
                    forall|k: int| 0 <= k < pos ==> action_le(#[trigger] sorted@[k], x),
                decreases slen - pos,
            {
                if !action_le_exec(&sorted[pos], &x) {
                    break ;
                }
                pos = pos + 1;
            }
            let ghost presort = sorted@;
            sorted.insert(pos, x);
            proof {
                assert(input.subrange(0, i + 1).drop_last() =~= input.subrange(0, i as int));
                assert(input.subrange(0, i + 1).last() == input[i as int]);
                assert forall|tag: int|
                    plan_total(sorted@, tag) == plan_total(
                        input.subrange(0, i + 1),
                        tag,
                    ) by {
                    lemma_plan_total_insert(presort, pos as int, x, tag);
                }
                assert forall|a: SyncAction|
                    plan_has(sorted@, a) == plan_has(input.subrange(0, i + 1), a) by {
                    lemma_plan_has_insert(presort, pos as int, x, a);
                    assert(plan_has(input.subrange(0, i + 1), a) == (plan_has(
                        input.subrange(0, i as int),
                        a,
                    ) || a == x)) by {
                        lemma_plan_has_insert(input.subrange(0, i as int), i as int, x, a);
                        assert(input.subrange(0, i as int).insert(i as int, x) =~= input.subrange(
                            0,
                            i + 1,
                        ));
                    }
                }
                assert forall|a: int, b: int|
                    0 <= a < b < sorted@.len() implies action_le(
                    #[trigger] sorted@[a],
                    #[trigger] sorted@[b],
                ) by {
                    if a == pos as int {
                        // x sits before an element that refused to come before it
                        let y = presort[b - 1];
                        if pos < presort.len() {
                            lemma_action_le_total(presort[pos as int], x);
                            if b - 1 > pos {
                                lemma_action_le_transitive(x, presort[pos as int], y);
                            }
                        }
                    } else if b == pos as int {
                    } else if a < pos as int && b > pos as int {
                    }
                }
            }
            i = i + 1;
        }
        proof {
            assert(input.subrange(0, n as int) =~= input);
        }
        self.actions = sorted;
    }
}

} // verus!
