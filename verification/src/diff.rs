//! Whole-tree planning: compare a source tree against a destination tree and
//! produce the ordered action plan, including orphan deletion and
//! directory/file conflict resolution.

use vstd::prelude::*;
use crate::action::DeleteMode;
use crate::action::SyncAction;
use crate::compare::lemma_compare_is_overwrite_or_skip;
use crate::compare::spec_compare;
use crate::config::Config;
use crate::pathutil::is_path_ancestor;
use crate::plan::DiffPlan;
use crate::plan::actions_sorted;
use crate::plan::count_copy;
use crate::plan::count_delete;
use crate::plan::count_overwrite;
use crate::plan::count_skip;
use crate::plan::count_move;
use crate::plan::has_delete;
use crate::plan::lemma_plan_total_push;
use crate::plan::plan_has;
use crate::plan::plan_total;
use crate::textutil::contains_str;
use crate::textutil::seq_contains_str;
use crate::tree::FileTree;
use crate::tree::lemma_sum_sizes_prefix_le;
use crate::tree::lemma_sum_sizes_prefix_step;
use crate::tree::sum_sizes;

verus! {

/// The action the planner records for a source path `p`: a `CopyNew` of the
/// source entry when the destination lacks the path, else the result of the
/// per-file comparison.
pub open spec fn planned_action_for(
    p: Seq<char>,
    src: FileTree,
    dest: FileTree,
    checksum_mode: bool,
) -> SyncAction {
    match dest.spec_get(p) {
        Some(dest_entry) => spec_compare(src.spec_get(p)->Some_0, dest_entry, checksum_mode),
        Option::None => SyncAction::CopyNew(src.spec_get(p)->Some_0),
    }
}

/// The destination holds a file strictly above `p` (it blocks `p`'s parents).
pub open spec fn dest_blocks_ancestor(dest: FileTree, p: Seq<char>) -> bool {
    exists|i: int|
        0 <= i < dest.entries@.len() && is_path_ancestor(#[trigger] dest.entries@[i].0@, p)
}

/// The destination holds entries strictly beneath `p` (a directory where the
/// source has a file).
pub open spec fn dest_blocks_below(dest: FileTree, p: Seq<char>) -> bool {
    exists|i: int|
        0 <= i < dest.entries@.len() && is_path_ancestor(p, #[trigger] dest.entries@[i].0@)
}

/// The plan holds a `Delete` for an ancestor of `p` that the destination
/// stores as a file.
pub open spec fn ancestor_delete_planned(s: Seq<SyncAction>, p: Seq<char>, dest: FileTree) -> bool {
    exists|k: int|
        0 <= k < s.len() && #[trigger] s[k] is Delete && is_path_ancestor(
            s[k].spec_path().unwrap()@,
            p,
        ) && dest.spec_contains(s[k].spec_path().unwrap()@)
}

/// The plan deletes `p` itself, or some ancestor of `p`.
pub open spec fn deleted_or_under_deleted(s: Seq<SyncAction>, p: Seq<char>) -> bool {
    has_delete(s, p) || exists|k: int|
        0 <= k < s.len() && #[trigger] s[k] is Delete && is_path_ancestor(
            s[k].spec_path().unwrap()@,
            p,
        )
}

/// Sum, over a list of source entries, of what their planned actions add to
/// the counter of the given tag (see `action_weight`).
pub open spec fn planned_totals(
    entries: Seq<(String, crate::entry::FileEntry)>,
    src: FileTree,
    dest: FileTree,
    checksum_mode: bool,
    tag: int,
) -> int
    decreases entries.len(),
{
    if entries.len() == 0 {
        0
    } else {
        planned_totals(entries.drop_last(), src, dest, checksum_mode, tag)
            + crate::plan::action_weight(
            planned_action_for(entries.last().0@, src, dest, checksum_mode),
            tag,
        )
    }
}

pub proof fn lemma_planned_totals_step(
    entries: Seq<(String, crate::entry::FileEntry)>,
    src: FileTree,
    dest: FileTree,
    checksum_mode: bool,
    tag: int,
    i: int,
)
    requires
        0 <= i < entries.len(),
    ensures
        planned_totals(entries.subrange(0, i + 1), src, dest, checksum_mode, tag)
            == planned_totals(entries.subrange(0, i), src, dest, checksum_mode, tag)
            + crate::plan::action_weight(
            planned_action_for(entries[i].0@, src, dest, checksum_mode),
            tag,
        ),
{
    assert(entries.subrange(0, i + 1).drop_last() =~= entries.subrange(0, i));
    assert(entries.subrange(0, i + 1).last() == entries[i]);
}

/// No stored path lies strictly under another: the shape every tree scanned
/// from a real filesystem has, since a path is either a leaf or a directory.
pub open spec fn no_nested_keys(t: FileTree) -> bool {
    forall|i: int, j: int|
        0 <= i < t.entries@.len() && 0 <= j < t.entries@.len() ==> !is_path_ancestor(
            #[trigger] t.entries@[i].0@,
            #[trigger] t.entries@[j].0@,
        )
}

/// A `Delete` is justified: its path is a destination orphan, a destination
/// file above some source path, or a source file the destination blocks with
/// entries beneath it. The planner deletes nothing else.
pub open spec fn delete_justified(p: Seq<char>, src: FileTree, dest: FileTree) -> bool {
    (dest.spec_contains(p) && !src.spec_contains(p)) || (dest.spec_contains(p) && exists|j: int|
        0 <= j < src.entries@.len() && is_path_ancestor(p, #[trigger] src.entries@[j].0@)) || (
    src.spec_contains(p) && dest_blocks_below(dest, p))
}

/// A planned delete covers `p`: the path itself or one of its ancestors is on
/// the planned list.
pub open spec fn covered_by(planned: Seq<String>, p: Seq<char>) -> bool {
    seq_contains_str(planned, p) || exists|k: int|
        0 <= k < planned.len() && is_path_ancestor(#[trigger] planned[k]@, p)
}

proof fn lemma_diff_preds_grow(s: Seq<SyncAction>, x: SyncAction, dest: FileTree)
    ensures
        forall|p: Seq<char>|
            ancestor_delete_planned(s, p, dest) ==> ancestor_delete_planned(s.push(x), p, dest),
        forall|p: Seq<char>|
            deleted_or_under_deleted(s, p) ==> deleted_or_under_deleted(s.push(x), p),
{
    crate::plan::lemma_plan_grows(s, x);
    assert forall|p: Seq<char>| ancestor_delete_planned(s, p, dest) implies ancestor_delete_planned(
        s.push(x),
        p,
        dest,
    ) by {
        let k = choose|k: int|
            0 <= k < s.len() && #[trigger] s[k] is Delete && is_path_ancestor(
                s[k].spec_path().unwrap()@,
                p,
            ) && dest.spec_contains(s[k].spec_path().unwrap()@);
        assert(s.push(x)[k] == s[k]);
    }
    assert forall|p: Seq<char>| deleted_or_under_deleted(s, p) implies deleted_or_under_deleted(
        s.push(x),
        p,
    ) by {
        if !has_delete(s, p) {
            let k = choose|k: int|
                0 <= k < s.len() && #[trigger] s[k] is Delete && is_path_ancestor(
                    s[k].spec_path().unwrap()@,
                    p,
                );
            assert(s.push(x)[k] == s[k]);
        }
    }
}

/// The nearest ancestor of `src_path` that the destination stores as a file.
fn first_dest_ancestor(src_path: &String, dest_tree: &FileTree) -> (r: Option<String>)
    ensures
        match r {
            Some(a) => is_path_ancestor(a@, src_path@) && dest_tree.spec_contains(a@),
            Option::None => !dest_blocks_ancestor(*dest_tree, src_path@),
        },
{
    let ancestors = crate::pathutil::ancestors_of(src_path.as_str());
    let n = ancestors.len();
    let mut i: usize = 0;
    while i < n
        invariant
            i <= n,
            n == ancestors@.len(),
            forall|k: int| 0 <= k < n ==> is_path_ancestor(#[trigger] ancestors@[k]@, src_path@),
            forall|j: int|
                0 < j < src_path@.len() && src_path@[j] == '/' ==> exists|k: int|
                    0 <= k < n && #[trigger] ancestors@[k]@ == src_path@.subrange(0, j),
            forall|k: int| 0 <= k < i ==> !dest_tree.spec_contains(#[trigger] ancestors@[k]@),
        decreases n - i,
    {
        if dest_tree.contains(&ancestors[i]) {
            return Some(ancestors[i].clone());
        }
        i = i + 1;
    }
    proof {
        if dest_blocks_ancestor(*dest_tree, src_path@) {
            let w = choose|w: int|
                0 <= w < dest_tree.entries@.len() && is_path_ancestor(
                    #[trigger] dest_tree.entries@[w].0@,
                    src_path@,
                );
            let anc = dest_tree.entries@[w].0@;
            let j = anc.len() as int;
            assert(src_path@[j] == '/');
            let k = choose|k: int|
                0 <= k < n && #[trigger] ancestors@[k]@ == src_path@.subrange(0, j);
            assert(src_path@.subrange(0, j) =~= anc);
            crate::tree::lemma_key_index(dest_tree.entries@, anc);
            assert(dest_tree.spec_contains(ancestors@[k]@));
        }
    }
    None
}

/// All proper ancestors of the destination's stored paths; a source path found
/// in this set is a file where the destination has a directory.
fn build_dest_parent_prefixes(dest_tree: &FileTree) -> (r: Vec<String>)
    ensures
        forall|k: int| 0 <= k < r@.len() ==> dest_blocks_below(*dest_tree, #[trigger] r@[k]@),
        forall|a: Seq<char>|
            #[trigger] dest_blocks_below(*dest_tree, a) ==> seq_contains_str(r@, a),
{
    let mut r: Vec<String> = Vec::new();
    let n = dest_tree.entries.len();
    let mut i: usize = 0;
    while i < n
        invariant
            i <= n,
            n == dest_tree.entries@.len(),
            forall|k: int| 0 <= k < r@.len() ==> dest_blocks_below(*dest_tree, #[trigger] r@[k]@),
            forall|a: Seq<char>, w: int|
                0 <= w < i && #[trigger] is_path_ancestor(a, dest_tree.entries@[w].0@)
                    ==> seq_contains_str(r@, a),
        decreases n - i,
    {
        let ancestors = crate::pathutil::ancestors_of(dest_tree.entries[i].0.as_str());
        let m = ancestors.len();
        let mut j: usize = 0;
        while j < m
            invariant
                j <= m,
                i < n,
                n == dest_tree.entries@.len(),
                m == ancestors@.len(),
                forall|k: int|
                    0 <= k < m ==> is_path_ancestor(
                        #[trigger] ancestors@[k]@,
                        dest_tree.entries@[i as int].0@,
                    ),
                forall|jj: int|
                    0 < jj < dest_tree.entries@[i as int].0@.len()
                        && dest_tree.entries@[i as int].0@[jj] == '/' ==> exists|k: int|
                        0 <= k < m && #[trigger] ancestors@[k]@
                            == dest_tree.entries@[i as int].0@.subrange(0, jj),
                forall|k: int|
                    0 <= k < r@.len() ==> dest_blocks_below(*dest_tree, #[trigger] r@[k]@),
                forall|a: Seq<char>, w: int|
                    0 <= w < i && #[trigger] is_path_ancestor(a, dest_tree.entries@[w].0@)
                        ==> seq_contains_str(r@, a),
                forall|k: int| 0 <= k < j ==> seq_contains_str(r@, #[trigger] ancestors@[k]@),
            decreases m - j,
        {
            let ghost prev = r@;
            r.push(ancestors[j].clone());
            proof {
                assert(r@[r@.len() - 1]@ == ancestors@[j as int]@);
                assert(is_path_ancestor(ancestors@[j as int]@, dest_tree.entries@[i as int].0@));
                assert(dest_blocks_below(*dest_tree, r@[r@.len() - 1]@));
                assert forall|a: Seq<char>| seq_contains_str(prev, a) implies seq_contains_str(
                    r@,
                    a,
                ) by {
                    let k = choose|k: int| 0 <= k < prev.len() && prev[k]@ == a;
                    assert(r@[k]@ == a);
                }
            }
            j = j + 1;
        }
        proof {
            assert forall|a: Seq<char>, w: int|
                0 <= w < i + 1 && #[trigger] is_path_ancestor(
                    a,
                    dest_tree.entries@[w].0@,
                ) implies seq_contains_str(r@, a) by {
                if w == i as int {
                    let p = dest_tree.entries@[i as int].0@;
                    let jj = a.len() as int;
                    assert(p[jj] == '/');
                    let k = choose|k: int|
                        0 <= k < m && #[trigger] ancestors@[k]@ == p.subrange(0, jj);
                    assert(p.subrange(0, jj) =~= a);
                    assert(seq_contains_str(r@, ancestors@[k]@));
                }
            }
        }
        i = i + 1;
    }
    proof {
        assert forall|a: Seq<char>| #[trigger] dest_blocks_below(*dest_tree, a) implies
            seq_contains_str(r@, a) by {
            let w = choose|w: int|
                0 <= w < dest_tree.entries@.len() && is_path_ancestor(
                    a,
                    #[trigger] dest_tree.entries@[w].0@,
                );
            assert(is_path_ancestor(a, dest_tree.entries@[w].0@));
        }
    }
    r
}

/// The conflict roots that must be deleted before copying `src_path`: the
/// nearest destination-side file above it, and `src_path` itself when the
/// destination holds entries beneath that path.
fn conflict_delete_roots(
    src_path: &String,
    dest_tree: &FileTree,
    dest_parent_prefixes: &Vec<String>,
) -> (r: Vec<String>)
    ensures
        r@.len() <= 2,
        forall|k: int|
            0 <= k < r@.len() ==> (is_path_ancestor(#[trigger] r@[k]@, src_path@)
                && dest_tree.spec_contains(r@[k]@)) || (r@[k]@ == src_path@ && seq_contains_str(
                dest_parent_prefixes@,
                src_path@,
            )),
        dest_blocks_ancestor(*dest_tree, src_path@) ==> exists|k: int|
            0 <= k < r@.len() && is_path_ancestor(#[trigger] r@[k]@, src_path@)
                && dest_tree.spec_contains(r@[k]@),
        seq_contains_str(dest_parent_prefixes@, src_path@) ==> exists|k: int|
            0 <= k < r@.len() && #[trigger] r@[k]@ == src_path@,
{
    let mut roots: Vec<String> = Vec::new();
    match first_dest_ancestor(src_path, dest_tree) {
        Some(anc) => {
            let ghost av = anc@;
            roots.push(anc);
            proof {
                assert(roots@[0]@ == av);
                assert(is_path_ancestor(roots@[0]@, src_path@) && dest_tree.spec_contains(
                    roots@[0]@,
                ));
            }
        },
        Option::None => {},
    }
    if contains_str(dest_parent_prefixes, src_path.as_str()) {
        let ghost before = roots@;
        roots.push(src_path.clone());
        proof {
            assert(roots@[roots@.len() - 1]@ == src_path@);
            assert(forall|k: int| 0 <= k < before.len() ==> roots@[k] == before[k]);
        }
    }
    roots
}

/// Whether `path`, or one of its ancestors, is already on the planned-delete
/// list.
fn is_covered_by_planned_delete(path: &String, planned_deletes: &Vec<String>) -> (r: bool)
    ensures
        r == covered_by(planned_deletes@, path@),
{
    let n = planned_deletes.len();
    let mut i: usize = 0;
    while i < n
        invariant
            i <= n,
            n == planned_deletes@.len(),
            forall|k: int|
                0 <= k < i ==> planned_deletes@[k]@ != path@ && !is_path_ancestor(
                    #[trigger] planned_deletes@[k]@,
                    path@,
                ),
        decreases n - i,
    {
        if crate::textutil::str_eq(planned_deletes[i].as_str(), path.as_str()) {
            return true;
        }
        if crate::pathutil::is_ancestor_of(planned_deletes[i].as_str(), path.as_str()) {
            return true;
        }
        i = i + 1;
    }
    false
}

/// Build the sync plan for the two trees: one `CopyNew`, `Overwrite` or `Skip`
/// per source path; when deletions are enabled, a `Delete` for each
/// directory/file conflict root and for each destination orphan not already
/// covered by a planned ancestor delete; the whole list sorted by path with
/// clearing deletes first.
///
/// The bound on the entry counts keeps the action list within an addressable
/// vector; three actions per source path is the most one path can contribute.
#[verifier::loop_isolation(false)]
#[verifier::rlimit(40)]
pub fn generate_sync_plan(src_tree: &FileTree, dest_tree: &FileTree, config: &Config) -> (r:
    DiffPlan)
    requires
        src_tree.wf(),
        dest_tree.wf(),
        3 * src_tree.entries@.len() + dest_tree.entries@.len() < usize::MAX,
    ensures
        r.wf(),
        actions_sorted(r.actions@),
        count_move(r.actions@) == 0,
        config.delete_mode == DeleteMode::Off ==> count_delete(r.actions@) == 0,
        forall|j: int|
            0 <= j < src_tree.entries@.len() ==> plan_has(
                r.actions@,
                planned_action_for(
                    #[trigger] src_tree.entries@[j].0@,
                    *src_tree,
                    *dest_tree,
                    config.checksum_mode,
                ),
            ),
        config.delete_mode != DeleteMode::Off ==> forall|j: int|
            0 <= j < src_tree.entries@.len() && dest_blocks_ancestor(
                *dest_tree,
                #[trigger] src_tree.entries@[j].0@,
            ) ==> ancestor_delete_planned(r.actions@, src_tree.entries@[j].0@, *dest_tree),
        config.delete_mode != DeleteMode::Off ==> forall|j: int|
            0 <= j < src_tree.entries@.len() && dest_blocks_below(
                *dest_tree,
                #[trigger] src_tree.entries@[j].0@,
            ) ==> has_delete(r.actions@, src_tree.entries@[j].0@),
        config.delete_mode != DeleteMode::Off ==> forall|j: int|
            0 <= j < dest_tree.entries@.len() && !src_tree.spec_contains(
                #[trigger] dest_tree.entries@[j].0@,
            ) ==> deleted_or_under_deleted(r.actions@, dest_tree.entries@[j].0@),
        count_copy(r.actions@) + count_overwrite(r.actions@) + count_skip(r.actions@)
            == src_tree.entries@.len(),
        plan_total(r.actions@, 0) == planned_totals(
            src_tree.entries@,
            *src_tree,
            *dest_tree,
            config.checksum_mode,
            0,
        ),
        plan_total(r.actions@, 1) == planned_totals(
            src_tree.entries@,
            *src_tree,
            *dest_tree,
            config.checksum_mode,
            1,
        ),
        plan_total(r.actions@, 3) == planned_totals(
            src_tree.entries@,
            *src_tree,
            *dest_tree,
            config.checksum_mode,
            3,
        ),
        plan_total(r.actions@, 4) == planned_totals(
            src_tree.entries@,
            *src_tree,
            *dest_tree,
            config.checksum_mode,
            4,
        ),
        forall|k: int|
            0 <= k < r.actions@.len() && (#[trigger] r.actions@[k]) is Delete ==> delete_justified(
                r.actions@[k].spec_path().unwrap()@,
                *src_tree,
                *dest_tree,
            ),
        src_tree.entries@.len() == 0 && config.delete_mode == DeleteMode::Off ==> r.actions@.len()
            == 0,
        src_tree.entries@.len() == 0 && config.delete_mode != DeleteMode::Off ==> count_delete(
            r.actions@,
        ) == dest_tree.entries@.len() && r.actions@.len() == dest_tree.entries@.len(),
{
    let mut plan = DiffPlan::new();
    let mut planned_deletes: Vec<String> = Vec::new();
    let dest_parent_prefixes = build_dest_parent_prefixes(dest_tree);
    let allow_deletes = !matches!(config.delete_mode, DeleteMode::Off);
    let ghost srcs = src_tree.entries@;
    let ghost dests = dest_tree.entries@;
    let ghost checksum = config.checksum_mode;

    let src_len = src_tree.entries.len();
    let mut i: usize = 0;
    proof {
        assert(srcs.subrange(0, 0) =~= Seq::<(String, crate::entry::FileEntry)>::empty());
    }
    while i < src_len
        invariant
            i <= src_len,
            plan.wf(),
            plan.actions@.len() <= 3 * i,
            plan.stats.total_bytes <= sum_sizes(srcs.subrange(0, i as int)),
            count_move(plan.actions@) == 0,
            count_copy(plan.actions@) + count_overwrite(plan.actions@) + count_skip(plan.actions@)
                == i,
            plan_total(plan.actions@, 0) == planned_totals(
                srcs.subrange(0, i as int),
                *src_tree,
                *dest_tree,
                checksum,
                0,
            ),
            plan_total(plan.actions@, 1) == planned_totals(
                srcs.subrange(0, i as int),
                *src_tree,
                *dest_tree,
                checksum,
                1,
            ),
            plan_total(plan.actions@, 3) == planned_totals(
                srcs.subrange(0, i as int),
                *src_tree,
                *dest_tree,
                checksum,
                3,
            ),
            plan_total(plan.actions@, 4) == planned_totals(
                srcs.subrange(0, i as int),
                *src_tree,
                *dest_tree,
                checksum,
                4,
            ),
            forall|k: int|
                0 <= k < plan.actions@.len() && (#[trigger] plan.actions@[k]) is Delete
                    ==> delete_justified(
                    plan.actions@[k].spec_path().unwrap()@,
                    *src_tree,
                    *dest_tree,
                ),
            !allow_deletes ==> count_delete(plan.actions@) == 0,
            forall|j: int|
                0 <= j < i ==> plan_has(
                    plan.actions@,
                    planned_action_for(#[trigger] srcs[j].0@, *src_tree, *dest_tree, checksum),
                ),
            forall|q: Seq<char>| seq_contains_str(planned_deletes@, q) ==> has_delete(
                plan.actions@,
                q,
            ),
            forall|k: int| 0 <= k < planned_deletes@.len() ==> dest_tree.spec_contains(
                #[trigger] planned_deletes@[k]@,
            ) || seq_contains_str(dest_parent_prefixes@, planned_deletes@[k]@),
            allow_deletes ==> forall|j: int|
                0 <= j < i && dest_blocks_ancestor(*dest_tree, #[trigger] srcs[j].0@)
                    ==> ancestor_delete_planned(plan.actions@, srcs[j].0@, *dest_tree),
            allow_deletes ==> forall|j: int|
                0 <= j < i && dest_blocks_below(*dest_tree, #[trigger] srcs[j].0@) ==> has_delete(
                    plan.actions@,
                    srcs[j].0@,
                ),
        decreases src_len - i,
    {
        let src_path = &src_tree.entries[i].0;
        proof {
            src_tree.lemma_wf_key_at(i as int);
            lemma_sum_sizes_prefix_step(srcs, i as int);
            lemma_sum_sizes_prefix_le(srcs, i + 1);
        }
        if allow_deletes {
            let roots = conflict_delete_roots(src_path, dest_tree, &dest_parent_prefixes);
            let rn = roots.len();
            let mut k: usize = 0;
            while k < rn
                invariant
                    k <= rn,
                    rn == roots@.len(),
                    plan.wf(),
                    plan.actions@.len() <= 3 * i + k,
                    plan.stats.total_bytes <= sum_sizes(srcs.subrange(0, i as int)),
                    count_move(plan.actions@) == 0,
                    count_copy(plan.actions@) + count_overwrite(plan.actions@) + count_skip(
                        plan.actions@,
                    ) == i,
                    plan_total(plan.actions@, 0) == planned_totals(
                        srcs.subrange(0, i as int),
                        *src_tree,
                        *dest_tree,
                        checksum,
                        0,
                    ),
                    plan_total(plan.actions@, 1) == planned_totals(
                        srcs.subrange(0, i as int),
                        *src_tree,
                        *dest_tree,
                        checksum,
                        1,
                    ),
                    plan_total(plan.actions@, 3) == planned_totals(
                        srcs.subrange(0, i as int),
                        *src_tree,
                        *dest_tree,
                        checksum,
                        3,
                    ),
                    plan_total(plan.actions@, 4) == planned_totals(
                        srcs.subrange(0, i as int),
                        *src_tree,
                        *dest_tree,
                        checksum,
                        4,
                    ),
                    forall|kk: int|
                        0 <= kk < plan.actions@.len() && (#[trigger] plan.actions@[kk]) is Delete
                            ==> delete_justified(
                            plan.actions@[kk].spec_path().unwrap()@,
                            *src_tree,
                            *dest_tree,
                        ),
                    forall|q: Seq<char>| seq_contains_str(planned_deletes@, q) ==> has_delete(
                        plan.actions@,
                        q,
                    ),
                    forall|kk: int| 0 <= kk < planned_deletes@.len() ==> dest_tree.spec_contains(
                        #[trigger] planned_deletes@[kk]@,
                    ) || seq_contains_str(dest_parent_prefixes@, planned_deletes@[kk]@),
                    forall|j: int|
                        0 <= j < i ==> plan_has(
                            plan.actions@,
                            planned_action_for(
                                #[trigger] srcs[j].0@,
                                *src_tree,
                                *dest_tree,
                                checksum,
                            ),
                        ),
                    forall|j: int|
                        0 <= j < i && dest_blocks_ancestor(*dest_tree, #[trigger] srcs[j].0@)
                            ==> ancestor_delete_planned(plan.actions@, srcs[j].0@, *dest_tree),
                    forall|j: int|
                        0 <= j < i && dest_blocks_below(*dest_tree, #[trigger] srcs[j].0@)
                            ==> has_delete(plan.actions@, srcs[j].0@),
                    forall|kk: int| 0 <= kk < k ==> has_delete(
                        plan.actions@,
                        #[trigger] roots@[kk]@,
                    ),
                decreases rn - k,
            {
                let root = &roots[k];
                let ghost planned_before = planned_deletes@;
                if !contains_str(&planned_deletes, root.as_str()) {
                    planned_deletes.push(root.clone());
                    let ghost before = plan.actions@;
                    plan.add_action(SyncAction::Delete(root.clone()));
                    proof {
                        let x = plan.actions@[plan.actions@.len() - 1];
                        lemma_plan_total_push(before, x, 0);
                        lemma_plan_total_push(before, x, 1);
                        lemma_plan_total_push(before, x, 2);
                        lemma_plan_total_push(before, x, 3);
                        lemma_plan_total_push(before, x, 4);
                        lemma_plan_total_push(before, x, 5);
                        crate::plan::lemma_plan_grows(before, x);
                        lemma_diff_preds_grow(before, x, *dest_tree);
                        assert(x is Delete);
                        assert(x.spec_path().unwrap()@ == roots@[k as int]@);
                        assert(has_delete(plan.actions@, roots@[k as int]@));
                        // the pushed root clears a conflict, so the delete is justified
                        if roots@[k as int]@ == src_path@ && seq_contains_str(
                            dest_parent_prefixes@,
                            src_path@,
                        ) {
                            let w = choose|w: int|
                                0 <= w < dest_parent_prefixes@.len()
                                    && dest_parent_prefixes@[w]@ == src_path@;
                            assert(dest_blocks_below(*dest_tree, dest_parent_prefixes@[w]@));
                        } else {
                            assert(is_path_ancestor(roots@[k as int]@, srcs[i as int].0@)
                                && dest_tree.spec_contains(roots@[k as int]@));
                        }
                        assert(delete_justified(roots@[k as int]@, *src_tree, *dest_tree));
                        assert forall|kk: int|
                            0 <= kk < plan.actions@.len() && (#[trigger] plan.actions@[kk])
                                is Delete implies delete_justified(
                            plan.actions@[kk].spec_path().unwrap()@,
                            *src_tree,
                            *dest_tree,
                        ) by {
                            if kk < before.len() {
                                assert(plan.actions@[kk] == before[kk]);
                            }
                        }
                        assert forall|q: Seq<char>|
                            seq_contains_str(planned_deletes@, q) implies has_delete(
                            plan.actions@,
                            q,
                        ) by {
                            let w = choose|w: int|
                                0 <= w < planned_deletes@.len() && planned_deletes@[w]@ == q;
                            if w < planned_before.len() {
                                assert(seq_contains_str(planned_before, q));
                            } else {
                                assert(q == roots@[k as int]@);
                            }
                        }
                        assert forall|kk: int|
                            0 <= kk < k + 1 implies has_delete(
                            plan.actions@,
                            #[trigger] roots@[kk]@,
                        ) by {
                        }
                    }
                } else {
                    proof {
                        assert(seq_contains_str(planned_deletes@, roots@[k as int]@));
                        assert(has_delete(plan.actions@, roots@[k as int]@));
                    }
                }
                k = k + 1;
            }
            proof {
                if dest_blocks_ancestor(*dest_tree, srcs[i as int].0@) {
                    let w = choose|w: int|
                        0 <= w < roots@.len() && is_path_ancestor(#[trigger] roots@[w]@, src_path@)
                            && dest_tree.spec_contains(roots@[w]@);
                    assert(has_delete(plan.actions@, roots@[w]@));
                    let d = choose|d: int|
                        0 <= d < plan.actions@.len() && #[trigger] plan.actions@[d] is Delete
                            && plan.actions@[d].spec_path().unwrap()@ == roots@[w]@;
                    assert(ancestor_delete_planned(plan.actions@, srcs[i as int].0@, *dest_tree));
                }
                if dest_blocks_below(*dest_tree, srcs[i as int].0@) {
                    let w = choose|w: int|
                        0 <= w < dests.len() && is_path_ancestor(
                            srcs[i as int].0@,
                            #[trigger] dests[w].0@,
                        );
                    assert(seq_contains_str(dest_parent_prefixes@, src_path@));
                    let u = choose|u: int|
                        0 <= u < roots@.len() && #[trigger] roots@[u]@ == src_path@;
                    assert(has_delete(plan.actions@, roots@[u]@));
                }
            }
        }
        let ghost before_action = plan.actions@;
        match dest_tree.get(src_path) {
            Option::None => {
                plan.add_action(SyncAction::CopyNew(src_tree.entries[i].1.clone()));
            },
            Some(dest_entry) => {
                let action = crate::compare::compare_files(
                    &src_tree.entries[i].1,
                    dest_entry,
                    config,
                );
                proof {
                    lemma_compare_is_overwrite_or_skip(
                        srcs[i as int].1,
                        dest_tree.spec_get(srcs[i as int].0@)->Some_0,
                        checksum,
                    );
                }
                plan.add_action(action);
            },
        }
        proof {
            let planned = planned_action_for(srcs[i as int].0@, *src_tree, *dest_tree, checksum);
            assert(plan.actions@ == before_action.push(planned));
            lemma_plan_total_push(before_action, planned, 0);
            lemma_plan_total_push(before_action, planned, 1);
            lemma_plan_total_push(before_action, planned, 2);
            lemma_plan_total_push(before_action, planned, 3);
            lemma_plan_total_push(before_action, planned, 4);
            lemma_plan_total_push(before_action, planned, 5);
            crate::plan::lemma_plan_grows(before_action, planned);
            lemma_diff_preds_grow(before_action, planned, *dest_tree);
            assert(!(planned is Delete));
            lemma_planned_totals_step(srcs, *src_tree, *dest_tree, checksum, 0, i as int);
            lemma_planned_totals_step(srcs, *src_tree, *dest_tree, checksum, 1, i as int);
            lemma_planned_totals_step(srcs, *src_tree, *dest_tree, checksum, 3, i as int);
            lemma_planned_totals_step(srcs, *src_tree, *dest_tree, checksum, 4, i as int);
            assert forall|kk: int|
                0 <= kk < plan.actions@.len() && (#[trigger] plan.actions@[kk])
                    is Delete implies delete_justified(
                plan.actions@[kk].spec_path().unwrap()@,
                *src_tree,
                *dest_tree,
            ) by {
                if kk < before_action.len() {
                    assert(plan.actions@[kk] == before_action[kk]);
                }
            }
            lemma_compare_is_overwrite_or_skip(
                srcs[i as int].1,
                dest_tree.spec_get(srcs[i as int].0@)->Some_0,
                checksum,
            );
            assert(plan.actions@[plan.actions@.len() - 1] == planned);
            assert forall|j: int|
                0 <= j < i + 1 implies plan_has(
                plan.actions@,
                planned_action_for(#[trigger] srcs[j].0@, *src_tree, *dest_tree, checksum),
            ) by {
                if j < i {
                    let a = planned_action_for(srcs[j].0@, *src_tree, *dest_tree, checksum);
                    let w = choose|w: int| 0 <= w < before_action.len() && before_action[w] == a;
                    assert(plan.actions@[w] == a);
                }
            }
        }
        i = i + 1;
    }

    proof {
        assert(srcs.subrange(0, src_len as int) =~= srcs);
    }
    let dest_len = dest_tree.entries.len();
    if allow_deletes {
        let mut i2: usize = 0;
        while i2 < dest_len
            invariant
                i2 <= dest_len,
                plan.wf(),
                plan.actions@.len() <= 3 * src_len + i2,
                plan.stats.total_bytes <= sum_sizes(srcs),
                count_move(plan.actions@) == 0,
                count_copy(plan.actions@) + count_overwrite(plan.actions@) + count_skip(
                    plan.actions@,
                ) == src_len,
                plan_total(plan.actions@, 0) == planned_totals(
                    srcs,
                    *src_tree,
                    *dest_tree,
                    checksum,
                    0,
                ),
                plan_total(plan.actions@, 1) == planned_totals(
                    srcs,
                    *src_tree,
                    *dest_tree,
                    checksum,
                    1,
                ),
                plan_total(plan.actions@, 3) == planned_totals(
                    srcs,
                    *src_tree,
                    *dest_tree,
                    checksum,
                    3,
                ),
                plan_total(plan.actions@, 4) == planned_totals(
                    srcs,
                    *src_tree,
                    *dest_tree,
                    checksum,
                    4,
                ),
                forall|kk: int|
                    0 <= kk < plan.actions@.len() && (#[trigger] plan.actions@[kk]) is Delete
                        ==> delete_justified(
                        plan.actions@[kk].spec_path().unwrap()@,
                        *src_tree,
                        *dest_tree,
                    ),
                forall|j: int|
                    0 <= j < src_len ==> plan_has(
                        plan.actions@,
                        planned_action_for(#[trigger] srcs[j].0@, *src_tree, *dest_tree, checksum),
                    ),
                forall|q: Seq<char>| seq_contains_str(planned_deletes@, q) ==> has_delete(
                    plan.actions@,
                    q,
                ),
                forall|j: int|
                    0 <= j < src_len && dest_blocks_ancestor(*dest_tree, #[trigger] srcs[j].0@)
                        ==> ancestor_delete_planned(plan.actions@, srcs[j].0@, *dest_tree),
                forall|j: int|
                    0 <= j < src_len && dest_blocks_below(*dest_tree, #[trigger] srcs[j].0@)
                        ==> has_delete(plan.actions@, srcs[j].0@),
                forall|j: int|
                    0 <= j < i2 && !src_tree.spec_contains(#[trigger] dests[j].0@)
                        ==> deleted_or_under_deleted(plan.actions@, dests[j].0@),
                src_len == 0 ==> count_delete(plan.actions@) == i2 && plan.actions@.len() == i2,
            decreases dest_len - i2,
        {
            let dest_path = &dest_tree.entries[i2].0;
            proof {
                dest_tree.lemma_wf_key_at(i2 as int);
            }
            let in_src = src_tree.contains(dest_path);
            let in_planned = contains_str(&planned_deletes, dest_path.as_str());
            let covered = is_covered_by_planned_delete(dest_path, &planned_deletes);
            if !in_src && !in_planned && !covered {
                let ghost before = plan.actions@;
                plan.add_action(SyncAction::Delete(dest_path.clone()));
                proof {
                    let x = plan.actions@[plan.actions@.len() - 1];
                    lemma_plan_total_push(before, x, 0);
                    lemma_plan_total_push(before, x, 1);
                    lemma_plan_total_push(before, x, 2);
                    lemma_plan_total_push(before, x, 3);
                    lemma_plan_total_push(before, x, 4);
                    lemma_plan_total_push(before, x, 5);
                    crate::plan::lemma_plan_grows(before, x);
                    lemma_diff_preds_grow(before, x, *dest_tree);
                    assert(x is Delete);
                    assert(has_delete(plan.actions@, dests[i2 as int].0@));
                    // an orphan: present in the destination, absent from the source
                    assert(delete_justified(dests[i2 as int].0@, *src_tree, *dest_tree));
                    assert forall|kk: int|
                        0 <= kk < plan.actions@.len() && (#[trigger] plan.actions@[kk])
                            is Delete implies delete_justified(
                        plan.actions@[kk].spec_path().unwrap()@,
                        *src_tree,
                        *dest_tree,
                    ) by {
                        if kk < before.len() {
                            assert(plan.actions@[kk] == before[kk]);
                        }
                    }
                }
            } else {
                proof {
                    if !in_src {
                        if in_planned {
                            assert(seq_contains_str(planned_deletes@, dest_path@));
                            assert(has_delete(plan.actions@, dests[i2 as int].0@));
                        } else {
                            // covered by an ancestor on the planned list
                            if seq_contains_str(planned_deletes@, dest_path@) {
                                assert(false);
                            }
                            let k = choose|k: int|
                                0 <= k < planned_deletes@.len() && is_path_ancestor(
                                    #[trigger] planned_deletes@[k]@,
                                    dest_path@,
                                );
                            assert(seq_contains_str(planned_deletes@, planned_deletes@[k]@));
                            assert(has_delete(plan.actions@, planned_deletes@[k]@));
                            let d = choose|d: int|
                                0 <= d < plan.actions@.len() && #[trigger] plan.actions@[d]
                                    is Delete && plan.actions@[d].spec_path().unwrap()@
                                    == planned_deletes@[k]@;
                            assert(deleted_or_under_deleted(plan.actions@, dests[i2 as int].0@));
                        }
                    }
                    if src_len == 0 {
                        assert(srcs.len() == 0);
                        if !in_src {
                            assert(planned_deletes@.len() == 0);
                            assert(!covered_by(planned_deletes@, dest_path@));
                            assert(false);
                        }
                        src_tree.lemma_contains_at(dests[i2 as int].0@);
                        assert(false);
                    }
                }
            }
            i2 = i2 + 1;
        }
    }
    proof {
        if src_len == 0 && !allow_deletes {
            assert(plan.actions@.len() == 0);
        }
    }
    let ghost before_sort = plan.actions@;
    plan.sort_by_path();
    proof {
        assert forall|k: int|
            0 <= k < plan.actions@.len() && (#[trigger] plan.actions@[k])
                is Delete implies delete_justified(
            plan.actions@[k].spec_path().unwrap()@,
            *src_tree,
            *dest_tree,
        ) by {
            assert(plan_has(plan.actions@, plan.actions@[k]));
            assert(plan_has(before_sort, plan.actions@[k]));
            let w = choose|w: int|
                0 <= w < before_sort.len() && before_sort[w] == plan.actions@[k];
        }
        assert forall|j: int|
            0 <= j < src_tree.entries@.len() implies plan_has(
            plan.actions@,
            planned_action_for(#[trigger] srcs[j].0@, *src_tree, *dest_tree, checksum),
        ) by {
            assert(plan_has(
                before_sort,
                planned_action_for(srcs[j].0@, *src_tree, *dest_tree, checksum),
            ));
        }
        if allow_deletes {
            assert forall|j: int|
                0 <= j < src_tree.entries@.len() && dest_blocks_ancestor(
                    *dest_tree,
                    #[trigger] srcs[j].0@,
                ) implies ancestor_delete_planned(plan.actions@, srcs[j].0@, *dest_tree) by {
                let d = choose|d: int|
                    0 <= d < before_sort.len() && #[trigger] before_sort[d] is Delete
                        && is_path_ancestor(before_sort[d].spec_path().unwrap()@, srcs[j].0@)
                        && dest_tree.spec_contains(before_sort[d].spec_path().unwrap()@);
                assert(plan_has(before_sort, before_sort[d]));
                assert(plan_has(plan.actions@, before_sort[d]));
                let w = choose|w: int|
                    0 <= w < plan.actions@.len() && plan.actions@[w] == before_sort[d];
                assert(plan.actions@[w] is Delete);
            }
            assert forall|j: int|
                0 <= j < src_tree.entries@.len() && dest_blocks_below(
                    *dest_tree,
                    #[trigger] srcs[j].0@,
                ) implies has_delete(plan.actions@, srcs[j].0@) by {
                let d = choose|d: int|
                    0 <= d < before_sort.len() && #[trigger] before_sort[d] is Delete
                        && before_sort[d].spec_path().unwrap()@ == srcs[j].0@;
                assert(plan_has(before_sort, before_sort[d]));
                assert(plan_has(plan.actions@, before_sort[d]));
                let w = choose|w: int|
                    0 <= w < plan.actions@.len() && plan.actions@[w] == before_sort[d];
                assert(plan.actions@[w] is Delete);
            }
            assert forall|j: int|
                0 <= j < dest_tree.entries@.len() && !src_tree.spec_contains(
                    #[trigger] dests[j].0@,
                ) implies deleted_or_under_deleted(plan.actions@, dests[j].0@) by {
                if has_delete(before_sort, dests[j].0@) {
                    let d = choose|d: int|
                        0 <= d < before_sort.len() && #[trigger] before_sort[d] is Delete
                            && before_sort[d].spec_path().unwrap()@ == dests[j].0@;
                    assert(plan_has(before_sort, before_sort[d]));
                    assert(plan_has(plan.actions@, before_sort[d]));
                    let w = choose|w: int|
                        0 <= w < plan.actions@.len() && plan.actions@[w] == before_sort[d];
                    assert(plan.actions@[w] is Delete);
                    assert(has_delete(plan.actions@, dests[j].0@));
                } else {
                    let d = choose|d: int|
                        0 <= d < before_sort.len() && #[trigger] before_sort[d] is Delete
                            && is_path_ancestor(before_sort[d].spec_path().unwrap()@, dests[j].0@);
                    assert(plan_has(before_sort, before_sort[d]));
                    assert(plan_has(plan.actions@, before_sort[d]));
                    let w = choose|w: int|
                        0 <= w < plan.actions@.len() && plan.actions@[w] == before_sort[d];
                    assert(plan.actions@[w] is Delete);
                }
            }
        }
    }
    plan
}

/// Syncing a source onto a destination that already equals it plans no work
/// for any stored path (the content tier needs cached digests, or must be
/// off).
pub proof fn lemma_plan_idempotent_per_path(t: FileTree, p: Seq<char>, checksum: bool)
    requires
        t.spec_contains(p),
        checksum ==> t.spec_get(p)->Some_0.hash is Some,
    ensures
        planned_action_for(p, t, t, checksum) == SyncAction::Skip,
{
    crate::compare::lemma_compare_idempotent(t.spec_get(p)->Some_0, checksum);
}

/// Idempotent sync: a plan built against a destination that already equals
/// the source asks for no transfer and no deletion — every action is a `Skip`.
/// The hypotheses are what `generate_sync_plan` ensures of its result, plus
/// the shapes a second run over an unchanged filesystem gives the trees: the
/// two sides equal, digests cached where the content tier is on, and no stored
/// path lying under another.
pub proof fn lemma_sync_idempotent(plan: DiffPlan, t: FileTree, checksum: bool)
    requires
        t.wf(),
        no_nested_keys(t),
        checksum ==> forall|i: int|
            0 <= i < t.entries@.len() ==> (#[trigger] t.entries@[i].1).hash is Some,
        plan.wf(),
        plan_total(plan.actions@, 0) == planned_totals(t.entries@, t, t, checksum, 0),
        plan_total(plan.actions@, 1) == planned_totals(t.entries@, t, t, checksum, 1),
        count_move(plan.actions@) == 0,
        forall|k: int|
            0 <= k < plan.actions@.len() && (#[trigger] plan.actions@[k]) is Delete
                ==> delete_justified(plan.actions@[k].spec_path().unwrap()@, t, t),
    ensures
        plan.stats.copy_count == 0,
        plan.stats.overwrite_count == 0,
        plan.stats.delete_count == 0,
        plan.stats.total_files == 0,
        plan.stats.total_bytes == 0,
        forall|k: int| 0 <= k < plan.actions@.len() ==> (#[trigger] plan.actions@[k]) is Skip,
{
    assert(t.entries@.subrange(0, t.entries@.len() as int) =~= t.entries@);
    lemma_planned_totals_idempotent(t, checksum, 0, t.entries@.len() as int);
    lemma_planned_totals_idempotent(t, checksum, 1, t.entries@.len() as int);
    assert forall|k: int|
        0 <= k < plan.actions@.len() implies !((#[trigger] plan.actions@[k]) is Delete) by {
        if plan.actions@[k] is Delete {
            let p = plan.actions@[k].spec_path().unwrap()@;
            assert(delete_justified(p, t, t));
            if t.spec_contains(p) {
                t.lemma_contains_at(p);
                let i = choose|i: int|
                    0 <= i < t.entries@.len() && #[trigger] t.entries@[i].0@ == p;
                if exists|j: int|
                    0 <= j < t.entries@.len() && is_path_ancestor(p, #[trigger] t.entries@[j].0@) {
                    let j = choose|j: int|
                        0 <= j < t.entries@.len() && is_path_ancestor(
                            p,
                            #[trigger] t.entries@[j].0@,
                        );
                    assert(is_path_ancestor(t.entries@[i].0@, t.entries@[j].0@));
                    assert(false);
                }
            }
        }
    }
    crate::plan::lemma_counts_members(plan.actions@);
    crate::plan::lemma_plan_total_bounds(plan.actions@, 0);
    crate::plan::lemma_plan_total_bounds(plan.actions@, 1);
    lemma_all_skip(plan.actions@);
}

proof fn lemma_planned_totals_idempotent(t: FileTree, checksum: bool, tag: int, n: int)
    requires
        t.wf(),
        checksum ==> forall|i: int|
            0 <= i < t.entries@.len() ==> (#[trigger] t.entries@[i].1).hash is Some,
        tag == 0 || tag == 1 || tag == 4,
        0 <= n <= t.entries@.len(),
    ensures
        planned_totals(t.entries@.subrange(0, n), t, t, checksum, tag) == 0,
    decreases n,
{
    if n == 0 {
        assert(t.entries@.subrange(0, 0) =~= Seq::<(String, crate::entry::FileEntry)>::empty());
    } else {
        lemma_planned_totals_idempotent(t, checksum, tag, n - 1);
        lemma_planned_totals_step(t.entries@, t, t, checksum, tag, n - 1);
        t.lemma_wf_key_at(n - 1);
        crate::compare::lemma_compare_idempotent(t.entries@[n - 1].1, checksum);
        assert(planned_action_for(t.entries@[n - 1].0@, t, t, checksum) == SyncAction::Skip);
    }
}

proof fn lemma_all_skip(s: Seq<SyncAction>)
    requires
        plan_total(s, 0) == 0,
        plan_total(s, 1) == 0,
        plan_total(s, 2) == 0,
        plan_total(s, 5) == 0,
    ensures
        forall|k: int| 0 <= k < s.len() ==> (#[trigger] s[k]) is Skip,
        plan_total(s, 4) == 0,
    decreases s.len(),
{
    if s.len() > 0 {
        let d = s.drop_last();
        crate::plan::lemma_plan_total_bounds(d, 0);
        crate::plan::lemma_plan_total_bounds(d, 1);
        crate::plan::lemma_plan_total_bounds(d, 2);
        crate::plan::lemma_plan_total_bounds(d, 5);
        assert(plan_total(s, 0) == plan_total(d, 0) + crate::plan::action_weight(s.last(), 0));
        assert(plan_total(s, 1) == plan_total(d, 1) + crate::plan::action_weight(s.last(), 1));
        assert(plan_total(s, 2) == plan_total(d, 2) + crate::plan::action_weight(s.last(), 2));
        assert(plan_total(s, 5) == plan_total(d, 5) + crate::plan::action_weight(s.last(), 5));
        assert(crate::plan::action_weight(s.last(), 0) >= 0);
        assert(crate::plan::action_weight(s.last(), 1) >= 0);
        assert(crate::plan::action_weight(s.last(), 2) >= 0);
        assert(crate::plan::action_weight(s.last(), 5) >= 0);
        lemma_all_skip(d);
        assert(s.last() is Skip);
        assert forall|k: int| 0 <= k < s.len() implies (#[trigger] s[k]) is Skip by {
            if k < s.len() - 1 {
                assert(s[k] == d[k]);
            } else {
                assert(s[k] == s.last());
            }
        }
        assert(plan_total(s, 4) == plan_total(d, 4) + crate::plan::action_weight(s.last(), 4));
    }
}

/// In a sorted plan, a `Delete` that clears a path comes before any transfer
/// into that path or below it.
pub proof fn lemma_clearing_delete_first(s: Seq<SyncAction>, i: int, j: int)
    requires
        actions_sorted(s),
        0 <= i < s.len(),
        0 <= j < s.len(),
        s[i] is Delete,
        s[j].spec_requires_transfer(),
        s[i].spec_path().unwrap()@ == s[j].spec_path().unwrap()@ || is_path_ancestor(
            s[i].spec_path().unwrap()@,
            s[j].spec_path().unwrap()@,
        ),
    ensures
        i < j,
{
    let pi = s[i].spec_path().unwrap();
    let pj = s[j].spec_path().unwrap();
    if j < i {
        assert(crate::plan::action_le(s[j], s[i]));
        if pi@ != pj@ {
            crate::textutil::lemma_lex_le_prefix(pi@, pj@);
        }
    } else if j == i {
        assert(s[i] is Delete && s[i].spec_requires_transfer());
    }
}

/// Conflict ordering: in a sorted plan that both deletes a blocking path and
/// transfers into that path or below it, the clearing `Delete` stands before
/// the transfer.
pub proof fn lemma_conflict_cleared_before_transfer(s: Seq<SyncAction>, p: Seq<char>, q: Seq<char>)
    requires
        actions_sorted(s),
        has_delete(s, p),
        p == q || is_path_ancestor(p, q),
        exists|k: int|
            0 <= k < s.len() && (#[trigger] s[k]).spec_requires_transfer()
                && s[k].spec_path().unwrap()@ == q,
    ensures
        exists|i: int, j: int|
            0 <= i < j < s.len() && (#[trigger] s[i]) is Delete && s[i].spec_path().unwrap()@ == p
                && (#[trigger] s[j]).spec_requires_transfer() && s[j].spec_path().unwrap()@ == q,
{
    let i = choose|i: int|
        0 <= i < s.len() && #[trigger] s[i] is Delete && s[i].spec_path().unwrap()@ == p;
    let j = choose|j: int|
        0 <= j < s.len() && (#[trigger] s[j]).spec_requires_transfer()
            && s[j].spec_path().unwrap()@ == q;
    lemma_clearing_delete_first(s, i, j);
}

} // verus!
