//! Path model. The library handles paths as plain strings: relative paths use
//! `/` between components and have no leading or trailing separator; the empty
//! string is the degenerate path of a single-file tree. Absolute paths keep a
//! leading `/`. These helpers give the component-level operations the planner
//! and the trash bookkeeping need.

use vstd::prelude::*;

verus! {

/// `anc` names a directory strictly above `p`: it is a proper prefix of `p`
/// that ends exactly at a separator.
pub open spec fn is_path_ancestor(anc: Seq<char>, p: Seq<char>) -> bool {
    0 < anc.len() && anc.len() < p.len() && p.subrange(0, anc.len() as int) == anc && p[anc.len() as int]
        == '/'
}

/// Component-wise prefix test: `p` equals `prefix`, or lies strictly below it.
/// A prefix that itself ends in a separator only needs the characters to match.
pub open spec fn path_starts_with(p: Seq<char>, prefix: Seq<char>) -> bool {
    p == prefix || is_path_ancestor(prefix, p) || (0 < prefix.len() && prefix.len() <= p.len()
        && prefix[prefix.len() - 1] == '/' && p.subrange(0, prefix.len() as int) == prefix)
}

/// Join two path fragments with a separator; an empty side disappears.
pub open spec fn spec_path_join(a: Seq<char>, b: Seq<char>) -> Seq<char> {
    if a.len() == 0 {
        b
    } else if b.len() == 0 {
        a
    } else {
        a + seq!['/'] + b
    }
}

/// Index of the last separator in `p`, or -1 when `p` has none.
pub open spec fn last_sep(p: Seq<char>) -> int
    decreases p.len(),
{
    if p.len() == 0 {
        -1
    } else if p[p.len() - 1] == '/' {
        p.len() - 1
    } else {
        last_sep(p.drop_last())
    }
}

/// Everything before the last separator; empty when there is none.
pub open spec fn spec_parent(p: Seq<char>) -> Seq<char> {
    if last_sep(p) >= 0 {
        p.subrange(0, last_sep(p))
    } else {
        Seq::empty()
    }
}

/// Everything after the last separator (the whole of `p` when there is none).
pub open spec fn spec_file_name(p: Seq<char>) -> Seq<char> {
    p.subrange(last_sep(p) + 1, p.len() as int)
}

pub proof fn lemma_last_sep_bounds(p: Seq<char>)
    ensures
        -1 <= last_sep(p) < p.len(),
        last_sep(p) >= 0 ==> p[last_sep(p)] == '/',
        forall|k: int| last_sep(p) < k < p.len() ==> p[k] != '/',
    decreases p.len(),
{
    if p.len() == 0 {
    } else if p[p.len() - 1] == '/' {
    } else {
        lemma_last_sep_bounds(p.drop_last());
        assert forall|k: int| last_sep(p) < k < p.len() implies p[k] != '/' by {
            if k < p.len() - 1 {
                assert(p.drop_last()[k] == p[k]);
            }
        }
    }
}

proof fn lemma_last_sep_is(p: Seq<char>, j: int)
    requires
        0 <= j < p.len(),
        p[j] == '/',
        forall|k: int| j < k < p.len() ==> p[k] != '/',
    ensures
        last_sep(p) == j,
    decreases p.len(),
{
    if j == p.len() - 1 {
    } else {
        assert(p[p.len() - 1] != '/');
        assert(forall|k: int|
            0 <= k < p.len() - 1 ==> #[trigger] p.drop_last()[k] == p[k]);
        lemma_last_sep_is(p.drop_last(), j);
    }
}

/// Index of the last `/` in `p`, if any.
pub fn find_last_sep(p: &str) -> (r: Option<usize>)
    ensures
        match r {
            Some(i) => last_sep(p@) == i as int,
            None => last_sep(p@) == -1,
        },
{
    proof {
        lemma_last_sep_bounds(p@);
    }
    let len = p.unicode_len();
    let mut i: usize = len;
    while i > 0
        invariant
            i <= len,
            len == p@.len(),
            forall|k: int| i <= k < len ==> p@[k] != '/',
        decreases i,
    {
        if p.get_char(i - 1) == '/' {
            proof {
                lemma_last_sep_is(p@, i - 1);
            }
            return Some(i - 1);
        }
        i = i - 1;
    }
    None
}

/// Join two path fragments with a separator; an empty side disappears.
pub fn path_join(a: &str, b: &str) -> (r: String)
    ensures
        r@ == spec_path_join(a@, b@),
{
    if a.unicode_len() == 0 {
        b.to_owned()
    } else if b.unicode_len() == 0 {
        a.to_owned()
    } else {
        let mut r = a.to_owned();
        r.append("/");
        r.append(b);
        proof {
            reveal_strlit("/");
            assert("/"@ =~= seq!['/']);
        }
        r
    }
}

/// The directory part of `p` (empty when `p` has a single component).
pub fn parent_of(p: &str) -> (r: String)
    ensures
        r@ == spec_parent(p@),
{
    proof {
        lemma_last_sep_bounds(p@);
    }
    match find_last_sep(p) {
        Some(i) => {
            let s = p.substring_char(0, i);
            s.to_owned()
        },
        None => {
            proof {
                assert(""@ =~= Seq::<char>::empty()) by {
                    reveal_strlit("");
                }
            }
            "".to_owned()
        },
    }
}

/// The final component of `p` (the whole of `p` when it has one component).
pub fn file_name_of(p: &str) -> (r: String)
    ensures
        r@ == spec_file_name(p@),
{
    proof {
        lemma_last_sep_bounds(p@);
    }
    let len = p.unicode_len();
    match find_last_sep(p) {
        Some(i) => {
            let s = p.substring_char(i + 1, len);
            s.to_owned()
        },
        None => p.to_owned(),
    }
}

/// Whether `anc` names a directory strictly above `p`.
pub fn is_ancestor_of(anc: &str, p: &str) -> (r: bool)
    ensures
        r == is_path_ancestor(anc@, p@),
{
    let alen = anc.unicode_len();
    let plen = p.unicode_len();
    if alen == 0 || alen >= plen {
        return false;
    }
    let mut i: usize = 0;
    while i < alen
        invariant
            i <= alen,
            0 < alen < plen,
            alen == anc@.len(),
            plen == p@.len(),
            forall|k: int| 0 <= k < i ==> p@[k] == anc@[k],
        decreases alen - i,
    {
        if p.get_char(i) != anc.get_char(i) {
            proof {
                assert(p@.subrange(0, alen as int)[i as int] != anc@[i as int]);
            }
            return false;
        }
        i = i + 1;
    }
    proof {
        assert(p@.subrange(0, alen as int) =~= anc@);
    }
    p.get_char(alen) == '/'
}

/// Component-wise prefix test on path strings.
pub fn starts_with_path(p: &str, prefix: &str) -> (r: bool)
    ensures
        r == path_starts_with(p@, prefix@),
{
    let plen = p.unicode_len();
    let xlen = prefix.unicode_len();
    if xlen > plen {
        return false;
    }
    let mut i: usize = 0;
    while i < xlen
        invariant
            i <= xlen,
            xlen <= plen,
            plen == p@.len(),
            xlen == prefix@.len(),
            forall|k: int| 0 <= k < i ==> p@[k] == prefix@[k],
        decreases xlen - i,
    {
        if p.get_char(i) != prefix.get_char(i) {
            proof {
                assert(p@ != prefix@);
                assert(p@.subrange(0, xlen as int)[i as int] != prefix@[i as int]);
            }
            return false;
        }
        i = i + 1;
    }
    proof {
        assert(p@.subrange(0, xlen as int) =~= prefix@);
    }
    if xlen == plen {
        proof {
            assert(p@ =~= prefix@);
        }
        true
    } else if xlen == 0 {
        false
    } else {
        prefix.get_char(xlen - 1) == '/' || p.get_char(xlen) == '/'
    }
}

/// All strict ancestors of `p`, nearest (longest) first.
pub fn ancestors_of(p: &str) -> (r: Vec<String>)
    ensures
        forall|k: int| 0 <= k < r.len() ==> is_path_ancestor(#[trigger] r[k]@, p@),
        forall|j: int|
            0 < j < p@.len() && p@[j] == '/' ==> exists|k: int|
                0 <= k < r.len() && #[trigger] r[k]@ == p@.subrange(0, j),
        forall|k1: int, k2: int| 0 <= k1 < k2 < r.len() ==> r[k1]@.len() > r[k2]@.len(),
{
    let len = p.unicode_len();
    let mut r: Vec<String> = Vec::new();
    let mut i: usize = len;
    while i > 1
        invariant
            i <= len,
            len == p@.len(),
            forall|k: int| 0 <= k < r.len() ==> is_path_ancestor(#[trigger] r[k]@, p@),
            forall|j: int|
                i <= j < len && 0 < j && p@[j] == '/' ==> exists|k: int|
                    0 <= k < r.len() && #[trigger] r[k]@ == p@.subrange(0, j),
            forall|k: int| 0 <= k < r.len() ==> i < r[k]@.len() + 1,
            forall|k1: int, k2: int| 0 <= k1 < k2 < r.len() ==> r[k1]@.len() > r[k2]@.len(),
        decreases i,
    {
        i = i - 1;
        if p.get_char(i) == '/' {
            let s = p.substring_char(0, i);
            let owned = s.to_owned();
            proof {
                assert(owned@ == p@.subrange(0, i as int));
            }
            let ghost prev = r@;
            r.push(owned);
            proof {
                assert(r[r.len() - 1]@ == p@.subrange(0, i as int));
                assert forall|j: int|
                    i <= j < len && 0 < j && p@[j] == '/' implies exists|k: int|
                    0 <= k < r.len() && #[trigger] r[k]@ == p@.subrange(0, j) by {
                    if j == i {
                        assert(r[r.len() - 1]@ == p@.subrange(0, j));
                    } else {
                        let k0 = choose|k: int| 0 <= k < prev.len() && prev[k]@ == p@.subrange(0, j);
                        assert(r[k0]@ == p@.subrange(0, j));
                    }
                }
            }
        }
    }
    r
}

/// Index of the first separator in `p`, or -1 when `p` has none.
pub open spec fn first_sep(p: Seq<char>) -> int
    decreases p.len(),
{
    if p.len() == 0 {
        -1
    } else if p[0] == '/' {
        0
    } else {
        let rest = first_sep(p.drop_first());
        if rest < 0 {
            -1
        } else {
            rest + 1
        }
    }
}

proof fn lemma_first_sep_bounds(p: Seq<char>)
    ensures
        -1 <= first_sep(p) < p.len(),
        first_sep(p) >= 0 ==> p[first_sep(p)] == '/',
        forall|k: int| 0 <= k < first_sep(p) ==> p[k] != '/',
        first_sep(p) == -1 ==> forall|k: int| 0 <= k < p.len() ==> p[k] != '/',
    decreases p.len(),
{
    if p.len() == 0 {
    } else if p[0] == '/' {
    } else {
        lemma_first_sep_bounds(p.drop_first());
        let rest = first_sep(p.drop_first());
        if rest >= 0 {
            assert(p[rest + 1] == p.drop_first()[rest]);
            assert forall|k: int| 0 <= k < rest + 1 implies p[k] != '/' by {
                if k > 0 {
                    assert(p.drop_first()[k - 1] == p[k]);
                }
            }
        } else {
            assert forall|k: int| 0 <= k < p.len() implies p[k] != '/' by {
                if k > 0 {
                    assert(p.drop_first()[k - 1] == p[k]);
                }
            }
        }
    }
}

proof fn lemma_first_sep_is(p: Seq<char>, j: int)
    requires
        0 <= j < p.len(),
        p[j] == '/',
        forall|k: int| 0 <= k < j ==> p[k] != '/',
    ensures
        first_sep(p) == j,
    decreases p.len(),
{
    if j == 0 {
    } else {
        assert(p[0] != '/');
        assert(forall|k: int|
            0 < k < p.len() ==> #[trigger] p.drop_first()[k - 1] == p[k]);
        lemma_first_sep_is(p.drop_first(), j - 1);
    }
}

/// Index of the first `/` in `p`, if any.
fn find_first_sep(p: &str) -> (r: Option<usize>)
    ensures
        match r {
            Some(i) => first_sep(p@) == i as int,
            Option::None => first_sep(p@) == -1,
        },
{
    proof {
        lemma_first_sep_bounds(p@);
    }
    let len = p.unicode_len();
    let mut i: usize = 0;
    while i < len
        invariant
            i <= len,
            len == p@.len(),
            forall|k: int| 0 <= k < i ==> p@[k] != '/',
        decreases len - i,
    {
        if p.get_char(i) == '/' {
            proof {
                lemma_first_sep_is(p@, i as int);
            }
            return Some(i);
        }
        i = i + 1;
    }
    None
}

/// The non-empty, separator-free components of `p`, in order.
pub open spec fn spec_components(p: Seq<char>) -> Seq<Seq<char>>
    decreases p.len(),
{
    if p.len() == 0 {
        Seq::empty()
    } else {
        let j = first_sep(p);
        if j == 0 {
            spec_components(p.skip(1))
        } else if 0 < j < p.len() {
            seq![p.subrange(0, j)] + spec_components(p.skip(j + 1))
        } else {
            seq![p]
        }
    }
}

/// Split a path into its non-empty components.
pub fn split_components(p: &str) -> (r: Vec<String>)
    ensures
        r@.len() == spec_components(p@).len(),
        forall|i: int| 0 <= i < r@.len() ==> r@[i]@ == spec_components(p@)[i],
    decreases p@.len(),
{
    proof {
        lemma_first_sep_bounds(p@);
    }
    let len = p.unicode_len();
    if len == 0 {
        return Vec::new();
    }
    match find_first_sep(p) {
        Option::None => {
            let mut v: Vec<String> = Vec::new();
            v.push(p.to_owned());
            v
        },
        Some(j) => {
            if j == 0 {
                let rest = p.substring_char(1, len);
                proof {
                    assert(rest@ =~= p@.skip(1));
                }
                split_components(rest)
            } else {
                let head = p.substring_char(0, j);
                let rest = p.substring_char(j + 1, len);
                proof {
                    assert(rest@ =~= p@.skip(j + 1));
                }
                let mut v: Vec<String> = Vec::new();
                v.push(head.to_owned());
                let mut tail = split_components(rest);
                let ghost head_view = v@;
                let ghost tail_view = tail@;
                v.append(&mut tail);
                proof {
                    assert(v@ =~= head_view + tail_view);
                    assert forall|i: int| 0 <= i < v@.len() implies v@[i]@ == spec_components(
                        p@,
                    )[i] by {
                        if i > 0 {
                            assert(v@[i] == tail_view[i - 1]);
                            assert(spec_components(p@)[i] == spec_components(p@.skip(j + 1))[i
                                - 1]);
                        }
                    }
                }
                v
            }
        },
    }
}

/// One step of lexical normalization: `.` vanishes, `..` removes the segment
/// above it where one exists (and is kept where none does), anything else is
/// kept.
pub open spec fn norm_step(acc: Seq<Seq<char>>, comp: Seq<char>) -> Seq<Seq<char>> {
    if comp == "."@ {
        acc
    } else if comp == ".."@ {
        if acc.len() > 0 {
            acc.drop_last()
        } else {
            acc.push(comp)
        }
    } else {
        acc.push(comp)
    }
}

/// Lexical normalization over a component list.
pub open spec fn norm_fold(comps: Seq<Seq<char>>) -> Seq<Seq<char>>
    decreases comps.len(),
{
    if comps.len() == 0 {
        Seq::empty()
    } else {
        norm_step(norm_fold(comps.drop_last()), comps.last())
    }
}

/// Components joined with separators.
pub open spec fn join_segments(segs: Seq<Seq<char>>) -> Seq<char>
    decreases segs.len(),
{
    if segs.len() == 0 {
        Seq::empty()
    } else if segs.len() == 1 {
        segs[0]
    } else {
        join_segments(segs.drop_last()) + seq!['/'] + segs.last()
    }
}

/// The lexical normalization of a path: its components with `.` and `..`
/// folded away, rejoined, keeping a leading separator.
pub open spec fn spec_normalize(p: Seq<char>) -> Seq<char> {
    let segs = norm_fold(spec_components(p));
    if p.len() > 0 && p[0] == '/' {
        seq!['/'] + join_segments(segs)
    } else {
        join_segments(segs)
    }
}

/// Normalize `.` and `..` path components without touching filesystem state.
/// This is lexical normalization; symlinks are intentionally not resolved.
#[verifier::loop_isolation(false)]
pub fn normalize_path(path: &str) -> (r: String)
    ensures
        r@ == spec_normalize(path@),
{
    let comps = split_components(path);
    let mut segs: Vec<String> = Vec::new();
    let n = comps.len();
    let mut i: usize = 0;
    proof {
        assert(spec_components(path@).subrange(0, 0) =~= Seq::<Seq<char>>::empty());
        assert(segs@.map_values(|s: String| s@) =~= Seq::<Seq<char>>::empty());
    }
    while i < n
        invariant
            i <= n,
            n == comps@.len(),
            segs@.map_values(|s: String| s@) == norm_fold(
                spec_components(path@).subrange(0, i as int),
            ),
        decreases n - i,
    {
        let ghost pre = segs@;
        proof {
            assert(spec_components(path@).subrange(0, i + 1).drop_last() =~= spec_components(
                path@,
            ).subrange(0, i as int));
            assert(spec_components(path@).subrange(0, i + 1).last() == comps@[i as int]@);
        }
        if crate::textutil::str_eq(comps[i].as_str(), ".") {
        } else if crate::textutil::str_eq(comps[i].as_str(), "..") {
            if segs.len() > 0 {
                let _ = segs.pop();
                proof {
                    assert(segs@.map_values(|s: String| s@) =~= pre.map_values(
                        |s: String| s@,
                    ).drop_last());
                }
            } else {
                segs.push(comps[i].clone());
                proof {
                    assert(segs@.map_values(|s: String| s@) =~= pre.map_values(
                        |s: String| s@,
                    ).push(comps@[i as int]@));
                }
            }
        } else {
            segs.push(comps[i].clone());
            proof {
                assert(segs@.map_values(|s: String| s@) =~= pre.map_values(
                    |s: String| s@,
                ).push(comps@[i as int]@));
            }
        }
        i = i + 1;
    }
    proof {
        assert(spec_components(path@).subrange(0, n as int) =~= spec_components(path@));
    }
    let rooted = path.unicode_len() > 0 && path.get_char(0) == '/';
    let mut out = if rooted {
        "/".to_owned()
    } else {
        "".to_owned()
    };
    proof {
        reveal_strlit("/");
        reveal_strlit("");
        assert("/"@ =~= seq!['/']);
        assert(""@ =~= Seq::<char>::empty());
    }
    let ghost base = out@;
    let ghost seg_views = segs@.map_values(|s: String| s@);
    let m = segs.len();
    let mut k: usize = 0;
    proof {
        assert(seg_views.subrange(0, 0) =~= Seq::<Seq<char>>::empty());
    }
    while k < m
        invariant
            k <= m,
            m == segs@.len(),
            seg_views == segs@.map_values(|s: String| s@),
            out@ == base + join_segments(seg_views.subrange(0, k as int)),
        decreases m - k,
    {
        if k > 0 {
            out.append("/");
        }
        out.append(segs[k].as_str());
        proof {
            assert(seg_views.subrange(0, k + 1).drop_last() =~= seg_views.subrange(0, k as int));
            assert(seg_views.subrange(0, k + 1).last() == segs@[k as int]@);
            if k == 0 {
                assert(seg_views.subrange(0, 1).len() == 1);
                assert(out@ =~= base + join_segments(seg_views.subrange(0, 1)));
            } else {
                assert(out@ =~= base + join_segments(seg_views.subrange(0, k + 1)));
            }
        }
        k = k + 1;
    }
    proof {
        assert(seg_views.subrange(0, m as int) =~= seg_views);
        assert(out@ =~= spec_normalize(path@));
    }
    out
}

} // verus!
