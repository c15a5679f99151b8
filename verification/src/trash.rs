//! Trash bookkeeping: where a deleted entry goes under the destination's
//! trash area, how name collisions inside a snapshot are resolved, and the
//! manifest that records each deletion.

use vstd::prelude::*;
use crate::pathutil::spec_file_name;
use crate::pathutil::spec_parent;
use crate::pathutil::spec_path_join;
use crate::textutil::digit_char;
use crate::textutil::seq_contains_str;
use crate::textutil::spec_decimal;

verus! {

/// One deleted file, as recorded in a snapshot's manifest.
#[derive(Debug, PartialEq)]
pub struct DeletedFile {
    /// Path relative to the destination root, the original location.
    pub original_path: String,
    /// Path relative to the snapshot directory where the file now sits.
    pub trash_path: String,
    /// When the file was deleted, as an ISO-8601 timestamp with timezone.
    pub deleted_at: String,
    /// Size of the deleted file in bytes.
    pub size: u64,
}

impl Clone for DeletedFile {
    fn clone(&self) -> (r: Self)
        ensures
            r == *self,
    {
        DeletedFile {
            original_path: self.original_path.clone(),
            trash_path: self.trash_path.clone(),
            deleted_at: self.deleted_at.clone(),
            size: self.size,
        }
    }
}

/// The manifest of one trash snapshot: the files deleted into it, in order.
#[derive(Debug, PartialEq)]
pub struct TrashManifest {
    /// The recorded deletions.
    pub files: Vec<DeletedFile>,
}

impl TrashManifest {
    /// Create an empty manifest.
    pub fn new() -> (r: Self)
        ensures
            r.files@.len() == 0,
    {
        TrashManifest { files: Vec::new() }
    }

    /// Record one more deletion.
    pub fn add_file(&mut self, file: DeletedFile)
        ensures
            final(self).files@ == old(self).files@.push(file),
    {
        self.files.push(file);
    }
}

impl Default for TrashManifest {
    fn default() -> (r: Self)
        ensures
            r.files@.len() == 0,
    {
        TrashManifest { files: Vec::new() }
    }
}

/// The snapshot directory for deletions stamped `timestamp`:
/// `<dest_root>/.kopy_trash/<timestamp>`.
pub fn trash_snapshot_dir(dest_root: &String, timestamp: &String) -> (r: String)
    ensures
        r@ == spec_path_join(spec_path_join(dest_root@, ".kopy_trash"@), timestamp@),
{
    let trash_root = crate::pathutil::path_join(dest_root.as_str(), ".kopy_trash");
    crate::pathutil::path_join(trash_root.as_str(), timestamp.as_str())
}

/// The `n`-th name candidate for a path inside a snapshot: the path itself
/// first, then its basename with `.~kopy<n>` appended (an empty basename
/// falls back to `item`).
pub open spec fn spec_trash_candidate(rel: Seq<char>, n: int) -> Seq<char> {
    if n == 0 {
        rel
    } else {
        let name = if spec_file_name(rel).len() == 0 {
            "item"@
        } else {
            spec_file_name(rel)
        };
        spec_path_join(spec_parent(rel), name + ".~kopy"@ + spec_decimal(n as nat))
    }
}

/// Build the `n`-th candidate.
pub fn trash_candidate(relative_path: &String, n: u64) -> (r: String)
    ensures
        r@ == spec_trash_candidate(relative_path@, n as int),
{
    if n == 0 {
        return relative_path.clone();
    }
    let parent = crate::pathutil::parent_of(relative_path.as_str());
    let file_name = crate::pathutil::file_name_of(relative_path.as_str());
    let mut name = if file_name.unicode_len() == 0 {
        "item".to_owned()
    } else {
        file_name
    };
    name.append(".~kopy");
    let num = crate::textutil::u64_to_string(n);
    name.append(num.as_str());
    crate::pathutil::path_join(parent.as_str(), name.as_str())
}

proof fn lemma_decimal_len_pos(n: nat)
    ensures
        spec_decimal(n).len() >= 1,
    decreases n,
{
    if n >= 10 {
        lemma_decimal_len_pos(n / 10);
    }
}

proof fn lemma_decimal_injective(m: nat, n: nat)
    requires
        spec_decimal(m) == spec_decimal(n),
    ensures
        m == n,
    decreases m,
{
    lemma_decimal_len_pos(m);
    lemma_decimal_len_pos(n);
    if m < 10 && n < 10 {
        assert(spec_decimal(m)[0] == digit_char(m));
        assert(spec_decimal(n)[0] == digit_char(n));
        assert(digit_char(m) == digit_char(n));
        assert(m == n);
    } else if m < 10 {
        lemma_decimal_len_pos(n / 10);
        assert(spec_decimal(n).len() >= 2);
        assert(spec_decimal(m).len() == 1);
    } else if n < 10 {
        lemma_decimal_len_pos(m / 10);
        assert(spec_decimal(m).len() >= 2);
        assert(spec_decimal(n).len() == 1);
    } else {
        assert(spec_decimal(m) == spec_decimal(m / 10).push(digit_char(m % 10)));
        assert(spec_decimal(n) == spec_decimal(n / 10).push(digit_char(n % 10)));
        assert(spec_decimal(m).drop_last() =~= spec_decimal(m / 10));
        assert(spec_decimal(n).drop_last() =~= spec_decimal(n / 10));
        assert(spec_decimal(m).last() == digit_char(m % 10));
        assert(spec_decimal(n).last() == digit_char(n % 10));
        lemma_decimal_injective(m / 10, n / 10);
        assert(digit_char(m % 10) == digit_char(n % 10));
        assert(m % 10 == n % 10);
    }
}

/// Distinct attempts give distinct candidate names.
pub proof fn lemma_trash_candidates_distinct(rel: Seq<char>, m: int, n: int)
    requires
        0 <= m < n,
    ensures
        spec_trash_candidate(rel, m) != spec_trash_candidate(rel, n),
{
    let cn = spec_trash_candidate(rel, n);
    let fname = spec_file_name(rel);
    let name = if fname.len() == 0 {
        "item"@
    } else {
        fname
    };
    let parent = spec_parent(rel);
    lemma_decimal_len_pos(n as nat);
    reveal_strlit("item");
    reveal_strlit(".~kopy");
    assert("item"@.len() == 4);
    assert(".~kopy"@.len() == 6);
    assert(name.len() > 0);
    let stem = name + ".~kopy"@;
    let pfx = if parent.len() == 0 {
        stem
    } else {
        parent + seq!['/'] + stem
    };
    assert(cn =~= pfx + spec_decimal(n as nat));
    crate::pathutil::lemma_last_sep_bounds(rel);
    let j = crate::pathutil::last_sep(rel);
    if m == 0 {
        // Every suffixed candidate is strictly longer than the path itself.
        if j == -1 {
            assert(fname =~= rel);
            assert(parent.len() == 0);
            assert(cn.len() > rel.len());
        } else {
            assert(parent.len() == j);
            assert(fname.len() == rel.len() - j - 1);
            assert(cn.len() > rel.len());
        }
    } else {
        lemma_decimal_len_pos(m as nat);
        let cm = spec_trash_candidate(rel, m);
        assert(cm =~= pfx + spec_decimal(m as nat));
        if cm == cn {
            assert(cm.len() == pfx.len() + spec_decimal(m as nat).len());
            assert(cn.len() == pfx.len() + spec_decimal(n as nat).len());
            assert(spec_decimal(m as nat).len() == spec_decimal(n as nat).len());
            assert(spec_decimal(m as nat) =~= cm.subrange(
                pfx.len() as int,
                cm.len() as int,
            ));
            assert(spec_decimal(n as nat) =~= cn.subrange(
                pfx.len() as int,
                cn.len() as int,
            ));
            lemma_decimal_injective(m as nat, n as nat);
        }
    }
}

/// Pick the name a deletion takes inside a snapshot: `relative_path` when that
/// name is free, else the first `.~kopy<n>` candidate not among the occupied
/// names the caller collected from the snapshot.
#[verifier::loop_isolation(false)]
pub fn resolve_unique_trash_path(relative_path: &String, occupied: &Vec<String>) -> (r: (
    u64,
    String,
))
    requires
        occupied@.len() < u64::MAX,
    ensures
        r.1@ == spec_trash_candidate(relative_path@, r.0 as int),
        !seq_contains_str(occupied@, r.1@),
        forall|m: int|
            0 <= m < r.0 ==> seq_contains_str(
                occupied@,
                spec_trash_candidate(relative_path@, m),
            ),
{
    let mut remaining: Vec<String> = Vec::new();
    let occ_len = occupied.len();
    let mut i: usize = 0;
    while i < occ_len
        invariant
            i <= occ_len,
            occ_len == occupied@.len(),
            remaining@.len() == i,
            forall|k: int| 0 <= k < i ==> remaining@[k]@ == occupied@[k]@,
        decreases occ_len - i,
    {
        remaining.push(occupied[i].clone());
        i = i + 1;
    }
    proof {
        assert forall|q: Seq<char>|
            seq_contains_str(remaining@, q) == seq_contains_str(occupied@, q) by {
            if seq_contains_str(remaining@, q) {
                let k = choose|k: int| 0 <= k < remaining@.len() && remaining@[k]@ == q;
                assert(occupied@[k]@ == q);
            }
            if seq_contains_str(occupied@, q) {
                let k = choose|k: int| 0 <= k < occupied@.len() && occupied@[k]@ == q;
                assert(remaining@[k]@ == q);
            }
        }
    }
    let mut n: u64 = 0;
    loop
        invariant
            n <= occupied@.len(),
            occupied@.len() < u64::MAX,
            // whatever remains occupied is occupied in the input
            forall|q: Seq<char>| seq_contains_str(remaining@, q) ==> seq_contains_str(
                occupied@,
                q,
            ),
            // names taken out of `remaining` were earlier candidates
            forall|q: Seq<char>|
                seq_contains_str(occupied@, q) && !seq_contains_str(remaining@, q) ==> exists|
                    m: int,
                |
                    0 <= m < n && q == spec_trash_candidate(relative_path@, m),
            forall|m: int|
                0 <= m < n ==> seq_contains_str(
                    occupied@,
                    spec_trash_candidate(relative_path@, m),
                ),
            remaining@.len() + n <= occupied@.len(),
        decreases remaining@.len(),
    {
        let candidate = trash_candidate(relative_path, n);
        let mut found: Option<usize> = None;
        let rem_len = remaining.len();
        let mut k: usize = 0;
        while k < rem_len
            invariant
                k <= rem_len,
                rem_len == remaining@.len(),
                found is None,
                forall|w: int| 0 <= w < k ==> remaining@[w]@ != candidate@,
            decreases rem_len - k,
        {
            if crate::textutil::str_eq(remaining[k].as_str(), candidate.as_str()) {
                found = Some(k);
                break ;
            }
            k = k + 1;
        }
        match found {
            Option::None => {
                proof {
                    if seq_contains_str(occupied@, candidate@) {
                        if seq_contains_str(remaining@, candidate@) {
                            let w = choose|w: int|
                                0 <= w < remaining@.len() && remaining@[w]@ == candidate@;
                            assert(false);
                        }
                        let m = choose|m: int|
                            0 <= m < n && candidate@ == spec_trash_candidate(relative_path@, m);
                        lemma_trash_candidates_distinct(relative_path@, m, n as int);
                        assert(false);
                    }
                }
                return (n, candidate);
            },
            Some(idx) => {
                let ghost before = remaining@;
                let _ = remaining.remove(idx);
                proof {
                    assert(before[idx as int]@ == candidate@);
                    assert(seq_contains_str(occupied@, candidate@));
                    assert forall|q: Seq<char>|
                        seq_contains_str(remaining@, q) implies seq_contains_str(
                        occupied@,
                        q,
                    ) by {
                        let w = choose|w: int|
                            0 <= w < remaining@.len() && remaining@[w]@ == q;
                        if w < idx {
                            assert(before[w]@ == q);
                        } else {
                            assert(before[w + 1]@ == q);
                        }
                    }
                    assert forall|q: Seq<char>|
                        seq_contains_str(occupied@, q) && !seq_contains_str(
                            remaining@,
                            q,
                        ) implies exists|m: int|
                        0 <= m < n + 1 && q == spec_trash_candidate(relative_path@, m) by {
                        if seq_contains_str(before, q) {
                            if q != candidate@ {
                                let w = choose|w: int|
                                    0 <= w < before.len() && before[w]@ == q;
                                assert(w != idx);
                                if w < idx {
                                    assert(remaining@[w]@ == q);
                                } else {
                                    assert(remaining@[w - 1]@ == q);
                                }
                                assert(false);
                            } else {
                                assert(q == spec_trash_candidate(relative_path@, n as int));
                            }
                        } else {
                            let m = choose|m: int|
                                0 <= m < n && q == spec_trash_candidate(relative_path@, m);
                        }
                    }
                }
                n = n + 1;
            },
        }
    }
}

/// One hexadecimal digit.
pub open spec fn hex_digit(d: nat) -> char {
    if d < 10 {
        digit_char(d)
    } else if d == 10 {
        'a'
    } else if d == 11 {
        'b'
    } else if d == 12 {
        'c'
    } else if d == 13 {
        'd'
    } else if d == 14 {
        'e'
    } else {
        'f'
    }
}

/// How one character appears inside a JSON string literal: quote and backslash
/// are escaped, the named control characters use their short escapes, other
/// control characters use a `\u00XX` escape, and everything else stands as is.
pub open spec fn json_escape_char(c: char) -> Seq<char> {
    if c == '"' {
        seq!['\\', '"']
    } else if c == '\\' {
        seq!['\\', '\\']
    } else if c == '\n' {
        seq!['\\', 'n']
    } else if c == '\r' {
        seq!['\\', 'r']
    } else if c == '\t' {
        seq!['\\', 't']
    } else if (c as nat) < 32 {
        seq!['\\', 'u', '0', '0', hex_digit((c as nat) / 16), hex_digit((c as nat) % 16)]
    } else {
        seq![c]
    }
}

/// A string's characters, escaped for a JSON string literal.
pub open spec fn json_escaped(s: Seq<char>) -> Seq<char>
    decreases s.len(),
{
    if s.len() == 0 {
        Seq::empty()
    } else {
        json_escaped(s.drop_last()) + json_escape_char(s.last())
    }
}

proof fn lemma_json_escaped_step(s: Seq<char>, i: int)
    requires
        0 <= i < s.len(),
    ensures
        json_escaped(s.subrange(0, i + 1)) == json_escaped(s.subrange(0, i)) + json_escape_char(
            s[i],
        ),
{
    assert(s.subrange(0, i + 1).drop_last() =~= s.subrange(0, i));
    assert(s.subrange(0, i + 1).last() == s[i]);
}

fn hex_digit_str(d: u32) -> (r: &'static str)
    requires
        d < 16,
    ensures
        r@ == seq![hex_digit(d as nat)],
{
    proof {
        reveal_strlit("0");
        reveal_strlit("1");
        reveal_strlit("2");
        reveal_strlit("3");
        reveal_strlit("4");
        reveal_strlit("5");
        reveal_strlit("6");
        reveal_strlit("7");
        reveal_strlit("8");
        reveal_strlit("9");
        reveal_strlit("a");
        reveal_strlit("b");
        reveal_strlit("c");
        reveal_strlit("d");
        reveal_strlit("e");
        reveal_strlit("f");
    }
    let r = if d == 0 {
        "0"
    } else if d == 1 {
        "1"
    } else if d == 2 {
        "2"
    } else if d == 3 {
        "3"
    } else if d == 4 {
        "4"
    } else if d == 5 {
        "5"
    } else if d == 6 {
        "6"
    } else if d == 7 {
        "7"
    } else if d == 8 {
        "8"
    } else if d == 9 {
        "9"
    } else if d == 10 {
        "a"
    } else if d == 11 {
        "b"
    } else if d == 12 {
        "c"
    } else if d == 13 {
        "d"
    } else if d == 14 {
        "e"
    } else {
        "f"
    };
    proof {
        assert(r@ =~= seq![hex_digit(d as nat)]);
    }
    r
}

/// Escape a string for use inside a JSON string literal.
#[verifier::loop_isolation(false)]
pub fn json_escape(s: &str) -> (r: String)
    ensures
        r@ == json_escaped(s@),
{
    let mut out = String::new();
    let len = s.unicode_len();
    let mut i: usize = 0;
    proof {
        assert(s@.subrange(0, 0) =~= Seq::<char>::empty());
    }
    while i < len
        invariant
            i <= len,
            len == s@.len(),
            out@ == json_escaped(s@.subrange(0, i as int)),
        decreases len - i,
    {
        let c = s.get_char(i);
        proof {
            lemma_json_escaped_step(s@, i as int);
            reveal_strlit("\\\"");
            reveal_strlit("\\\\");
            reveal_strlit("\\n");
            reveal_strlit("\\r");
            reveal_strlit("\\t");
            reveal_strlit("\\u00");
        }
        if c == '"' {
            out.append("\\\"");
            proof {
                assert(out@ =~= json_escaped(s@.subrange(0, i + 1)));
            }
        } else if c == '\\' {
            out.append("\\\\");
            proof {
                assert(out@ =~= json_escaped(s@.subrange(0, i + 1)));
            }
        } else if c == '\n' {
            out.append("\\n");
            proof {
                assert(out@ =~= json_escaped(s@.subrange(0, i + 1)));
            }
        } else if c == '\r' {
            out.append("\\r");
            proof {
                assert(out@ =~= json_escaped(s@.subrange(0, i + 1)));
            }
        } else if c == '\t' {
            out.append("\\t");
            proof {
                assert(out@ =~= json_escaped(s@.subrange(0, i + 1)));
            }
        } else if (c as u32) < 32 {
            out.append("\\u00");
            let code = c as u32;
            let hi = hex_digit_str(code / 16);
            out.append(hi);
            let lo = hex_digit_str(code % 16);
            out.append(lo);
            proof {
                assert(out@ =~= json_escaped(s@.subrange(0, i + 1)));
            }
        } else {
            let piece = s.substring_char(i, i + 1);
            out.append(piece);
            proof {
                assert(s@.subrange(i as int, i + 1) =~= seq![s@[i as int]]);
                assert(out@ =~= json_escaped(s@.subrange(0, i + 1)));
            }
        }
        i = i + 1;
    }
    proof {
        assert(s@.subrange(0, len as int) =~= s@);
    }
    out
}

/// The JSON object for one recorded deletion, at the manifest's indentation.
pub open spec fn spec_file_json(f: DeletedFile) -> Seq<char> {
    "{\n      \"original_path\": \""@ + json_escaped(f.original_path@)
        + "\",\n      \"trash_path\": \""@ + json_escaped(f.trash_path@)
        + "\",\n      \"deleted_at\": \""@ + json_escaped(f.deleted_at@)
        + "\",\n      \"size\": "@ + spec_decimal(f.size as nat) + "\n    }"@
}

/// The comma-separated, indented list of recorded deletions.
pub open spec fn spec_files_json(files: Seq<DeletedFile>) -> Seq<char>
    decreases files.len(),
{
    if files.len() == 0 {
        Seq::empty()
    } else if files.len() == 1 {
        spec_file_json(files[0])
    } else {
        spec_files_json(files.drop_last()) + ",\n    "@ + spec_file_json(files.last())
    }
}

/// The manifest document: pretty-printed JSON of shape
/// `{"files": [ ... ]}` with two-space indentation.
pub open spec fn spec_manifest_json(files: Seq<DeletedFile>) -> Seq<char> {
    if files.len() == 0 {
        "{\n  \"files\": []\n}"@
    } else {
        "{\n  \"files\": [\n    "@ + spec_files_json(files) + "\n  ]\n}"@
    }
}

fn file_json(f: &DeletedFile) -> (r: String)
    ensures
        r@ == spec_file_json(*f),
{
    proof {
        reveal_strlit("{\n      \"original_path\": \"");
        reveal_strlit("\",\n      \"trash_path\": \"");
        reveal_strlit("\",\n      \"deleted_at\": \"");
        reveal_strlit("\",\n      \"size\": ");
        reveal_strlit("\n    }");
    }
    let mut out = "{\n      \"original_path\": \"".to_owned();
    let orig = json_escape(f.original_path.as_str());
    out.append(orig.as_str());
    out.append("\",\n      \"trash_path\": \"");
    let trash = json_escape(f.trash_path.as_str());
    out.append(trash.as_str());
    out.append("\",\n      \"deleted_at\": \"");
    let at = json_escape(f.deleted_at.as_str());
    out.append(at.as_str());
    out.append("\",\n      \"size\": ");
    let size = crate::textutil::u64_to_string(f.size);
    out.append(size.as_str());
    out.append("\n    }");
    proof {
        assert(out@ =~= spec_file_json(*f));
    }
    out
}

impl TrashManifest {
    /// Render the manifest as pretty-printed JSON.
    #[verifier::loop_isolation(false)]
    pub fn to_json(&self) -> (r: String)
        ensures
            r@ == spec_manifest_json(self.files@),
    {
        if self.files.is_empty() {
            proof {
                reveal_strlit("{\n  \"files\": []\n}");
            }
            return "{\n  \"files\": []\n}".to_owned();
        }
        proof {
            reveal_strlit("{\n  \"files\": [\n    ");
            reveal_strlit(",\n    ");
            reveal_strlit("\n  ]\n}");
        }
        let mut out = "{\n  \"files\": [\n    ".to_owned();
        let ghost base = out@;
        let n = self.files.len();
        let mut i: usize = 0;
        while i < n
            invariant
                1 <= n,
                i <= n,
                n == self.files@.len(),
                i > 0 ==> out@ == base + spec_files_json(self.files@.subrange(0, i as int)),
                i == 0 ==> out@ == base,
            decreases n - i,
        {
            if i > 0 {
                out.append(",\n    ");
            }
            let piece = file_json(&self.files[i]);
            out.append(piece.as_str());
            proof {
                assert(self.files@.subrange(0, i + 1).drop_last() =~= self.files@.subrange(
                    0,
                    i as int,
                ));
                assert(self.files@.subrange(0, i + 1).last() == self.files@[i as int]);
                if i == 0 {
                    assert(self.files@.subrange(0, 1).len() == 1);
                    assert(out@ =~= base + spec_files_json(self.files@.subrange(0, 1)));
                } else {
                    assert(out@ =~= base + spec_files_json(self.files@.subrange(0, i + 1)));
                }
            }
            i = i + 1;
        }
        out.append("\n  ]\n}");
        proof {
            assert(self.files@.subrange(0, n as int) =~= self.files@);
            assert(out@ =~= spec_manifest_json(self.files@));
        }
        out
    }
}

} // verus!
