//! `FileTree`: the canonical in-memory result of one scan. A mapping from
//! relative path to `FileEntry` with unique keys, plus aggregate counters that
//! always agree with the stored entries.

use vstd::prelude::*;
use crate::entry::FileEntry;

verus! {

/// Sum of the sizes of the entries in a key/entry sequence.
pub open spec fn sum_sizes(s: Seq<(String, FileEntry)>) -> int
    decreases s.len(),
{
    if s.len() == 0 {
        0
    } else {
        sum_sizes(s.drop_last()) + s.last().1.size
    }
}

/// Index of the first pair whose key reads `key`, or -1 when none does.
pub open spec fn key_index(s: Seq<(String, FileEntry)>, key: Seq<char>) -> int
    decreases s.len(),
{
    if s.len() == 0 {
        -1
    } else if s[0].0@ == key {
        0
    } else {
        let rest = key_index(s.drop_first(), key);
        if rest < 0 {
            -1
        } else {
            rest + 1
        }
    }
}

pub proof fn lemma_key_index(s: Seq<(String, FileEntry)>, key: Seq<char>)
    ensures
        -1 <= key_index(s, key) < s.len(),
        key_index(s, key) >= 0 ==> s[key_index(s, key)].0@ == key,
        key_index(s, key) >= 0 ==> forall|i: int| 0 <= i < key_index(s, key) ==> s[i].0@ != key,
        key_index(s, key) == -1 ==> forall|i: int| 0 <= i < s.len() ==> s[i].0@ != key,
    decreases s.len(),
{
    if s.len() == 0 {
    } else if s[0].0@ == key {
    } else {
        lemma_key_index(s.drop_first(), key);
        let rest = key_index(s.drop_first(), key);
        if rest >= 0 {
            assert(s[rest + 1] == s.drop_first()[rest]);
            assert forall|i: int| 0 <= i < rest + 1 implies s[i].0@ != key by {
                if i > 0 {
                    assert(s.drop_first()[i - 1] == s[i]);
                }
            }
        } else {
            assert forall|i: int| 0 <= i < s.len() implies s[i].0@ != key by {
                if i > 0 {
                    assert(s.drop_first()[i - 1] == s[i]);
                }
            }
        }
    }
}

proof fn lemma_sum_sizes_update(s: Seq<(String, FileEntry)>, i: int, p: (String, FileEntry))
    requires
        0 <= i < s.len(),
    ensures
        sum_sizes(s.update(i, p)) == sum_sizes(s) - s[i].1.size + p.1.size,
    decreases s.len(),
{
    if i == s.len() - 1 {
        assert(s.update(i, p).drop_last() =~= s.drop_last());
        assert(s.update(i, p).last() == p);
    } else {
        assert(s.update(i, p).drop_last() =~= s.drop_last().update(i, p));
        lemma_sum_sizes_update(s.drop_last(), i, p);
        assert(s.update(i, p).last() == s.last());
        assert(s.drop_last()[i] == s[i]);
    }
}

proof fn lemma_sum_sizes_element(s: Seq<(String, FileEntry)>, i: int)
    requires
        0 <= i < s.len(),
    ensures
        s[i].1.size <= sum_sizes(s),
        sum_sizes(s) >= 0,
    decreases s.len(),
{
    if s.len() == 1 {
    } else if i == s.len() - 1 {
        lemma_sum_sizes_element(s.drop_last(), 0);
    } else {
        lemma_sum_sizes_element(s.drop_last(), i);
        assert(s.drop_last()[i] == s[i]);
    }
}

pub proof fn lemma_sum_sizes_nonneg(s: Seq<(String, FileEntry)>)
    ensures
        sum_sizes(s) >= 0,
    decreases s.len(),
{
    if s.len() > 0 {
        lemma_sum_sizes_nonneg(s.drop_last());
    }
}

pub proof fn lemma_sum_sizes_prefix_step(s: Seq<(String, FileEntry)>, i: int)
    requires
        0 <= i < s.len(),
    ensures
        sum_sizes(s.subrange(0, i + 1)) == sum_sizes(s.subrange(0, i)) + s[i].1.size,
{
    assert(s.subrange(0, i + 1).drop_last() =~= s.subrange(0, i));
    assert(s.subrange(0, i + 1).last() == s[i]);
}

pub proof fn lemma_sum_sizes_prefix_le(s: Seq<(String, FileEntry)>, i: int)
    requires
        0 <= i <= s.len(),
    ensures
        sum_sizes(s.subrange(0, i)) <= sum_sizes(s),
    decreases s.len() - i,
{
    if i == s.len() {
        assert(s.subrange(0, i) =~= s);
    } else {
        lemma_sum_sizes_prefix_step(s, i);
        lemma_sum_sizes_prefix_le(s, i + 1);
    }
}

/// A scanned tree. `entries` pairs each relative path with its entry; keys are
/// unique. `total_files` always equals the number of entries, `total_size`
/// their summed byte sizes. Directories are only counted, never stored.
/// `scan_duration` is the wall-clock time of the producing scan in
/// nanoseconds, and `root_path` the absolute root that was walked.
#[derive(Debug, PartialEq)]
pub struct FileTree {
    /// Relative path to entry, keys unique.
    pub entries: Vec<(String, FileEntry)>,
    /// Sum of the sizes of all stored entries.
    pub total_size: u64,
    /// Number of stored entries.
    pub total_files: usize,
    /// Number of directories the scan traversed.
    pub total_dirs: usize,
    /// Wall-clock duration of the producing scan, in nanoseconds.
    pub scan_duration: u64,
    /// Absolute root the tree was scanned from.
    pub root_path: String,
}

impl FileTree {
    /// The invariant every tree keeps: keys are unique, `total_files` is the
    /// entry count and `total_size` the sum of entry sizes.
    pub open spec fn wf(self) -> bool {
        &&& forall|i: int, j: int|
            0 <= i < j < self.entries@.len() ==> self.entries@[i].0@ != self.entries@[j].0@
        &&& self.total_files == self.entries@.len()
        &&& self.total_size == sum_sizes(self.entries@)
    }

    /// Whether the tree holds an entry under `key`.
    pub open spec fn spec_contains(self, key: Seq<char>) -> bool {
        key_index(self.entries@, key) >= 0
    }

    /// The entry stored under `key`, if any.
    pub open spec fn spec_get(self, key: Seq<char>) -> Option<FileEntry> {
        if key_index(self.entries@, key) >= 0 {
            Some(self.entries@[key_index(self.entries@, key)].1)
        } else {
            None
        }
    }

    /// The size bookkeeping would show after inserting `entry` under `key`.
    pub open spec fn spec_size_after_insert(self, key: Seq<char>, entry: FileEntry) -> int {
        self.total_size - (match self.spec_get(key) {
            Some(old_entry) => old_entry.size as int,
            None => 0,
        }) + entry.size
    }

    /// In a well-formed tree, the key stored at `i` is found at `i`.
    pub proof fn lemma_wf_key_at(self, i: int)
        requires
            self.wf(),
            0 <= i < self.entries@.len(),
        ensures
            key_index(self.entries@, self.entries@[i].0@) == i,
            self.spec_contains(self.entries@[i].0@),
            self.spec_get(self.entries@[i].0@) == Some(self.entries@[i].1),
    {
        lemma_key_index(self.entries@, self.entries@[i].0@);
        let j = key_index(self.entries@, self.entries@[i].0@);
        if j == -1 {
            assert(self.entries@[i].0@ != self.entries@[i].0@);
        } else if j < i {
            assert(self.entries@[j].0@ != self.entries@[i].0@);
        } else if j > i {
            assert(self.entries@[i].0@ != self.entries@[i].0@);
        }
    }

    /// A contained key is the key of some stored pair.
    pub proof fn lemma_contains_at(self, key: Seq<char>)
        requires
            self.spec_contains(key),
        ensures
            exists|i: int|
                0 <= i < self.entries@.len() && #[trigger] self.entries@[i].0@ == key,
    {
        lemma_key_index(self.entries@, key);
        assert(self.entries@[key_index(self.entries@, key)].0@ == key);
    }

    /// The aggregates are a function of the stored entries alone: two
    /// well-formed trees holding the same entries agree on their counters,
    /// whatever walk produced them.
    pub proof fn lemma_totals_from_entries(self, other: FileTree)
        requires
            self.wf(),
            other.wf(),
            self.entries@ == other.entries@,
        ensures
            self.total_files == other.total_files,
            self.total_size == other.total_size,
    {
    }

    /// Create an empty tree for the given root.
    pub fn new(root_path: String) -> (r: Self)
        ensures
            r.entries@.len() == 0,
            r.total_size == 0,
            r.total_files == 0,
            r.total_dirs == 0,
            r.scan_duration == 0,
            r.root_path == root_path,
            r.wf(),
    {
        FileTree {
            entries: Vec::new(),
            total_size: 0,
            total_files: 0,
            total_dirs: 0,
            scan_duration: 0,
            root_path,
        }
    }

    /// Insert an entry under `path`, replacing any entry already stored there,
    /// and keep the aggregate counters in step.
    #[verifier::loop_isolation(false)]
    pub fn insert(&mut self, path: String, entry: FileEntry)
        requires
            old(self).wf(),
            old(self).total_files < usize::MAX,
            old(self).spec_size_after_insert(path@, entry) <= u64::MAX,
        ensures
            final(self).wf(),
            final(self).spec_get(path@) == Some(entry),
            forall|k: Seq<char>| k != path@ ==> final(self).spec_get(k) == old(self).spec_get(k),
            final(self).total_files == if old(self).spec_contains(path@) {
                old(self).total_files as int
            } else {
                old(self).total_files + 1
            },
            final(self).total_size == old(self).spec_size_after_insert(path@, entry),
            final(self).total_dirs == old(self).total_dirs,
            final(self).scan_duration == old(self).scan_duration,
            final(self).root_path == old(self).root_path,
    {
        proof {
            lemma_key_index(self.entries@, path@);
        }
        let ghost pre = self.entries@;
        let mut i: usize = 0;
        let n = self.entries.len();
        while i < n
            invariant
                i <= n,
                n == self.entries@.len(),
                self == old(self),
                forall|k: int| 0 <= k < i ==> self.entries@[k].0@ != path@,
            decreases n - i,
        {
            if crate::textutil::str_eq(self.entries[i].0.as_str(), path.as_str()) {
                proof {
                    assert(key_index(pre, path@) == i);
                    lemma_sum_sizes_update(pre, i as int, (path, entry));
                    lemma_sum_sizes_element(pre, i as int);
                }
                let old_size = self.entries[i].1.size;
                self.total_size = self.total_size - old_size + entry.size;
                self.entries.set(i, (path, entry));
                proof {
                    lemma_key_index(self.entries@, path@);
                    assert forall|k: int| 0 <= k < i implies self.entries@[k].0@ != path@ by {
                        assert(self.entries@[k] == pre[k]);
                    }
                    assert(self.entries@[i as int].0@ == path@);
                    let j = key_index(self.entries@, path@);
                    if j == -1 {
                        assert(self.entries@[i as int].0@ != path@);
                        assert(false);
                    } else if j < i as int {
                        assert(self.entries@[j].0@ == path@);
                        assert(false);
                    } else if j > i as int {
                        assert(self.entries@[i as int].0@ != path@);
                        assert(false);
                    }
                    assert(key_index(self.entries@, path@) == i);
                    assert forall|k: Seq<char>| k != path@ implies self.spec_get(k) == old(
                        self,
                    ).spec_get(k) by {
                        lemma_key_index(pre, k);
                        lemma_key_index(self.entries@, k);
                        let idx_old = key_index(pre, k);
                        let idx_new = key_index(self.entries@, k);
                        if idx_old >= 0 {
                            if idx_new == -1 {
                                assert(self.entries@[idx_old].0@ != k);
                                assert(idx_old == i);
                                assert(false);
                            }
                            if idx_new != idx_old {
                                if idx_new < idx_old {
                                    assert(pre[idx_new].0@ != k);
                                    assert(idx_new != i);
                                    assert(false);
                                } else {
                                    assert(self.entries@[idx_old].0@ != k);
                                    assert(idx_old == i);
                                    assert(false);
                                }
                            }
                            assert(idx_new != i);
                            assert(self.entries@[idx_new].1 == pre[idx_old].1);
                        } else {
                            if idx_new >= 0 {
                                assert(pre[idx_new].0@ != k);
                                assert(idx_new == i);
                                assert(false);
                            }
                        }
                    }
                }
                return ;
            }
            i = i + 1;
        }
        proof {
            assert(key_index(pre, path@) == -1);
            lemma_sum_sizes_push(pre, (path, entry));
        }
        self.total_size = self.total_size + entry.size;
        self.total_files = self.total_files + 1;
        self.entries.push((path, entry));
        proof {
            lemma_key_index(self.entries@, path@);
            lemma_key_index_push_other(pre, (path, entry));
            assert(key_index(self.entries@, path@) == pre.len());
            assert forall|k: Seq<char>| k != path@ implies self.spec_get(k) == old(
                self,
            ).spec_get(k) by {
                lemma_key_index(pre, k);
                lemma_key_index(self.entries@, k);
            }
        }
    }

    /// Look up the entry stored under `path`.
    #[verifier::loop_isolation(false)]
    pub fn get(&self, path: &String) -> (r: Option<&FileEntry>)
        ensures
            match r {
                Some(e) => self.spec_get(path@) == Some(*e),
                None => self.spec_get(path@) is None,
            },
    {
        proof {
            lemma_key_index(self.entries@, path@);
        }
        let n = self.entries.len();
        let mut i: usize = 0;
        while i < n
            invariant
                i <= n,
                n == self.entries@.len(),
                forall|k: int| 0 <= k < i ==> self.entries@[k].0@ != path@,
            decreases n - i,
        {
            if crate::textutil::str_eq(self.entries[i].0.as_str(), path.as_str()) {
                proof {
                    assert(key_index(self.entries@, path@) == i);
                }
                return Some(&self.entries[i].1);
            }
            i = i + 1;
        }
        None
    }

    /// Whether `path` is stored in the tree.
    pub fn contains(&self, path: &String) -> (r: bool)
        ensures
            r == self.spec_contains(path@),
    {
        self.get(path).is_some()
    }

    /// Number of stored entries.
    pub fn len(&self) -> (r: usize)
        ensures
            r == self.entries@.len(),
    {
        self.entries.len()
    }

    /// Whether the tree stores no entries.
    pub fn is_empty(&self) -> (r: bool)
        ensures
            r == (self.entries@.len() == 0),
    {
        self.entries.is_empty()
    }

    /// All stored path/entry pairs, in insertion order.
    pub fn iter(&self) -> (r: &Vec<(String, FileEntry)>)
        ensures
            r == &self.entries,
    {
        &self.entries
    }

    /// All stored paths, in insertion order.
    pub fn paths(&self) -> (r: Vec<String>)
        ensures
            r@.len() == self.entries@.len(),
            forall|i: int| 0 <= i < r@.len() ==> r@[i] == self.entries@[i].0,
    {
        let mut out: Vec<String> = Vec::new();
        let n = self.entries.len();
        let mut i: usize = 0;
        while i < n
            invariant
                i <= n,
                n == self.entries@.len(),
                out@.len() == i,
                forall|k: int| 0 <= k < i ==> out@[k] == self.entries@[k].0,
            decreases n - i,
        {
            out.push(self.entries[i].0.clone());
            i = i + 1;
        }
        out
    }

    /// Record the wall-clock duration of the scan that filled the tree.
    pub fn set_scan_duration(&mut self, duration: u64)
        ensures
            *final(self) == (FileTree { scan_duration: duration, ..*old(self) }),
    {
        self.scan_duration = duration;
    }

    /// Count one more traversed directory.
    pub fn increment_dirs(&mut self)
        requires
            old(self).total_dirs < usize::MAX,
        ensures
            *final(self) == (FileTree { total_dirs: (old(self).total_dirs + 1) as usize, ..*old(self) }),
    {
        self.total_dirs = self.total_dirs + 1;
    }
}

proof fn lemma_sum_sizes_push(s: Seq<(String, FileEntry)>, p: (String, FileEntry))
    ensures
        sum_sizes(s.push(p)) == sum_sizes(s) + p.1.size,
{
    assert(s.push(p).drop_last() =~= s);
    assert(s.push(p).last() == p);
}

proof fn lemma_key_index_push_other(s: Seq<(String, FileEntry)>, p: (String, FileEntry))
    requires
        key_index(s, p.0@) == -1,
    ensures
        key_index(s.push(p), p.0@) == s.len(),
        forall|k: Seq<char>| k != p.0@ ==> key_index(s.push(p), k) == key_index(s, k),
    decreases s.len(),
{
    lemma_key_index(s, p.0@);
    if s.len() == 0 {
        assert(s.push(p)[0] == p);
        assert(s.push(p).drop_first() =~= Seq::<(String, FileEntry)>::empty());
        assert forall|k: Seq<char>| k != p.0@ implies key_index(s.push(p), k) == key_index(
            s,
            k,
        ) by {
            assert(key_index(s.push(p).drop_first(), k) == -1);
        }
    } else {
        assert(s.push(p).drop_first() =~= s.drop_first().push(p));
        assert(s[0].0@ != p.0@);
        assert(key_index(s.drop_first(), p.0@) == -1) by {
            if key_index(s.drop_first(), p.0@) >= 0 {
                assert(key_index(s, p.0@) >= 0);
            }
        }
        lemma_key_index_push_other(s.drop_first(), p);
        assert(s.push(p)[0] == s[0]);
        assert(key_index(s.push(p), p.0@) == s.len());
        assert forall|k: Seq<char>| k != p.0@ implies key_index(s.push(p), k) == key_index(
            s,
            k,
        ) by {
            assert(key_index(s.push(p).drop_first(), k) == key_index(s.drop_first(), k));
        }
    }
}

impl Clone for FileTree {
    fn clone(&self) -> (r: Self)
        ensures
            r.entries@ == self.entries@,
            r.total_size == self.total_size,
            r.total_files == self.total_files,
            r.total_dirs == self.total_dirs,
            r.scan_duration == self.scan_duration,
            r.root_path == self.root_path,
            r.wf() == self.wf(),
    {
        let mut entries: Vec<(String, FileEntry)> = Vec::new();
        let n = self.entries.len();
        let mut i: usize = 0;
        while i < n
            invariant
                i <= n,
                n == self.entries@.len(),
                entries@.len() == i,
                forall|k: int| 0 <= k < i ==> entries@[k] == self.entries@[k],
            decreases n - i,
        {
            let pair = (self.entries[i].0.clone(), self.entries[i].1.clone());
            entries.push(pair);
            i = i + 1;
        }
        proof {
            assert(entries@ =~= self.entries@);
        }
        FileTree {
            entries,
            total_size: self.total_size,
            total_files: self.total_files,
            total_dirs: self.total_dirs,
            scan_duration: self.scan_duration,
            root_path: self.root_path.clone(),
        }
    }
}

} // verus!
