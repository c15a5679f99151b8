//! Configuration: the full option surface of a run, and the filesystem-free
//! part of its validation. Callers gather what the filesystem says about the
//! two roots (existence, kind, resolved form) and hand those facts in as plain
//! values; every rule about them is then checked here.

use vstd::prelude::*;
use crate::action::DeleteMode;
use crate::error::KopyError;
use crate::pathutil::path_starts_with;

verus! {

/// Scanner strategy selection.
#[derive(Debug, Clone, Copy, PartialEq, Eq, Structural)]
pub enum ScanMode {
    /// Choose sequential or parallel from a sampled probe of the tree shape.
    Auto,
    /// Force the sequential scanner.
    Sequential,
    /// Force the parallel scanner.
    Parallel,
}

/// All recognized options of a run. `bandwidth_limit`, `backup_dir`, `watch`
/// and `watch_settle` are reserved and ignored by the core.
#[derive(Debug)]
pub struct Config {
    /// Source root path.
    pub source: String,
    /// Destination root path.
    pub destination: String,
    /// Compute and report the plan without executing it.
    pub dry_run: bool,
    /// Enable the content-hash tier of the diff engine.
    pub checksum_mode: bool,
    /// How orphan destination entries are handled.
    pub delete_mode: DeleteMode,
    /// Glob patterns that exclude matching paths.
    pub exclude_patterns: Vec<String>,
    /// Glob patterns that re-include paths an exclude pattern matched.
    pub include_patterns: Vec<String>,
    /// Parallelism hint for scanner and executor.
    pub threads: usize,
    /// Scanner strategy override.
    pub scan_mode: ScanMode,
    /// Reserved: bytes per second ceiling.
    pub bandwidth_limit: Option<u64>,
    /// Reserved: snapshot directory.
    pub backup_dir: Option<String>,
    /// Reserved: watch mode.
    pub watch: bool,
    /// Reserved: watch settle time in seconds.
    pub watch_settle: u64,
}

fn clone_string_vec(v: &Vec<String>) -> (r: Vec<String>)
    ensures
        r@ == v@,
{
    let mut out: Vec<String> = Vec::new();
    let n = v.len();
    let mut i: usize = 0;
    while i < n
        invariant
            i <= n,
            n == v@.len(),
            out@.len() == i,
            forall|k: int| 0 <= k < i ==> out@[k] == v@[k],
        decreases n - i,
    {
        out.push(v[i].clone());
        i = i + 1;
    }
    proof {
        assert(out@ =~= v@);
    }
    out
}

impl Clone for Config {
    fn clone(&self) -> (r: Self)
        ensures
            r.source == self.source,
            r.destination == self.destination,
            r.dry_run == self.dry_run,
            r.checksum_mode == self.checksum_mode,
            r.delete_mode == self.delete_mode,
            r.exclude_patterns@ == self.exclude_patterns@,
            r.include_patterns@ == self.include_patterns@,
            r.threads == self.threads,
            r.scan_mode == self.scan_mode,
            r.bandwidth_limit == self.bandwidth_limit,
            r.backup_dir == self.backup_dir,
            r.watch == self.watch,
            r.watch_settle == self.watch_settle,
    {
        Config {
            source: self.source.clone(),
            destination: self.destination.clone(),
            dry_run: self.dry_run,
            checksum_mode: self.checksum_mode,
            delete_mode: self.delete_mode,
            exclude_patterns: clone_string_vec(&self.exclude_patterns),
            include_patterns: clone_string_vec(&self.include_patterns),
            threads: self.threads,
            scan_mode: self.scan_mode,
            bandwidth_limit: self.bandwidth_limit,
            backup_dir: match &self.backup_dir {
                Some(d) => Some(d.clone()),
                None => None,
            },
            watch: self.watch,
            watch_settle: self.watch_settle,
        }
    }
}

impl Default for Config {
    fn default() -> (r: Self)
        ensures
            r.source@ == Seq::<char>::empty(),
            r.destination@ == Seq::<char>::empty(),
            !r.dry_run,
            !r.checksum_mode,
            r.delete_mode == DeleteMode::Off,
            r.exclude_patterns@.len() == 0,
            r.include_patterns@.len() == 0,
            r.threads == 4,
            r.scan_mode == ScanMode::Auto,
            r.bandwidth_limit is None,
            r.backup_dir is None,
            !r.watch,
            r.watch_settle == 2,
    {
        Config {
            source: String::new(),
            destination: String::new(),
            dry_run: false,
            checksum_mode: false,
            delete_mode: DeleteMode::Off,
            exclude_patterns: Vec::new(),
            include_patterns: Vec::new(),
            threads: 4,
            scan_mode: ScanMode::Auto,
            bandwidth_limit: None,
            backup_dir: None,
            watch: false,
            watch_settle: 2,
        }
    }
}

/// Whether `r` is a `Config` error whose message reads `msg`.
pub open spec fn is_config_err(r: Result<(), KopyError>, msg: Seq<char>) -> bool {
    match r {
        Err(KopyError::Config(m)) => m@ == msg,
        _ => false,
    }
}

/// Whether `path` lies strictly below `potential_ancestor` (component-wise
/// prefix, and not the same path).
pub fn is_strict_descendant(path: &String, potential_ancestor: &String) -> (r: bool)
    ensures
        r == (path_starts_with(path@, potential_ancestor@) && path@ != potential_ancestor@),
{
    let starts = crate::pathutil::starts_with_path(path.as_str(), potential_ancestor.as_str());
    let same = crate::textutil::str_eq(path.as_str(), potential_ancestor.as_str());
    starts && !same
}

/// The root rules of §configuration, decided over filesystem facts the caller
/// gathered: the source must exist as a file or directory; an existing
/// destination of a directory source must be a directory; the two paths must
/// differ lexically, must not resolve to the same place, and (for a directory
/// source) must not be nested one under the other.
pub open spec fn roots_ok(
    config: Config,
    source_exists: bool,
    source_is_dir: bool,
    source_is_file: bool,
    destination_exists: bool,
    destination_is_dir: bool,
    source_resolved: Seq<char>,
    destination_resolved: Seq<char>,
) -> bool {
    &&& source_exists
    &&& (source_is_dir || source_is_file)
    &&& !(source_is_dir && destination_exists && !destination_is_dir)
    &&& config.source@ != config.destination@
    &&& source_resolved != destination_resolved
    &&& !(source_is_dir && (path_starts_with(destination_resolved, source_resolved)
        || path_starts_with(source_resolved, destination_resolved)))
}

impl Config {
    /// Check the root rules. The boolean and string arguments are what the
    /// filesystem reported about the configured roots: whether each exists and
    /// what kind it is, and the canonical (or lexically normalized) form of
    /// each path.
    pub fn validate_roots(
        &self,
        source_exists: bool,
        source_is_dir: bool,
        source_is_file: bool,
        destination_exists: bool,
        destination_is_dir: bool,
        source_resolved: &String,
        destination_resolved: &String,
    ) -> (r: Result<(), KopyError>)
        ensures
            r is Ok <==> roots_ok(
                *self,
                source_exists,
                source_is_dir,
                source_is_file,
                destination_exists,
                destination_is_dir,
                source_resolved@,
                destination_resolved@,
            ),
            !source_exists ==> is_config_err(r, "Source path does not exist: "@ + self.source@),
            source_exists && !(source_is_dir || source_is_file) ==> is_config_err(
                r,
                "Source path must be a file or directory: "@ + self.source@,
            ),
            source_exists && (source_is_dir || source_is_file) && source_is_dir
                && destination_exists && !destination_is_dir ==> is_config_err(
                r,
                "Destination path must be a directory if it exists: "@ + self.destination@,
            ),
            r is Err ==> r->Err_0 is Config,
    {
        if !source_exists {
            let mut m = "Source path does not exist: ".to_owned();
            m.append(self.source.as_str());
            return Err(KopyError::Config(m));
        }
        if !source_is_dir && !source_is_file {
            let mut m = "Source path must be a file or directory: ".to_owned();
            m.append(self.source.as_str());
            return Err(KopyError::Config(m));
        }
        if source_is_dir && destination_exists && !destination_is_dir {
            let mut m = "Destination path must be a directory if it exists: ".to_owned();
            m.append(self.destination.as_str());
            return Err(KopyError::Config(m));
        }
        if crate::textutil::str_eq(self.source.as_str(), self.destination.as_str()) {
            return Err(KopyError::Config("Source and destination cannot be the same".to_owned()));
        }
        if crate::textutil::str_eq(source_resolved.as_str(), destination_resolved.as_str()) {
            let mut m = "Source and destination cannot resolve to the same directory. source='"
                .to_owned();
            m.append(self.source.as_str());
            m.append("', destination='");
            m.append(self.destination.as_str());
            m.append("'");
            return Err(KopyError::Config(m));
        }
        if source_is_dir && (is_strict_descendant(destination_resolved, source_resolved)
            || is_strict_descendant(source_resolved, destination_resolved)) {
            let mut m = "Source and destination cannot be nested. source='".to_owned();
            m.append(self.source.as_str());
            m.append("', destination='");
            m.append(self.destination.as_str());
            m.append("'");
            return Err(KopyError::Config(m));
        }
        Ok(())
    }
}

} // verus!
