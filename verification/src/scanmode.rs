//! Scanner strategy selection: the shape a bounded probe of the tree reports,
//! and the heuristics that pick the sequential or the parallel walker from it.

use vstd::prelude::*;
use crate::config::Config;
use crate::config::ScanMode;

verus! {

/// Ceiling on entries a probe examines before it stops.
pub const PROBE_ENTRY_LIMIT: usize = 512;

/// Ceiling on the probe's running time, in milliseconds.
pub const PROBE_TIME_BUDGET_MS: u64 = 8;

/// The strategy a scan actually runs with.
#[derive(Debug, Clone, Copy, PartialEq, Eq, Structural)]
pub enum ResolvedScanMode {
    Sequential,
    Parallel,
}

/// What a bounded probe of the tree saw.
#[derive(Debug, Clone, Copy, PartialEq, Eq, Structural)]
pub struct ScanShape {
    /// Entries the walker reported, before include/exclude filtering.
    pub probed_entries: usize,
    /// Entries retained after the include/exclude filters.
    pub selected_entries: usize,
    /// Sampled file-like entries among the retained ones.
    pub sampled_files: usize,
    /// Sampled directories among the retained ones.
    pub sampled_dirs: usize,
    /// Deepest sampled entry, in path components.
    pub max_depth: usize,
}

impl Default for ScanShape {
    fn default() -> (r: Self)
        ensures
            r == (ScanShape {
                probed_entries: 0,
                selected_entries: 0,
                sampled_files: 0,
                sampled_dirs: 0,
                max_depth: 0,
            }),
    {
        ScanShape {
            probed_entries: 0,
            selected_entries: 0,
            sampled_files: 0,
            sampled_dirs: 0,
            max_depth: 0,
        }
    }
}

/// The heuristic: tiny traversals (under 200 probed entries) and deep-narrow
/// shapes (depth at least 64, more directories than files, at most 1200 files)
/// run sequentially; everything else runs in parallel.
pub open spec fn spec_select_mode(shape: ScanShape) -> ResolvedScanMode {
    if shape.probed_entries < 200 {
        ResolvedScanMode::Sequential
    } else if shape.max_depth >= 64 && shape.sampled_files <= 1200 && shape.sampled_dirs
        > shape.sampled_files {
        ResolvedScanMode::Sequential
    } else {
        ResolvedScanMode::Parallel
    }
}

/// Pick the scanner strategy from a probed shape.
pub fn select_mode_from_shape(shape: ScanShape) -> (r: ResolvedScanMode)
    ensures
        r == spec_select_mode(shape),
{
    if shape.probed_entries < 200 {
        return ResolvedScanMode::Sequential;
    }
    let deep_narrow = shape.max_depth >= 64 && shape.sampled_files <= 1200 && shape.sampled_dirs
        > shape.sampled_files;
    if deep_narrow {
        return ResolvedScanMode::Sequential;
    }
    // A heavy walk behind aggressive filters still favours parallel traversal.
    if shape.probed_entries >= 300 && shape.selected_entries < 120 {
        return ResolvedScanMode::Parallel;
    }
    ResolvedScanMode::Parallel
}

/// Resolve the configured scan mode: explicit choices win; `Auto` collapses to
/// sequential for a single thread and otherwise applies the shape heuristics
/// to the probe the caller ran.
pub fn resolve_scan_mode(config: &Config, probed_shape: ScanShape) -> (r: ResolvedScanMode)
    ensures
        config.scan_mode == ScanMode::Sequential ==> r == ResolvedScanMode::Sequential,
        config.scan_mode == ScanMode::Parallel ==> r == ResolvedScanMode::Parallel,
        config.scan_mode == ScanMode::Auto && config.threads <= 1 ==> r
            == ResolvedScanMode::Sequential,
        config.scan_mode == ScanMode::Auto && config.threads > 1 ==> r == spec_select_mode(
            probed_shape,
        ),
{
    match config.scan_mode {
        ScanMode::Sequential => ResolvedScanMode::Sequential,
        ScanMode::Parallel => ResolvedScanMode::Parallel,
        ScanMode::Auto => {
            if config.threads <= 1 {
                return ResolvedScanMode::Sequential;
            }
            select_mode_from_shape(probed_shape)
        },
    }
}

} // verus!
