//! Executor core: what each planned action asks of the filesystem, how
//! outcomes fold into statistics and events, and the error summary of a run.
//! The filesystem work itself happens outside the library; it reports each
//! action's outcome (bytes copied, or the classified error) back in.

use vstd::prelude::*;
use crate::action::SyncAction;
use crate::action::DeleteMode;
use crate::config::Config;
use crate::error::KopyError;
use crate::error::clone_error_for_event;
use crate::pathutil::spec_path_join;
use crate::pathutil::spec_file_name;
use crate::plan::DiffPlan;
use crate::textutil::spec_decimal;
use crate::LARGE_TRANSFER_THRESHOLD_BYTES;

verus! {

/// Statistics of one executor run.
#[derive(Debug, Clone, Copy, PartialEq, Eq, Structural)]
pub struct ExecutionStats {
    /// Number of actions in the input plan.
    pub total_actions: usize,
    /// Number of successfully processed actions.
    pub completed_actions: usize,
    /// Number of failed actions.
    pub failed_actions: usize,
    /// Bytes copied by the successful transfers.
    pub bytes_copied: u64,
}

impl Default for ExecutionStats {
    fn default() -> (r: Self)
        ensures
            r == (ExecutionStats {
                total_actions: 0,
                completed_actions: 0,
                failed_actions: 0,
                bytes_copied: 0,
            }),
    {
        ExecutionStats { total_actions: 0, completed_actions: 0, failed_actions: 0, bytes_copied: 0 }
    }
}

/// Events emitted while a plan runs, in the order the sink observes them.
#[derive(Debug)]
pub enum ExecutionEvent {
    /// An action is about to run. Indexes are 1-based.
    ActionStart { index: usize, total: usize, action: &'static str, path: Option<String> },
    /// The action finished and copied the given number of bytes.
    ActionSuccess {
        index: usize,
        total: usize,
        action: &'static str,
        path: Option<String>,
        bytes_copied: u64,
    },
    /// The action failed; the run continues.
    ActionError {
        index: usize,
        total: usize,
        action: &'static str,
        path: Option<String>,
        error: KopyError,
    },
    /// The whole plan was processed.
    Complete { stats: ExecutionStats },
}

/// The filesystem work one action asks for.
#[derive(Debug, PartialEq)]
pub enum ActionStep {
    /// Stream the file at `src_path` into `dest_path` atomically.
    CopyFile { src_path: String, dest_path: String },
    /// Recreate a symlink at `dest_path`; the target is read from the entry,
    /// or from the link at `src_path` when the entry carries none.
    CopySymlink { src_path: String, dest_path: String, target: Option<String> },
    /// Deletions are disabled: succeed without touching anything.
    DeleteNoop,
    /// Move `target_path` into the destination's trash area, keyed by its
    /// relative path.
    TrashDelete { target_path: String, relative_path: String },
    /// Unlink `target_path` (recursively for a directory); absence is success.
    PermanentDelete { target_path: String },
    /// Nothing to do.
    NoOp,
}

/// Resolve the absolute source and destination paths of a transfer. For a
/// single-file source the source path itself is copied, into the destination
/// directory under the source's file name, or onto the destination path
/// verbatim; `source_is_file` and `destination_is_dir` are what the filesystem
/// reports about the configured roots.
pub fn resolve_transfer_paths(
    config: &Config,
    relative_path: &String,
    source_is_file: bool,
    destination_is_dir: bool,
) -> (r: Result<(String, String), KopyError>)
    ensures
        source_is_file && destination_is_dir && spec_file_name(config.source@).len() > 0 ==> (
        r matches Ok(p) && p.0@ == config.source@ && p.1@ == spec_path_join(
            config.destination@,
            spec_file_name(config.source@),
        )),
        source_is_file && destination_is_dir && spec_file_name(config.source@).len() == 0 ==> (
        r matches Err(e) && e is Config),
        source_is_file && !destination_is_dir ==> (r matches Ok(p) && p.0@ == config.source@
            && p.1@ == config.destination@),
        !source_is_file ==> (r matches Ok(p) && p.0@ == spec_path_join(
            config.source@,
            relative_path@,
        ) && p.1@ == spec_path_join(config.destination@, relative_path@)),
{
    if source_is_file {
        let src_path = config.source.clone();
        if destination_is_dir {
            let file_name = crate::pathutil::file_name_of(config.source.as_str());
            if file_name.unicode_len() == 0 {
                let mut m = "Unable to determine source file name: ".to_owned();
                m.append(config.source.as_str());
                return Err(KopyError::Config(m));
            }
            let dest_path = crate::pathutil::path_join(
                config.destination.as_str(),
                file_name.as_str(),
            );
            Ok((src_path, dest_path))
        } else {
            Ok((src_path, config.destination.clone()))
        }
    } else {
        Ok(
            (
                crate::pathutil::path_join(config.source.as_str(), relative_path.as_str()),
                crate::pathutil::path_join(config.destination.as_str(), relative_path.as_str()),
            ),
        )
    }
}

/// Decide the filesystem work for one action: transfers resolve their paths
/// and split into file against symlink copies; deletes follow the configured
/// mode; `Skip` asks nothing; the reserved `Move` is rejected.
pub fn action_step(
    action: &SyncAction,
    config: &Config,
    source_is_file: bool,
    destination_is_dir: bool,
) -> (r: Result<ActionStep, KopyError>)
    ensures
        action is Skip ==> r == Ok::<ActionStep, KopyError>(ActionStep::NoOp),
        action is Move ==> (r matches Err(e) && e is Validation),
        action matches SyncAction::Delete(p) ==> match config.delete_mode {
            DeleteMode::Off => r == Ok::<ActionStep, KopyError>(ActionStep::DeleteNoop),
            DeleteMode::Trash => (r matches Ok(s) && s matches ActionStep::TrashDelete {
                target_path,
                relative_path,
            } && target_path@ == spec_path_join(config.destination@, p@) && relative_path@ == p@),
            DeleteMode::Permanent => (r matches Ok(s) && s matches ActionStep::PermanentDelete {
                target_path,
            } && target_path@ == spec_path_join(config.destination@, p@)),
        },
        action.spec_requires_transfer() && !source_is_file ==> match r {
            Ok(s) => {
                let entry = action.spec_file_entry().unwrap();
                if entry.is_symlink {
                    s matches ActionStep::CopySymlink { src_path, dest_path, target } && src_path@
                        == spec_path_join(config.source@, entry.path@) && dest_path@
                        == spec_path_join(config.destination@, entry.path@) && target
                        == entry.symlink_target
                } else {
                    s matches ActionStep::CopyFile { src_path, dest_path } && src_path@
                        == spec_path_join(config.source@, entry.path@) && dest_path@
                        == spec_path_join(config.destination@, entry.path@)
                }
            },
            Err(_) => false,
        },
{
    match action {
        SyncAction::CopyNew(entry) | SyncAction::Overwrite(entry) => {
            let resolved = resolve_transfer_paths(
                config,
                &entry.path,
                source_is_file,
                destination_is_dir,
            );
            match resolved {
                Ok((src_path, dest_path)) => {
                    if entry.is_symlink {
                        let target = match &entry.symlink_target {
                            Some(t) => Some(t.clone()),
                            Option::None => None,
                        };
                        Ok(ActionStep::CopySymlink { src_path, dest_path, target })
                    } else {
                        Ok(ActionStep::CopyFile { src_path, dest_path })
                    }
                },
                Err(e) => Err(e),
            }
        },
        SyncAction::Delete(path) => {
            let target_path = crate::pathutil::path_join(
                config.destination.as_str(),
                path.as_str(),
            );
            match config.delete_mode {
                DeleteMode::Off => Ok(ActionStep::DeleteNoop),
                DeleteMode::Trash => Ok(
                    ActionStep::TrashDelete { target_path, relative_path: path.clone() },
                ),
                DeleteMode::Permanent => Ok(ActionStep::PermanentDelete { target_path }),
            }
        },
        SyncAction::Skip => Ok(ActionStep::NoOp),
        SyncAction::Move { .. } => Err(
            KopyError::Validation("Move action is not supported by this executor".to_owned()),
        ),
    }
}

/// Whether the parallel executor may hand the action to a worker: a transfer
/// of at most the large-transfer threshold.
pub fn is_small_parallel_transfer(action: &SyncAction) -> (r: bool)
    ensures
        r == (action.spec_requires_transfer() && action.spec_file_entry().unwrap().size
            <= LARGE_TRANSFER_THRESHOLD_BYTES),
{
    if !action.requires_transfer() {
        return false;
    }
    let size = match action.file_entry() {
        Some(entry) => entry.size,
        Option::None => 0,
    };
    size <= LARGE_TRANSFER_THRESHOLD_BYTES
}

/// The temporary sibling a transfer writes before renaming onto `dest`: a
/// leading dot keeps it out of listings, the writer's process id and a
/// process-wide counter make it unique across concurrent writers.
pub open spec fn spec_temp_path(dest: Seq<char>, pid: u64, counter: u64) -> Seq<char> {
    let base = if spec_file_name(dest).len() == 0 {
        "kopy_tmp"@
    } else {
        spec_file_name(dest)
    };
    crate::pathutil::spec_path_join(
        crate::pathutil::spec_parent(dest),
        seq!['.'] + base + ".kopy.part."@ + spec_decimal(pid as nat) + seq!['.'] + spec_decimal(
            counter as nat,
        ),
    )
}

/// Name the temporary sibling file an atomic copy onto `dest` writes first.
pub fn build_temp_path(dest: &String, pid: u64, counter: u64) -> (r: String)
    ensures
        r@ == spec_temp_path(dest@, pid, counter),
{
    proof {
        reveal_strlit(".");
        reveal_strlit("kopy_tmp");
        reveal_strlit(".kopy.part.");
    }
    let parent = crate::pathutil::parent_of(dest.as_str());
    let base = crate::pathutil::file_name_of(dest.as_str());
    let mut name = ".".to_owned();
    if base.unicode_len() == 0 {
        name.append("kopy_tmp");
    } else {
        name.append(base.as_str());
    }
    name.append(".kopy.part.");
    let p = crate::textutil::u64_to_string(pid);
    name.append(p.as_str());
    name.append(".");
    let c = crate::textutil::u64_to_string(counter);
    name.append(c.as_str());
    let r = crate::pathutil::path_join(parent.as_str(), name.as_str());
    proof {
        assert("."@ =~= seq!['.']);
        assert(name@ =~= seq!['.'] + (if spec_file_name(dest@).len() == 0 {
            "kopy_tmp"@
        } else {
            spec_file_name(dest@)
        }) + ".kopy.part."@ + spec_decimal(pid as nat) + seq!['.'] + spec_decimal(counter as nat));
    }
    r
}

/// Number of `Ok` outcomes.
pub open spec fn count_ok(s: Seq<Result<u64, KopyError>>) -> int
    decreases s.len(),
{
    if s.len() == 0 {
        0
    } else {
        count_ok(s.drop_last()) + if s.last() is Ok {
            1int
        } else {
            0int
        }
    }
}

/// Sum of the byte counts of the `Ok` outcomes.
pub open spec fn sum_ok(s: Seq<Result<u64, KopyError>>) -> int
    decreases s.len(),
{
    if s.len() == 0 {
        0
    } else {
        sum_ok(s.drop_last()) + match s.last() {
            Ok(b) => b as int,
            Err(_) => 0int,
        }
    }
}

pub proof fn lemma_outcome_counts(s: Seq<Result<u64, KopyError>>)
    ensures
        0 <= count_ok(s) <= s.len(),
        sum_ok(s) >= 0,
    decreases s.len(),
{
    if s.len() > 0 {
        lemma_outcome_counts(s.drop_last());
    }
}

proof fn lemma_outcome_prefix_step(s: Seq<Result<u64, KopyError>>, i: int)
    requires
        0 <= i < s.len(),
    ensures
        count_ok(s.subrange(0, i + 1)) == count_ok(s.subrange(0, i)) + if s[i] is Ok {
            1int
        } else {
            0int
        },
        sum_ok(s.subrange(0, i + 1)) == sum_ok(s.subrange(0, i)) + match s[i] {
            Ok(b) => b as int,
            Err(_) => 0int,
        },
{
    assert(s.subrange(0, i + 1).drop_last() =~= s.subrange(0, i));
    assert(s.subrange(0, i + 1).last() == s[i]);
}

proof fn lemma_sum_ok_prefix_le(s: Seq<Result<u64, KopyError>>, i: int)
    requires
        0 <= i <= s.len(),
    ensures
        sum_ok(s.subrange(0, i)) <= sum_ok(s),
    decreases s.len() - i,
{
    if i == s.len() {
        assert(s.subrange(0, i) =~= s);
    } else {
        lemma_outcome_prefix_step(s, i);
        lemma_sum_ok_prefix_le(s, i + 1);
    }
}

/// The failures of a run: for each `Err` outcome, the action's path and the
/// error, in plan order.
pub open spec fn failures_of(
    actions: Seq<SyncAction>,
    outcomes: Seq<Result<u64, KopyError>>,
) -> Seq<(Option<String>, KopyError)>
    decreases outcomes.len(),
{
    if outcomes.len() == 0 || actions.len() < outcomes.len() {
        Seq::empty()
    } else {
        let front = failures_of(actions, outcomes.drop_last());
        match outcomes.last() {
            Ok(_) => front,
            Err(e) => front.push(
                (actions[outcomes.len() - 1].spec_path(), e),
            ),
        }
    }
}

/// One failure line of the summary: the path (or a placeholder) and the
/// error's message.
pub open spec fn spec_failure_line(p: Option<String>, e: KopyError) -> Seq<char> {
    (match p {
        Some(s) => s@,
        Option::None => "<unknown>"@,
    }) + ": "@ + e.spec_message()
}

/// The first failures (at most three), joined with `; `.
pub open spec fn spec_failure_preview(errors: Seq<(Option<String>, KopyError)>, n: int) -> Seq<
    char,
>
    decreases n,
{
    if n <= 0 || errors.len() == 0 {
        Seq::empty()
    } else if n == 1 {
        spec_failure_line(errors[0].0, errors[0].1)
    } else if n - 1 < errors.len() {
        spec_failure_preview(errors, n - 1) + "; "@ + spec_failure_line(
            errors[n - 1].0,
            errors[n - 1].1,
        )
    } else {
        spec_failure_preview(errors, n - 1)
    }
}

/// The summary line a failing run returns.
pub open spec fn spec_error_summary(errors: Seq<(Option<String>, KopyError)>) -> Seq<char> {
    "Sync completed with "@ + spec_decimal(errors.len() as nat)
        + " error(s). Example failures: "@ + spec_failure_preview(errors, 3)
}

fn failure_line(p: &Option<String>, e: &KopyError) -> (r: String)
    ensures
        r@ == spec_failure_line(*p, *e),
{
    let mut s = match p {
        Some(path) => path.clone(),
        Option::None => "<unknown>".to_owned(),
    };
    s.append(": ");
    let msg = e.message();
    s.append(msg.as_str());
    s
}

/// Render the aggregated failure summary: how many actions failed, and up to
/// three example failures.
pub fn build_error_summary(errors: &Vec<(Option<String>, KopyError)>) -> (r: String)
    ensures
        r@ == spec_error_summary(errors@),
{
    let mut s = "Sync completed with ".to_owned();
    let n = crate::textutil::usize_to_string(errors.len());
    s.append(n.as_str());
    s.append(" error(s). Example failures: ");
    let count = if errors.len() < 3 {
        errors.len()
    } else {
        3
    };
    let mut i: usize = 0;
    let ghost base = s@;
    while i < count
        invariant
            i <= count,
            count <= errors@.len(),
            count <= 3,
            s@ == base + spec_failure_preview(errors@, i as int),
        decreases count - i,
    {
        if i > 0 {
            s.append("; ");
        }
        let line = failure_line(&errors[i].0, &errors[i].1);
        s.append(line.as_str());
        proof {
            if i == 0 {
                assert(spec_failure_preview(errors@, 1) == spec_failure_line(
                    errors@[0].0,
                    errors@[0].1,
                ));
                assert(s@ =~= base + spec_failure_preview(errors@, 1));
            } else {
                assert(s@ =~= base + spec_failure_preview(errors@, i + 1));
            }
        }
        i = i + 1;
    }
    proof {
        if count < 3 {
            if errors@.len() == 0 {
                assert(spec_failure_preview(errors@, 3) == Seq::<char>::empty());
                assert(spec_failure_preview(errors@, 0) == Seq::<char>::empty());
            } else if errors@.len() == 1 {
                assert(spec_failure_preview(errors@, 3) == spec_failure_preview(errors@, 2));
                assert(spec_failure_preview(errors@, 2) == spec_failure_preview(errors@, 1));
            } else {
                assert(spec_failure_preview(errors@, 3) == spec_failure_preview(errors@, 2));
            }
        }
        assert(s@ =~= "Sync completed with "@ + spec_decimal(errors@.len() as nat)
            + " error(s). Example failures: "@ + spec_failure_preview(errors@, 3));
    }
    s
}

/// Sequential executor core. The caller performs the filesystem work of each
/// action, in plan order, and hands the outcomes in; this folds them into the
/// event stream and the run's statistics, continuing past failures. The events
/// come back in the exact order a sink observes them: for each action a start
/// event followed by its success or error event, and one final `Complete`
/// event carrying the statistics. The run's result is the statistics when
/// everything succeeded, else a `Validation` error summarizing the failures.
#[verifier::loop_isolation(false)]
#[verifier::rlimit(80)]
pub fn execute_plan(plan: &DiffPlan, outcomes: Vec<Result<u64, KopyError>>) -> (r: (
    Vec<ExecutionEvent>,
    Result<ExecutionStats, KopyError>,
))
    requires
        outcomes@.len() == plan.actions@.len(),
        sum_ok(outcomes@) <= u64::MAX,
    ensures
        r.0@.len() == 2 * plan.actions@.len() + 1,
        forall|i: int|
            0 <= i < plan.actions@.len() ==> ((#[trigger] r.0@[2 * i])
                matches ExecutionEvent::ActionStart { index, total, action, path } && index == i + 1
                && total == plan.actions@.len() && action@ == plan.actions@[i].spec_action_name()
                && path == plan.actions@[i].spec_path()),
        forall|i: int|
            0 <= i < plan.actions@.len() ==> match outcomes@[i] {
                Ok(bytes) => (#[trigger] r.0@[2 * i + 1])
                    matches ExecutionEvent::ActionSuccess { index, total, action, path, bytes_copied }
                    && index == i + 1 && total == plan.actions@.len() && action@
                    == plan.actions@[i].spec_action_name() && path == plan.actions@[i].spec_path()
                    && bytes_copied == bytes,
                Err(e) => (#[trigger] r.0@[2 * i + 1]) matches ExecutionEvent::ActionError {
                    index,
                    total,
                    action,
                    path,
                    error,
                } && index == i + 1 && total == plan.actions@.len() && action@
                    == plan.actions@[i].spec_action_name() && path == plan.actions@[i].spec_path()
                    && error == e,
            },
        r.0@.last() matches ExecutionEvent::Complete { stats } && stats == (ExecutionStats {
            total_actions: plan.actions@.len() as usize,
            completed_actions: count_ok(outcomes@) as usize,
            failed_actions: (outcomes@.len() - count_ok(outcomes@)) as usize,
            bytes_copied: sum_ok(outcomes@) as u64,
        }),
        count_ok(outcomes@) == outcomes@.len() ==> (r.1 matches Ok(stats) && stats == (
        ExecutionStats {
            total_actions: plan.actions@.len() as usize,
            completed_actions: count_ok(outcomes@) as usize,
            failed_actions: 0,
            bytes_copied: sum_ok(outcomes@) as u64,
        })),
        count_ok(outcomes@) < outcomes@.len() ==> (r.1 matches Err(e) && e matches
            KopyError::Validation(m) && m@ == spec_error_summary(
            failures_of(plan.actions@, outcomes@),
        )),
{
    let total = plan.actions.len();
    let mut events: Vec<ExecutionEvent> = Vec::new();
    let mut errors: Vec<(Option<String>, KopyError)> = Vec::new();
    let mut stats = ExecutionStats {
        total_actions: total,
        completed_actions: 0,
        failed_actions: 0,
        bytes_copied: 0,
    };
    let mut outcomes = outcomes;
    let ghost outs = outcomes@;
    let mut i: usize = 0;
    proof {
        assert(outs.subrange(0, 0) =~= Seq::<Result<u64, KopyError>>::empty());
        lemma_outcome_counts(outs);
    }
    while i < total
        invariant
            i <= total,
            total == plan.actions@.len(),
            outcomes@ == outs.skip(i as int),
            events@.len() == 2 * i,
            stats.total_actions == total,
            stats.completed_actions == count_ok(outs.subrange(0, i as int)),
            stats.failed_actions == i - count_ok(outs.subrange(0, i as int)),
            stats.bytes_copied == sum_ok(outs.subrange(0, i as int)),
            errors@ == failures_of(plan.actions@, outs.subrange(0, i as int)),
            forall|k: int|
                0 <= k < i ==> ((#[trigger] events@[2 * k])
                    matches ExecutionEvent::ActionStart { index, total: t, action, path } && index
                    == k + 1 && t == total && action@ == plan.actions@[k].spec_action_name() && path
                    == plan.actions@[k].spec_path()),
            forall|k: int|
                0 <= k < i ==> match outs[k] {
                    Ok(bytes) => (#[trigger] events@[2 * k + 1])
                        matches ExecutionEvent::ActionSuccess {
                        index,
                        total: t,
                        action,
                        path,
                        bytes_copied,
                    } && index == k + 1 && t == total && action@
                        == plan.actions@[k].spec_action_name() && path
                        == plan.actions@[k].spec_path() && bytes_copied == bytes,
                    Err(e) => (#[trigger] events@[2 * k + 1]) matches ExecutionEvent::ActionError {
                        index,
                        total: t,
                        action,
                        path,
                        error,
                    } && index == k + 1 && t == total && action@
                        == plan.actions@[k].spec_action_name() && path
                        == plan.actions@[k].spec_path() && error == e,
                },
        decreases total - i,
    {
        let action = &plan.actions[i];
        let path: Option<String> = match action.path() {
            Some(p) => Some(p.clone()),
            Option::None => None,
        };
        let path_for_error: Option<String> = match &path {
            Some(p) => Some(p.clone()),
            Option::None => None,
        };
        events.push(
            ExecutionEvent::ActionStart {
                index: i + 1,
                total,
                action: action.action_name(),
                path,
            },
        );
        proof {
            lemma_outcome_prefix_step(outs, i as int);
            lemma_sum_ok_prefix_le(outs, i + 1);
            assert(outs.subrange(0, i + 1).drop_last() =~= outs.subrange(0, i as int));
            assert(outcomes@[0] == outs[i as int]);
        }
        let outcome = outcomes.remove(0);
        let path2: Option<String> = match action.path() {
            Some(p) => Some(p.clone()),
            Option::None => None,
        };
        match outcome {
            Ok(bytes) => {
                stats.completed_actions = stats.completed_actions + 1;
                stats.bytes_copied = stats.bytes_copied + bytes;
                events.push(
                    ExecutionEvent::ActionSuccess {
                        index: i + 1,
                        total,
                        action: action.action_name(),
                        path: path2,
                        bytes_copied: bytes,
                    },
                );
            },
            Err(err) => {
                stats.failed_actions = stats.failed_actions + 1;
                events.push(
                    ExecutionEvent::ActionError {
                        index: i + 1,
                        total,
                        action: action.action_name(),
                        path: path2,
                        error: clone_error_for_event(&err),
                    },
                );
                errors.push((path_for_error, err));
            },
        }
        proof {
            assert(outcomes@ =~= outs.skip(i + 1));
        }
        i = i + 1;
    }
    proof {
        assert(outs.subrange(0, total as int) =~= outs);
    }
    events.push(ExecutionEvent::Complete { stats });
    let result: Result<ExecutionStats, KopyError> = if errors.is_empty() {
        proof {
            if count_ok(outs) < outs.len() {
                lemma_failures_nonempty(plan.actions@, outs);
            }
        }
        Ok(stats)
    } else {
        proof {
            if count_ok(outs) == outs.len() {
                lemma_failures_empty(plan.actions@, outs);
            }
        }
        Err(KopyError::Validation(build_error_summary(&errors)))
    };
    (events, result)
}

proof fn lemma_failures_empty(
    actions: Seq<SyncAction>,
    outcomes: Seq<Result<u64, KopyError>>,
)
    requires
        count_ok(outcomes) == outcomes.len(),
    ensures
        failures_of(actions, outcomes).len() == 0,
    decreases outcomes.len(),
{
    lemma_outcome_counts(outcomes);
    if outcomes.len() > 0 && actions.len() >= outcomes.len() {
        lemma_outcome_counts(outcomes.drop_last());
        lemma_failures_empty(actions, outcomes.drop_last());
    }
}

proof fn lemma_failures_nonempty(
    actions: Seq<SyncAction>,
    outcomes: Seq<Result<u64, KopyError>>,
)
    requires
        count_ok(outcomes) < outcomes.len(),
        actions.len() >= outcomes.len(),
    ensures
        failures_of(actions, outcomes).len() > 0,
    decreases outcomes.len(),
{
    lemma_outcome_counts(outcomes);
    if outcomes.last() is Ok {
        lemma_failures_nonempty(actions, outcomes.drop_last());
    }
}

} // verus!
