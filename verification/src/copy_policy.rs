//! The decisions the copy loop takes for each job: whether to look at the
//! target, whether to ask the user about an existing target, and whether the
//! job is copied, skipped or the whole session is aborted.  The loop itself
//! (checking the disk, showing the dialog, running `cp`) performs the returned
//! actions and reports back what it found as the next event.

use std::cmp::Ordering;
use vstd::prelude::*;
use crate::cp_types::ExistingPathDilemma;

verus! {

/// The "apply to all" answers given so far in a copy session.
#[derive(Clone, Copy, Debug, PartialEq, Eq, Structural)]
pub struct CopyPolicy {
    pub overwrite_all: bool,
    pub skip_all: bool,
    pub replace_older_all: bool,
    pub replace_newer_all: bool,
    pub replace_different_size_all: bool,
}

/// How an existing target relates to its source.
#[derive(Clone, Copy, Debug, PartialEq, Eq, Structural)]
pub struct TargetComparison {
    /// The target was modified before the source.
    pub target_older: bool,
    /// The target was modified after the source.
    pub target_newer: bool,
    /// Source and target differ in size.
    pub sizes_differ: bool,
}

/// What the copy loop learned since the last action.
#[derive(Clone, Copy, Debug, PartialEq, Eq, Structural)]
pub enum CopyEvent {
    /// A new job is about to be processed.
    JobStarted,
    /// Whether the target path exists.
    TargetChecked(bool),
    /// How the existing target compares to the source.
    TargetCompared(TargetComparison),
    /// The user's answer about the existing target (`None`: the dialog went away without one).
    UserAnswered(TargetComparison, Option<ExistingPathDilemma>),
}

/// What the copy loop has to do next for the current job.
#[derive(Clone, Copy, Debug, PartialEq, Eq, Structural)]
pub enum CopyAction {
    /// Find out whether the target exists.
    CheckTarget,
    /// Compare modification times and sizes of source and target.
    CompareTarget,
    /// Put the copy dialog to the back and ask the user what to do with the existing target.
    AskUser,
    /// Copy the job (removing the target first); bring the copy dialog to the front first if
    /// `show_copy_dialog`.
    Copy { show_copy_dialog: bool },
    /// Leave this job out.
    Skip,
    /// Stop the whole copy session.
    Abort,
}

/// The policy at the start of a copy session: nothing applies to all.
pub open spec fn initial_policy() -> CopyPolicy {
    CopyPolicy {
        overwrite_all: false,
        skip_all: false,
        replace_older_all: false,
        replace_newer_all: false,
        replace_different_size_all: false,
    }
}

/// Every flag set in `p` is set in `q`.
pub open spec fn policy_includes(q: CopyPolicy, p: CopyPolicy) -> bool {
    &&& p.overwrite_all ==> q.overwrite_all
    &&& p.skip_all ==> q.skip_all
    &&& p.replace_older_all ==> q.replace_older_all
    &&& p.replace_newer_all ==> q.replace_newer_all
    &&& p.replace_different_size_all ==> q.replace_different_size_all
}

/// An earlier "apply to all" answer already says to replace this target.
pub open spec fn replaced_by_policy(p: CopyPolicy, c: TargetComparison) -> bool {
    ||| p.replace_older_all && c.target_older
    ||| p.replace_newer_all && c.target_newer
    ||| p.replace_different_size_all && c.sizes_differ
}

/// The policy after the user's answer: an answer for all sets its flag.
pub open spec fn policy_after_answer(p: CopyPolicy, a: ExistingPathDilemma) -> CopyPolicy {
    match a {
        ExistingPathDilemma::Skip(all) => CopyPolicy { skip_all: p.skip_all || all, ..p },
        ExistingPathDilemma::Overwrite(all) => CopyPolicy { overwrite_all: p.overwrite_all || all, ..p },
        ExistingPathDilemma::ReplaceOlder(all) => CopyPolicy {
            replace_older_all: p.replace_older_all || all,
            ..p
        },
        ExistingPathDilemma::ReplaceNewer(all) => CopyPolicy {
            replace_newer_all: p.replace_newer_all || all,
            ..p
        },
        ExistingPathDilemma::DifferentSizes(all) => CopyPolicy {
            replace_different_size_all: p.replace_different_size_all || all,
            ..p
        },
    }
}

/// Whether the user's answer means the current target is replaced.
pub open spec fn answer_copies(c: TargetComparison, a: ExistingPathDilemma) -> bool {
    match a {
        ExistingPathDilemma::Skip(_) => false,
        ExistingPathDilemma::Overwrite(_) => true,
        ExistingPathDilemma::ReplaceOlder(_) => c.target_older,
        ExistingPathDilemma::ReplaceNewer(_) => c.target_newer,
        ExistingPathDilemma::DifferentSizes(_) => c.sizes_differ,
    }
}

/// One step of the copy loop: the new policy and the next action.
pub open spec fn copy_step_spec(p: CopyPolicy, e: CopyEvent) -> (CopyPolicy, CopyAction) {
    match e {
        CopyEvent::JobStarted => if p.overwrite_all {
            (p, CopyAction::Copy { show_copy_dialog: false })
        } else {
            (p, CopyAction::CheckTarget)
        },
        CopyEvent::TargetChecked(exists) => if !exists {
            (p, CopyAction::Copy { show_copy_dialog: true })
        } else if p.skip_all {
            (p, CopyAction::Skip)
        } else {
            (p, CopyAction::CompareTarget)
        },
        CopyEvent::TargetCompared(c) => if replaced_by_policy(p, c) {
            (p, CopyAction::Copy { show_copy_dialog: true })
        } else {
            (p, CopyAction::AskUser)
        },
        CopyEvent::UserAnswered(c, answer) => match answer {
            None => (p, CopyAction::Abort),
            Some(a) => (
                policy_after_answer(p, a),
                if answer_copies(c, a) {
                    CopyAction::Copy { show_copy_dialog: true }
                } else {
                    CopyAction::Skip
                },
            ),
        },
    }
}

/// The whole handling of one job, when the loop reports `exists` for the target,
/// `c` for the comparison and `answer` for the dialog: the policy afterwards and the
/// final action (`Copy`, `Skip` or `Abort`).
pub open spec fn job_run(
    p: CopyPolicy,
    exists: bool,
    c: TargetComparison,
    answer: Option<ExistingPathDilemma>,
) -> (CopyPolicy, CopyAction) {
    let (p1, a1) = copy_step_spec(p, CopyEvent::JobStarted);
    if a1 != CopyAction::CheckTarget {
        (p1, a1)
    } else {
        let (p2, a2) = copy_step_spec(p1, CopyEvent::TargetChecked(exists));
        if a2 != CopyAction::CompareTarget {
            (p2, a2)
        } else {
            let (p3, a3) = copy_step_spec(p2, CopyEvent::TargetCompared(c));
            if a3 != CopyAction::AskUser {
                (p3, a3)
            } else {
                copy_step_spec(p3, CopyEvent::UserAnswered(c, answer))
            }
        }
    }
}

/// Whether handling a job asks the user.
pub open spec fn job_asks_user(p: CopyPolicy, exists: bool, c: TargetComparison) -> bool {
    !p.overwrite_all && exists && !p.skip_all && !replaced_by_policy(p, c)
}

impl CopyPolicy {
    /// The policy of a new copy session.
    pub fn new() -> (p: CopyPolicy)
        ensures
            p == initial_policy(),
    {
        CopyPolicy {
            overwrite_all: false,
            skip_all: false,
            replace_older_all: false,
            replace_newer_all: false,
            replace_different_size_all: false,
        }
    }
}

/// Turns the modification-time and size comparisons of source against target into the
/// facts the copy loop decides on.
pub fn compare_target(modification: Ordering, size: Ordering) -> (c: TargetComparison)
    ensures
        c.target_older == (modification == Ordering::Greater),
        c.target_newer == (modification == Ordering::Less),
        c.sizes_differ == (size != Ordering::Equal),
{
    let target_older = match modification {
        Ordering::Greater => true,
        _ => false,
    };
    let target_newer = match modification {
        Ordering::Less => true,
        _ => false,
    };
    let sizes_differ = match size {
        Ordering::Equal => false,
        _ => true,
    };
    TargetComparison { target_older, target_newer, sizes_differ }
}

fn replaced_by(p: &CopyPolicy, c: &TargetComparison) -> (b: bool)
    ensures
        b == replaced_by_policy(*p, *c),
{
    (p.replace_older_all && c.target_older) || (p.replace_newer_all && c.target_newer)
        || (p.replace_different_size_all && c.sizes_differ)
}

/// One step of the copy loop: from the current policy and what the loop just learned,
/// the policy to keep and what to do next.
pub fn copy_step(policy: &CopyPolicy, event: &CopyEvent) -> (res: (CopyPolicy, CopyAction))
    ensures
        res == copy_step_spec(*policy, *event),
{
    let p = *policy;
    match event {
        CopyEvent::JobStarted => {
            if p.overwrite_all {
                (p, CopyAction::Copy { show_copy_dialog: false })
            } else {
                (p, CopyAction::CheckTarget)
            }
        },
        CopyEvent::TargetChecked(exists) => {
            if !*exists {
                (p, CopyAction::Copy { show_copy_dialog: true })
            } else if p.skip_all {
                (p, CopyAction::Skip)
            } else {
                (p, CopyAction::CompareTarget)
            }
        },
        CopyEvent::TargetCompared(c) => {
            if replaced_by(&p, c) {
                (p, CopyAction::Copy { show_copy_dialog: true })
            } else {
                (p, CopyAction::AskUser)
            }
        },
        CopyEvent::UserAnswered(c, answer) => match answer {
            None => (p, CopyAction::Abort),
            Some(a) => {
                let (q, copies) = match a {
                    ExistingPathDilemma::Skip(all) => (CopyPolicy { skip_all: p.skip_all || *all, ..p }, false),
                    ExistingPathDilemma::Overwrite(all) => (
                        CopyPolicy { overwrite_all: p.overwrite_all || *all, ..p },
                        true,
                    ),
                    ExistingPathDilemma::ReplaceOlder(all) => (
                        CopyPolicy { replace_older_all: p.replace_older_all || *all, ..p },
                        c.target_older,
                    ),
                    ExistingPathDilemma::ReplaceNewer(all) => (
                        CopyPolicy { replace_newer_all: p.replace_newer_all || *all, ..p },
                        c.target_newer,
                    ),
                    ExistingPathDilemma::DifferentSizes(all) => (
                        CopyPolicy {
                            replace_different_size_all: p.replace_different_size_all || *all,
                            ..p
                        },
                        c.sizes_differ,
                    ),
                };
                if copies {
                    (q, CopyAction::Copy { show_copy_dialog: true })
                } else {
                    (q, CopyAction::Skip)
                }
            },
        },
    }
}

/// "Apply to all" answers are never withdrawn: every step keeps each flag that was set.
pub proof fn lemma_step_keeps_policy(p: CopyPolicy, e: CopyEvent)
    ensures
        policy_includes(copy_step_spec(p, e).0, p),
{
}

/// Once "overwrite all" was chosen, every further job is copied at once, without looking at
/// the target and without asking.
pub proof fn lemma_overwrite_all_copies_everything(
    p: CopyPolicy,
    exists: bool,
    c: TargetComparison,
    answer: Option<ExistingPathDilemma>,
)
    requires
        p.overwrite_all,
    ensures
        copy_step_spec(p, CopyEvent::JobStarted) == (p, CopyAction::Copy { show_copy_dialog: false }),
        job_run(p, exists, c, answer) == (p, CopyAction::Copy { show_copy_dialog: false }),
        !job_asks_user(p, exists, c),
{
}

/// A job whose target does not exist is always copied, whatever the policy, and nobody is asked.
pub proof fn lemma_missing_target_is_copied(
    p: CopyPolicy,
    c: TargetComparison,
    answer: Option<ExistingPathDilemma>,
)
    ensures
        copy_step_spec(p, CopyEvent::TargetChecked(false)).1 == (CopyAction::Copy { show_copy_dialog: true }),
        job_run(p, false, c, answer).1 is Copy,
        job_run(p, false, c, answer).0 == p,
        !job_asks_user(p, false, c),
{
}

/// Once "skip all" was chosen (and not "overwrite all"), every existing target is skipped
/// without asking.
pub proof fn lemma_skip_all_skips_existing(
    p: CopyPolicy,
    c: TargetComparison,
    answer: Option<ExistingPathDilemma>,
)
    requires
        p.skip_all,
        !p.overwrite_all,
    ensures
        copy_step_spec(p, CopyEvent::TargetChecked(true)) == (p, CopyAction::Skip),
        job_run(p, true, c, answer) == (p, CopyAction::Skip),
        !job_asks_user(p, true, c),
{
}

/// The user is asked about an existing target exactly when no earlier answer for all
/// decides it; when one does, the target is replaced.
pub proof fn lemma_ask_only_when_undecided(p: CopyPolicy, c: TargetComparison)
    ensures
        (copy_step_spec(p, CopyEvent::TargetCompared(c)).1 == CopyAction::AskUser)
            <==> !replaced_by_policy(p, c),
        replaced_by_policy(p, c) ==> copy_step_spec(p, CopyEvent::TargetCompared(c)) == (
            p,
            CopyAction::Copy { show_copy_dialog: true },
        ),
{
}

/// What handling a job ends with: a copy, a skip, or (only after an unanswered dialog) an abort;
/// the user's answer matters only when the user is asked.
pub proof fn lemma_job_run_outcome(
    p: CopyPolicy,
    exists: bool,
    c: TargetComparison,
    answer: Option<ExistingPathDilemma>,
    other: Option<ExistingPathDilemma>,
)
    ensures
        job_run(p, exists, c, answer).1 is Copy || job_run(p, exists, c, answer).1 is Skip
            || job_run(p, exists, c, answer).1 is Abort,
        job_run(p, exists, c, answer).1 is Abort <==> (job_asks_user(p, exists, c) && answer is None),
        !job_asks_user(p, exists, c) ==> job_run(p, exists, c, answer) == job_run(p, exists, c, other),
        policy_includes(job_run(p, exists, c, answer).0, p),
        job_asks_user(p, exists, c) && answer is Some ==> job_run(p, exists, c, answer) == (
            policy_after_answer(p, answer->0),
            if answer_copies(c, answer->0) {
                CopyAction::Copy { show_copy_dialog: true }
            } else {
                CopyAction::Skip
            },
        ),
{
}

/// An answer given "for all" decides every later conflict of the same kind without asking:
/// after it (and any further answers), an existing target with that property is replaced.
pub proof fn lemma_answer_for_all_is_remembered(
    p: CopyPolicy,
    c: TargetComparison,
    a: ExistingPathDilemma,
    later: CopyPolicy,
    c2: TargetComparison,
    answer2: Option<ExistingPathDilemma>,
)
    requires
        job_asks_user(p, true, c),
        policy_includes(later, copy_step_spec(p, CopyEvent::UserAnswered(c, Some(a))).0),
        !later.overwrite_all,
        !later.skip_all,
        a == ExistingPathDilemma::ReplaceOlder(true) ==> c2.target_older,
        a == ExistingPathDilemma::ReplaceNewer(true) ==> c2.target_newer,
        a == ExistingPathDilemma::DifferentSizes(true) ==> c2.sizes_differ,
        a == ExistingPathDilemma::ReplaceOlder(true) || a == ExistingPathDilemma::ReplaceNewer(true)
            || a == ExistingPathDilemma::DifferentSizes(true),
    ensures
        !job_asks_user(later, true, c2),
        job_run(later, true, c2, answer2) == (later, CopyAction::Copy { show_copy_dialog: true }),
{
}

/// What the user's answer about an existing target does to it, for the current job and for
/// all later ones: "Overwrite" always copies, "Skip" never does, "Replace older" copies exactly
/// when the target is older than the source, "Replace newer" exactly when it is newer, and
/// "Different sizes" exactly when the sizes differ; the sizes matter to no other answer and the
/// times to no other answer. The answer for all sets its own flag and leaves the others.
pub proof fn lemma_answer_decides_copy(p: CopyPolicy, c: TargetComparison, all: bool)
    ensures
        copy_step_spec(p, CopyEvent::UserAnswered(c, Some(ExistingPathDilemma::Overwrite(all)))).1
            == (CopyAction::Copy { show_copy_dialog: true }),
        copy_step_spec(p, CopyEvent::UserAnswered(c, Some(ExistingPathDilemma::Skip(all)))).1
            == CopyAction::Skip,
        copy_step_spec(p, CopyEvent::UserAnswered(c, Some(ExistingPathDilemma::ReplaceOlder(all)))).1
            == (if c.target_older { CopyAction::Copy { show_copy_dialog: true } } else { CopyAction::Skip }),
        copy_step_spec(p, CopyEvent::UserAnswered(c, Some(ExistingPathDilemma::ReplaceNewer(all)))).1
            == (if c.target_newer { CopyAction::Copy { show_copy_dialog: true } } else { CopyAction::Skip }),
        copy_step_spec(p, CopyEvent::UserAnswered(c, Some(ExistingPathDilemma::DifferentSizes(all)))).1
            == (if c.sizes_differ { CopyAction::Copy { show_copy_dialog: true } } else { CopyAction::Skip }),
        copy_step_spec(p, CopyEvent::UserAnswered(c, Some(ExistingPathDilemma::Overwrite(all)))).0
            == (CopyPolicy { overwrite_all: p.overwrite_all || all, ..p }),
        copy_step_spec(p, CopyEvent::UserAnswered(c, Some(ExistingPathDilemma::Skip(all)))).0
            == (CopyPolicy { skip_all: p.skip_all || all, ..p }),
        copy_step_spec(p, CopyEvent::UserAnswered(c, Some(ExistingPathDilemma::ReplaceOlder(all)))).0
            == (CopyPolicy { replace_older_all: p.replace_older_all || all, ..p }),
        copy_step_spec(p, CopyEvent::UserAnswered(c, Some(ExistingPathDilemma::ReplaceNewer(all)))).0
            == (CopyPolicy { replace_newer_all: p.replace_newer_all || all, ..p }),
        copy_step_spec(p, CopyEvent::UserAnswered(c, Some(ExistingPathDilemma::DifferentSizes(all)))).0
            == (CopyPolicy { replace_different_size_all: p.replace_different_size_all || all, ..p }),
{
}

/// An earlier answer for all replaces an existing target without asking exactly when the
/// target has the property that answer named: older, newer, or of another size.
pub proof fn lemma_policy_replaces_by_property(p: CopyPolicy, c: TargetComparison)
    ensures
        (copy_step_spec(p, CopyEvent::TargetCompared(c)).1 == (CopyAction::Copy { show_copy_dialog: true }))
            <==> ((p.replace_older_all && c.target_older) || (p.replace_newer_all && c.target_newer)
            || (p.replace_different_size_all && c.sizes_differ)),
        copy_step_spec(p, CopyEvent::TargetCompared(c)).0 == p,
{
}

/// The order of the questions for one job: without "overwrite all" the target is looked
/// at first; a missing target is copied; an existing one is skipped under "skip all" and
/// compared otherwise; a dialog closed without an answer stops the session. None of these
/// steps changes the policy.
pub proof fn lemma_step_flow(p: CopyPolicy, exists: bool, c: TargetComparison)
    ensures
        !p.overwrite_all ==> copy_step_spec(p, CopyEvent::JobStarted) == (p, CopyAction::CheckTarget),
        !exists ==> copy_step_spec(p, CopyEvent::TargetChecked(exists)) == (p, CopyAction::Copy { show_copy_dialog: true }),
        exists && p.skip_all ==> copy_step_spec(p, CopyEvent::TargetChecked(exists)) == (p, CopyAction::Skip),
        exists && !p.skip_all ==> copy_step_spec(p, CopyEvent::TargetChecked(exists)) == (p, CopyAction::CompareTarget),
        copy_step_spec(p, CopyEvent::UserAnswered(c, None)) == (p, CopyAction::Abort),
{
}

} // verus!
