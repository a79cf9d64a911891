//! The order of steps by which new content takes the place of a file.
//!
//! The content is written to a temporary file beside the target and then
//! renamed over it, so that the target is never seen half written. The
//! steps themselves touch the file system and are taken by the caller; this
//! module decides which step comes next.

use vstd::prelude::*;

verus! {

/// One step of writing a file back.
#[derive(Clone, Copy, Debug, PartialEq, Eq, Structural)]
pub enum Step {
    /// Find the target's canonical path.
    Resolve,
    /// Create a temporary file in the target's directory.
    CreateTemp,
    /// Give the temporary file the length of the new content.
    Resize,
    /// Give the temporary file the target's permissions.
    CopyPermissions,
    /// Write the new content into the temporary file.
    WriteContent,
    /// Flush what was written.
    Flush,
    /// Rename the temporary file over the target.
    Rename,
}

/// What follows a step.
#[derive(Clone, Copy, Debug, PartialEq, Eq, Structural)]
pub enum Next {
    /// Take this step.
    Run(Step),
    /// The target holds the new content.
    Done,
    /// Give up; the target is as it was.
    Abort,
}

/// What follows a step that is not held against the job. Empty content is
/// not written, so that nothing of length zero is mapped.
pub open spec fn following(step: Step, content_is_empty: bool) -> Next {
    match step {
        Step::Resolve => Next::Run(Step::CreateTemp),
        Step::CreateTemp => Next::Run(Step::Resize),
        Step::Resize => Next::Run(Step::CopyPermissions),
        Step::CopyPermissions => if content_is_empty {
            Next::Run(Step::Rename)
        } else {
            Next::Run(Step::WriteContent)
        },
        Step::WriteContent => Next::Run(Step::Flush),
        Step::Flush => Next::Run(Step::Rename),
        Step::Rename => Next::Done,
    }
}

/// What follows a step that succeeded or failed. A failure ends the job,
/// but for the copying of permissions, which is tried and not insisted on.
pub open spec fn next_step(step: Step, succeeded: bool, content_is_empty: bool) -> Next {
    if succeeded || step == Step::CopyPermissions {
        following(step, content_is_empty)
    } else {
        Next::Abort
    }
}

/// Where a job stands after the steps taken so far ended as `results`
/// says, one entry for each step taken, `true` for a success.
pub open spec fn state_after(results: Seq<bool>, content_is_empty: bool) -> Next
    decreases results.len(),
{
    if results.len() == 0 {
        Next::Run(Step::Resolve)
    } else {
        match state_after(results.drop_last(), content_is_empty) {
            Next::Run(step) => next_step(step, results.last(), content_is_empty),
            ended => ended,
        }
    }
}

/// The step that a job begins with.
pub fn first_step() -> (step: Step)
    ensures
        Next::Run(step) == state_after(Seq::empty(), true),
        Next::Run(step) == state_after(Seq::empty(), false),
{
    Step::Resolve
}

/// Decides what follows a step.
pub fn advance(step: Step, succeeded: bool, content_is_empty: bool) -> (next: Next)
    ensures
        next == next_step(step, succeeded, content_is_empty),
{
    match step {
        Step::CopyPermissions => if content_is_empty {
            Next::Run(Step::Rename)
        } else {
            Next::Run(Step::WriteContent)
        },
        _ if !succeeded => Next::Abort,
        Step::Resolve => Next::Run(Step::CreateTemp),
        Step::CreateTemp => Next::Run(Step::Resize),
        Step::Resize => Next::Run(Step::CopyPermissions),
        Step::WriteContent => Next::Run(Step::Flush),
        Step::Flush => Next::Run(Step::Rename),
        Step::Rename => Next::Done,
    }
}

/// How many steps come before the rename.
pub open spec fn steps_before_rename(content_is_empty: bool) -> int {
    if content_is_empty {
        4
    } else {
        6
    }
}

/// Each of the first `upto` steps taken succeeded, but for the fourth, the
/// copying of permissions, which may have failed.
pub open spec fn succeeded_through(results: Seq<bool>, upto: int) -> bool {
    forall|i: int| 0 <= i < upto && i < results.len() && i != 3 ==> #[trigger] results[i]
}

/// The rename comes last and only after success: it is the next step
/// exactly when every step before it was taken and each of them, but for
/// the copying of permissions, succeeded. For empty content these are four
/// steps, else six.
pub proof fn rename_only_after_success(results: Seq<bool>, content_is_empty: bool)
    ensures
        state_after(results, content_is_empty) == Next::Run(Step::Rename) <==> results.len()
            == steps_before_rename(content_is_empty) && succeeded_through(
            results,
            steps_before_rename(content_is_empty),
        ),
{
    lemma_progress(results, content_is_empty);
}

/// The target is replaced by the rename and by nothing else: a job is done
/// exactly when every step up to and including the rename was taken and
/// each of them, but for the copying of permissions, succeeded.
pub proof fn done_only_by_rename(results: Seq<bool>, content_is_empty: bool)
    ensures
        state_after(results, content_is_empty) == Next::Done <==> results.len()
            > steps_before_rename(content_is_empty) && succeeded_through(
            results,
            steps_before_rename(content_is_empty) + 1,
        ),
{
    lemma_progress(results, content_is_empty);
}

/// A step that fails ends the job with the target untouched, unless it is
/// the copying of permissions: a job is given up exactly when one of the
/// steps up to and including the rename was taken and failed, the copying
/// of permissions apart.
pub proof fn failure_aborts(results: Seq<bool>, content_is_empty: bool)
    ensures
        state_after(results, content_is_empty) == Next::Abort <==> !succeeded_through(
            results,
            steps_before_rename(content_is_empty) + 1,
        ),
{
    lemma_progress(results, content_is_empty);
}

/// The step that is taken as number `taken`, counted from 0, where all
/// went well so far.
pub open spec fn step_number(taken: int, content_is_empty: bool) -> Step {
    if taken == 0 {
        Step::Resolve
    } else if taken == 1 {
        Step::CreateTemp
    } else if taken == 2 {
        Step::Resize
    } else if taken == 3 {
        Step::CopyPermissions
    } else if content_is_empty {
        Step::Rename
    } else if taken == 4 {
        Step::WriteContent
    } else if taken == 5 {
        Step::Flush
    } else {
        Step::Rename
    }
}

proof fn lemma_progress(results: Seq<bool>, content_is_empty: bool)
    ensures
        match state_after(results, content_is_empty) {
            Next::Run(step) => results.len() <= steps_before_rename(content_is_empty)
                && succeeded_through(results, results.len() as int) && step == step_number(
                results.len() as int,
                content_is_empty,
            ),
            Next::Done => results.len() > steps_before_rename(content_is_empty)
                && succeeded_through(results, steps_before_rename(content_is_empty) + 1),
            Next::Abort => !succeeded_through(results, steps_before_rename(content_is_empty) + 1),
        },
    decreases results.len(),
{
    let n = steps_before_rename(content_is_empty);
    if results.len() > 0 {
        let init = results.drop_last();
        lemma_progress(init, content_is_empty);
        match state_after(init, content_is_empty) {
            Next::Run(step) => {
                if results.last() || step == Step::CopyPermissions {
                    assert forall|i: int|
                        0 <= i < results.len() && i != 3 implies #[trigger] results[i] by {
                        if i < init.len() {
                            assert(init[i]);
                        }
                    }
                } else {
                    assert(!results[results.len() - 1]);
                }
            },
            Next::Done => {
                assert forall|i: int|
                    0 <= i < n + 1 && i < results.len() && i != 3 implies #[trigger] results[i] by {
                    assert(init[i]);
                }
            },
            Next::Abort => {
                let bad = choose|i: int|
                    0 <= i < n + 1 && i < init.len() && i != 3 && !#[trigger] init[i];
                assert(!results[bad]);
            },
        }
    }
}

} // verus!
