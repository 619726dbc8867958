//! What holds of every course that a rip can take.
use super::makemkv_core::{
    RipActionModel, RipEvent, RipOutcomeModel, RipPhase, RipTaskModel,
};
use super::drives::{apply, succeeds, DriveOp};
use super::errors::MakeMkvErrorModel;
use super::layout::{destination_path, first_artifact, join_path};
use super::makemkv_core::RipModel;
use super::makemkv_helpers::{failed_save_marker, output_verdict, rip_command, ProcessOutput};
use crate::text::texts;
use crate::bytes::holds;
use vstd::prelude::*;

verus! {

/// The task after the events `events`, one after the other.
pub open spec fn run(task: RipTaskModel, events: Seq<RipEvent>) -> RipTaskModel
    decreases events.len(),
{
    if events.len() == 0 {
        task
    } else {
        run(task, events.drop_last()).step(events.last()).0
    }
}

/// What the engine asks for in answer to the event at place `i` of `events`.
pub open spec fn action_at(task: RipTaskModel, events: Seq<RipEvent>, i: int) -> RipActionModel {
    run(task, events.take(i)).step(events[i]).1
}

/// The claimed drives after a step of a task: the task's drive is released
/// at the step at which the task ceases to hold it.
pub open spec fn drives_after(drives: Set<u8>, task: RipTaskModel, event: RipEvent) -> Set<u8> {
    if task.holds_drive() && !task.step(event).0.holds_drive() {
        drives.remove(task.rip.drive_number)
    } else {
        drives
    }
}

/// Whether the tool has ended well for a task in this phase.
pub open spec fn past_the_tool(phase: RipPhase) -> bool {
    phase == RipPhase::Measuring || phase == RipPhase::Listing || phase == RipPhase::Preparing
        || phase == RipPhase::Moving || phase == RipPhase::Cleaning
}

/// Whether the event at place `i` is the tool ending well while the task is
/// ripping.
pub open spec fn tool_ends_well_at(task: RipTaskModel, events: Seq<RipEvent>, i: int) -> bool {
    &&& 0 <= i < events.len()
    &&& run(task, events.take(i)).phase == RipPhase::Ripping
    &&& events[i] matches RipEvent::ToolExited { output }
    &&& output_verdict(output) is None
}

/// Whether the claims are in order for two tasks: a task that holds its
/// drive has it claimed, and the two do not hold one drive.
pub open spec fn exclusive(drives: Set<u8>, a: RipTaskModel, b: RipTaskModel) -> bool {
    &&& a.holds_drive() ==> drives.contains(a.rip.drive_number)
    &&& b.holds_drive() ==> drives.contains(b.rip.drive_number)
    &&& a.holds_drive() && b.holds_drive() ==> a.rip.drive_number != b.rip.drive_number
}

/// A rip of the disc in a claimed drive fails at once, and leaves the claim
/// to its holder.
pub proof fn busy_drive_refuses_a_rip(drives: Set<u8>, rip: RipModel, root: Seq<char>)
    requires
        drives.contains(rip.drive_number),
    ensures
        RipTaskModel::start(rip, root, succeeds(drives, DriveOp::Lock(rip.drive_number))) == (
            RipTaskModel::created(rip, root).failed(
                MakeMkvErrorModel::DriveInUseError(rip.drive_number),
            ),
            RipActionModel::Finish,
        ),
        apply(drives, DriveOp::Lock(rip.drive_number)) == drives,
{
    assert(drives.insert(rip.drive_number) =~= drives);
}

/// No two rips hold one drive. Where the claims are in order for a task and
/// any other, they are still in order when a new rip starts beside the task,
/// and when either task takes a step.
pub proof fn drives_stay_exclusive(
    drives: Set<u8>,
    a: RipTaskModel,
    b: RipTaskModel,
    event: RipEvent,
    rip: RipModel,
    root: Seq<char>,
)
    requires
        exclusive(drives, a, b),
    ensures
        exclusive(drives_after(drives, a, event), a.step(event).0, b),
        exclusive(drives_after(drives, b, event), a, b.step(event).0),
        exclusive(
            apply(drives, DriveOp::Lock(rip.drive_number)),
            a,
            RipTaskModel::start(rip, root, succeeds(drives, DriveOp::Lock(rip.drive_number))).0,
        ),
{
}

/// A request to cancel that arrives while the task holds its drive, that is
/// before the tool has ended, ends the rip as cancelled and releases the
/// drive. The tool is stopped and the staging directory removed where there
/// is one; nothing else is asked for.
pub proof fn cancel_before_the_tool_ends(task: RipTaskModel, drives: Set<u8>)
    requires
        task.holds_drive(),
    ensures
        task.step(RipEvent::CancelRequested).0 == task.finished(RipOutcomeModel::Cancelled),
        task.step(RipEvent::CancelRequested).1 == if task.phase == RipPhase::Ripping {
            RipActionModel::Abort { staging: task.staging }
        } else {
            RipActionModel::Finish
        },
        !drives_after(drives, task, RipEvent::CancelRequested).contains(task.rip.drive_number),
{
}

/// A request to cancel that arrives once the tool has ended changes nothing.
pub proof fn cancel_after_the_tool_ended(task: RipTaskModel, drives: Set<u8>)
    requires
        !task.holds_drive(),
    ensures
        task.step(RipEvent::CancelRequested).0 == task,
        task.step(RipEvent::CancelRequested).1 == if task.phase == RipPhase::Finished {
            RipActionModel::Finish
        } else {
            RipActionModel::Continue
        },
        drives_after(drives, task, RipEvent::CancelRequested) == drives,
{
}

/// A finished task stays as it is whatever comes, and nothing more is asked
/// for on its behalf.
pub proof fn finished_is_final(task: RipTaskModel, events: Seq<RipEvent>)
    requires
        task.phase == RipPhase::Finished,
    ensures
        run(task, events) == task,
        forall|i: int| 0 <= i < events.len() ==> action_at(task, events, i) == RipActionModel::Finish,
    decreases events.len(),
{
    if events.len() > 0 {
        finished_is_final(task, events.drop_last());
        assert forall|i: int| 0 <= i < events.len() implies action_at(task, events, i)
            == RipActionModel::Finish by {
            finished_is_final(task, events.take(i));
        }
    }
}

/// After a rip was cancelled before the tool ended, its outcome stays
/// cancelled and no artifact is ever moved: every later answer of the engine
/// is that the rip is finished.
pub proof fn nothing_moves_after_cancel(task: RipTaskModel, later: Seq<RipEvent>)
    requires
        task.holds_drive(),
    ensures
        run(task.step(RipEvent::CancelRequested).0, later).outcome == Some(
            RipOutcomeModel::Cancelled,
        ),
        forall|i: int|
            0 <= i < later.len() ==> action_at(task.step(RipEvent::CancelRequested).0, later, i)
                == RipActionModel::Finish,
{
    finished_is_final(task.step(RipEvent::CancelRequested).0, later);
}

/// The tool is started only by a task that holds its drive, and the task
/// still holds it while the tool runs.
pub proof fn tool_runs_under_claim(task: RipTaskModel, event: RipEvent)
    requires
        task.step(event).1 is RunTool,
    ensures
        task.holds_drive(),
        task.step(event).0.phase == RipPhase::Ripping,
        task.step(event).0.holds_drive(),
{
}

/// Whatever ends the run of the tool (its exit, a failure to launch it, a
/// request to cancel) releases the drive at that very step: the drive is
/// free before anything is done with the tool's output.
pub proof fn drive_is_free_once_the_tool_ended(task: RipTaskModel, event: RipEvent, drives: Set<u8>)
    requires
        task.phase == RipPhase::Ripping,
        task.step(event).0.phase != RipPhase::Ripping,
    ensures
        !drives_after(drives, task, event).contains(task.rip.drive_number),
        !task.step(event).0.holds_drive(),
{
}

/// A task that does not hold its drive never holds it again: a rip claims
/// its drive once, when it starts.
pub proof fn drive_is_claimed_once(task: RipTaskModel, event: RipEvent)
    requires
        !task.holds_drive(),
    ensures
        !task.step(event).0.holds_drive(),
{
}

/// A task has its outcome if and only if it is finished, at the start and
/// after every step.
pub proof fn outcome_comes_with_the_end(task: RipTaskModel, event: RipEvent)
    requires
        task.well_formed(),
    ensures
        task.step(event).0.well_formed(),
        task.phase == RipPhase::Finished ==> task.step(event).0.outcome == task.outcome,
{
}

/// The staging directory is listed and emptied, and the artifact measured
/// and moved, only for a task for which the tool has ended well.
pub proof fn relocation_follows_success(task: RipTaskModel, event: RipEvent)
    requires
        ({
            let action = task.step(event).1;
            action is ListStaging || action is MeasureArtifact || action is CreateDestination
                || action is MoveArtifact || action is RemoveStaging
        }),
    ensures
        past_the_tool(task.step(event).0.phase),
        task.step(event).1 is MoveArtifact ==> task.phase == RipPhase::Preparing,
{
}

/// Whether a task in this phase has a staging directory that nobody was
/// asked to remove yet.
pub open spec fn has_staging(phase: RipPhase) -> bool {
    phase == RipPhase::Ripping || phase == RipPhase::Measuring || phase == RipPhase::Listing
        || phase == RipPhase::Preparing || phase == RipPhase::Moving
}

/// No staging directory is left behind: the step that ends a rip with a
/// staging directory asks for the directory's removal, and so does the step
/// that follows the move of the artifact.
pub proof fn staging_never_stays(task: RipTaskModel, event: RipEvent)
    requires
        has_staging(task.phase),
        !has_staging(task.step(event).0.phase),
    ensures
        task.step(event).0.phase == RipPhase::Finished ==> task.step(event).1 == (
        RipActionModel::Abort { staging: task.staging }) || task.step(event).1 == (
        RipActionModel::Discard { staging: task.staging }),
        task.step(event).0.phase != RipPhase::Finished ==> task.step(event).0.phase
            == RipPhase::Cleaning && task.step(event).1 == (RipActionModel::RemoveStaging {
            path: task.staging,
        }),
{
}

/// A rip whose tool reports success but prints its words for a failed save
/// fails as an unreadable disc: it never succeeds, and nothing of it is moved.
pub proof fn unreadable_disc_never_succeeds(task: RipTaskModel, output: ProcessOutput, later: Seq<RipEvent>)
    requires
        task.phase == RipPhase::Ripping,
        output.exit_code == Some(0i32),
        holds(output.stdout@, failed_save_marker()),
    ensures
        task.step(RipEvent::ToolExited { output }).0 == task.failed(
            MakeMkvErrorModel::FailedToSaveDisc,
        ),
        task.step(RipEvent::ToolExited { output }).1 == (RipActionModel::Discard {
            staging: task.staging,
        }),
        run(task.step(RipEvent::ToolExited { output }).0, later).outcome == Some(
            RipOutcomeModel::Failed { reason: MakeMkvErrorModel::FailedToSaveDisc },
        ),
{
    finished_is_final(task.step(RipEvent::ToolExited { output }).0, later);
}

/// The course of a rip in which nothing goes wrong: the drive is free, the
/// staging directory is made, the tool ends well and leaves a media file,
/// and every step on the filesystem succeeds. The artifact is then moved
/// from the staging directory to the destination of the request, the rip
/// succeeds with the size that was measured of the file that is moved and
/// with the time that was taken, and the task has held its drive from its
/// start until the tool ended.
pub proof fn good_course_succeeds(
    rip: RipModel,
    root: Seq<char>,
    path: String,
    output: ProcessOutput,
    bytes: u64,
    elapsed: u64,
    files: Vec<String>,
)
    requires
        output_verdict(output) is None,
        first_artifact(texts(files@)) is Some,
    ensures
        ({
            let events = seq![
                RipEvent::StagingCreated { path },
                RipEvent::ToolExited { output },
                RipEvent::StagingListed { files },
                RipEvent::ArtifactMeasured { bytes, elapsed },
                RipEvent::DestinationCreated,
                RipEvent::ArtifactMoved,
                RipEvent::StagingRemoved,
            ];
            let start = RipTaskModel::start(rip, root, true).0;
            &&& RipTaskModel::start(rip, root, true).1 == (RipActionModel::CreateStaging { root })
            &&& start.holds_drive()
            &&& action_at(start, events, 0) == (RipActionModel::RunTool {
                command: rip_command(rip, path@),
            })
            &&& run(start, events.take(1)).holds_drive()
            &&& !run(start, events.take(2)).holds_drive()
            &&& action_at(start, events, 2) == (RipActionModel::MeasureArtifact {
                path: join_path(path@, first_artifact(texts(files@))->Some_0),
            })
            &&& action_at(start, events, 4) == (RipActionModel::MoveArtifact {
                from: join_path(path@, first_artifact(texts(files@))->Some_0),
                to: destination_path(root, rip),
            })
            &&& action_at(start, events, 5) == (RipActionModel::RemoveStaging { path: path@ })
            &&& action_at(start, events, 6) == RipActionModel::Finish
            &&& run(start, events).phase == RipPhase::Finished
            &&& run(start, events).outcome == Some(
                RipOutcomeModel::Succeeded { elapsed, bytes_moved: bytes },
            )
        }),
{
    let events = seq![
        RipEvent::StagingCreated { path },
        RipEvent::ToolExited { output },
        RipEvent::StagingListed { files },
        RipEvent::ArtifactMeasured { bytes, elapsed },
        RipEvent::DestinationCreated,
        RipEvent::ArtifactMoved,
        RipEvent::StagingRemoved,
    ];
    let start = RipTaskModel::start(rip, root, true).0;
    let t0 = run(start, events.take(0));
    assert(events.take(0).len() == 0);
    assert(t0 == start);
    let t1 = run(start, events.take(1));
    assert(events.take(1).drop_last() == events.take(0));
    assert(events.take(1).last() == events[0]);
    assert(t1 == t0.step(events[0]).0);
    let t2 = run(start, events.take(2));
    assert(events.take(2).drop_last() == events.take(1));
    assert(events.take(2).last() == events[1]);
    assert(t2 == t1.step(events[1]).0);
    let t3 = run(start, events.take(3));
    assert(events.take(3).drop_last() == events.take(2));
    assert(events.take(3).last() == events[2]);
    assert(t3 == t2.step(events[2]).0);
    let t4 = run(start, events.take(4));
    assert(events.take(4).drop_last() == events.take(3));
    assert(events.take(4).last() == events[3]);
    assert(t4 == t3.step(events[3]).0);
    let t5 = run(start, events.take(5));
    assert(events.take(5).drop_last() == events.take(4));
    assert(events.take(5).last() == events[4]);
    assert(t5 == t4.step(events[4]).0);
    let t6 = run(start, events.take(6));
    assert(events.take(6).drop_last() == events.take(5));
    assert(events.take(6).last() == events[5]);
    assert(t6 == t5.step(events[5]).0);
    assert(events.drop_last() == events.take(6));
    assert(events.last() == events[6]);
    assert(run(start, events) == t6.step(events[6]).0);
}

/// A task gets past the tool only by the tool ending well: where a course of
/// events has brought a task that was not past the tool there, one of the
/// events was the tool's exit with output that is judged good, handed in
/// while the task was ripping.
pub proof fn success_was_verified(task: RipTaskModel, events: Seq<RipEvent>)
    requires
        !past_the_tool(task.phase),
        past_the_tool(run(task, events).phase),
    ensures
        exists|i: int| tool_ends_well_at(task, events, i),
    decreases events.len(),
{
    if events.len() > 0 {
        let before = events.drop_last();
        let earlier = run(task, before);
        if past_the_tool(earlier.phase) {
            success_was_verified(task, before);
            let i = choose|i: int| tool_ends_well_at(task, before, i);
            assert(before.take(i) == events.take(i));
            assert(events[i] == before[i]);
            assert(tool_ends_well_at(task, events, i));
        } else {
            let i = events.len() - 1;
            assert(events.take(i) == before);
            assert(events[i] == events.last());
            assert(tool_ends_well_at(task, events, i));
        }
    }
}

} // verus!
