//! Rips and the engine that runs them: which drives are claimed, and where a
//! rip stands between its request and its outcome.
use super::drives::{apply, succeeds, DriveOp, DriveRegistry};
use super::errors::{IoKind, MakeMkvError, MakeMkvErrorModel, Result};
use super::lifecycle::drives_after;
use super::layout::{
    destination_dir, destination_dir_of, destination_path, first_artifact, join_path, path_in,
    select_artifact,
};
use super::makemkv_helpers::{
    check_makemkv_output, output_verdict, rip_command, rip_command_for, Command,
    CommandModel, ProcessOutput,
};
use crate::text::texts;
use vstd::prelude::*;

verus! {

/// What is ripped: a movie, or one episode of a show.
#[derive(Debug, Clone, Copy, PartialEq, Eq, Structural)]
pub enum RipType {
    Movie,
    Show { season: u8, episode: u8 },
}

/// A request to rip one title of the disc in one drive.
#[derive(Debug, PartialEq, Eq)]
pub struct Rip {
    /// The name under which the result is filed.
    pub title: String,
    /// The drive, counted from 1.
    pub drive_number: u8,
    pub rip_type: RipType,
    /// The title on the disc, counted from 1.
    pub title_id: u16,
}

/// A `Rip` with its title as a character sequence.
pub struct RipModel {
    pub title: Seq<char>,
    pub drive_number: u8,
    pub rip_type: RipType,
    pub title_id: u16,
}

impl View for Rip {
    type V = RipModel;

    open spec fn view(&self) -> RipModel {
        RipModel {
            title: self.title@,
            drive_number: self.drive_number,
            rip_type: self.rip_type,
            title_id: self.title_id,
        }
    }
}

impl RipModel {
    /// A request names something to file the result under, and counts its
    /// drive and its title from 1.
    pub open spec fn well_formed(self) -> bool {
        self.title.len() > 0 && self.drive_number >= 1 && self.title_id >= 1
    }
}

impl Rip {
    /// Whether the request is well formed.
    pub fn is_well_formed(&self) -> (r: bool)
        ensures
            r == self@.well_formed(),
    {
        !self.title.as_str().is_empty() && self.drive_number >= 1 && self.title_id >= 1
    }

    /// The episode that is ripped, if the rip is of an episode.
    pub fn episode(&self) -> (r: Option<u8>)
        ensures
            r == (match self.rip_type {
                RipType::Show { season, episode } => Some(episode),
                RipType::Movie => None,
            }),
    {
        match self.rip_type {
            RipType::Show { season: _, episode } => Some(episode),
            RipType::Movie => None,
        }
    }
}

/// The engine: the output root below which results are filed, and the drives
/// that rips have claimed.
pub struct MakeMkv {
    pub output_dir: String,
    pub drives: DriveRegistry,
}

impl Default for MakeMkv {
    fn default() -> (r: MakeMkv)
        ensures
            r.output_dir@ == Seq::<char>::empty(),
            r.drives@ == Set::<u8>::empty(),
    {
        MakeMkv { output_dir: String::new(), drives: DriveRegistry::new() }
    }
}

/// How a rip ended.
#[derive(Debug, PartialEq, Eq)]
pub enum RipOutcome {
    /// The artifact stands at its destination.
    Succeeded { elapsed: u64, bytes_moved: u64 },
    /// The rip was cancelled before the tool finished.
    Cancelled,
    Failed { reason: MakeMkvError },
}

/// A `RipOutcome` with its texts as character sequences.
pub enum RipOutcomeModel {
    Succeeded { elapsed: u64, bytes_moved: u64 },
    Cancelled,
    Failed { reason: MakeMkvErrorModel },
}

impl View for RipOutcome {
    type V = RipOutcomeModel;

    open spec fn view(&self) -> RipOutcomeModel {
        match *self {
            RipOutcome::Succeeded { elapsed, bytes_moved } => RipOutcomeModel::Succeeded {
                elapsed,
                bytes_moved,
            },
            RipOutcome::Cancelled => RipOutcomeModel::Cancelled,
            RipOutcome::Failed { reason } => RipOutcomeModel::Failed { reason: reason@ },
        }
    }
}

impl RipOutcome {
    /// Whether the rip was cancelled.
    pub fn is_cancelled(&self) -> (r: bool)
        ensures
            r == (self@ == RipOutcomeModel::Cancelled),
    {
        match self {
            RipOutcome::Cancelled => true,
            _ => false,
        }
    }
}

/// Where a rip stands.
#[derive(Debug, Clone, Copy, PartialEq, Eq, Structural)]
pub enum RipPhase {
    /// Nothing has happened yet.
    Created,
    /// The drive is claimed; the staging directory is being made.
    Staging,
    /// The drive is claimed; the tool runs and may be cancelled.
    Ripping,
    /// The tool ended well and the drive is released; the files of the
    /// staging directory are being listed.
    Listing,
    /// The artifact is found and is being measured.
    Measuring,
    /// The destination directory is being made.
    Preparing,
    /// The artifact is being moved to its destination.
    Moving,
    /// The artifact has been moved; the staging directory is being removed.
    Cleaning,
    /// The rip has its outcome.
    Finished,
}

/// One rip on its way from request to outcome.
#[derive(Debug)]
pub struct RipTask {
    pub rip: Rip,
    pub phase: RipPhase,
    /// The output root that the rip started with.
    pub root: String,
    /// The staging directory, once it is made.
    pub staging: String,
    /// The artifact in the staging directory, once it is found.
    pub artifact: String,
    /// The size of the artifact, once it is measured.
    pub bytes: u64,
    /// The seconds the tool took.
    pub elapsed: u64,
    /// How the rip ended: set once, when the rip finishes.
    pub outcome: Option<RipOutcome>,
}

/// A `RipTask` with its texts as character sequences.
pub struct RipTaskModel {
    pub rip: RipModel,
    pub phase: RipPhase,
    pub root: Seq<char>,
    pub staging: Seq<char>,
    pub artifact: Seq<char>,
    pub bytes: u64,
    pub elapsed: u64,
    pub outcome: Option<RipOutcomeModel>,
}

impl View for RipTask {
    type V = RipTaskModel;

    open spec fn view(&self) -> RipTaskModel {
        RipTaskModel {
            rip: self.rip@,
            phase: self.phase,
            root: self.root@,
            staging: self.staging@,
            artifact: self.artifact@,
            bytes: self.bytes,
            elapsed: self.elapsed,
            outcome: match self.outcome {
                Some(o) => Some(o@),
                None => None,
            },
        }
    }
}

/// What happened outside since the engine last said what to do.
#[derive(Debug)]
pub enum RipEvent {
    StagingCreated { path: String },
    StagingFailed,
    /// The tool ran and ended.
    ToolExited { output: ProcessOutput },
    /// The tool could not be launched.
    ToolFailedToStart { reason: String },
    /// Somebody asked for the rip to be cancelled.
    CancelRequested,
    /// The names of the files in the staging directory.
    StagingListed { files: Vec<String> },
    ListFailed,
    /// The size of the artifact in bytes, and the seconds since the rip
    /// started.
    ArtifactMeasured { bytes: u64, elapsed: u64 },
    MeasureFailed,
    DestinationCreated,
    DestinationFailed,
    ArtifactMoved,
    MoveFailed,
    StagingRemoved,
    RemoveFailed { kind: IoKind, text: String },
}

/// What is to be done outside next.
#[derive(Debug, PartialEq, Eq)]
pub enum RipAction {
    /// Make a fresh staging directory below `root`.
    CreateStaging { root: String },
    /// Run the tool, and hand in `CancelRequested` if somebody cancels
    /// before it ends.
    RunTool { command: Command },
    /// List the files of the staging directory.
    ListStaging { path: String },
    /// Measure the file `path`, the artifact.
    MeasureArtifact { path: String },
    /// Make the directory `dir` and those above it.
    CreateDestination { dir: String },
    /// Move the file `from` to `to` by renaming it.
    MoveArtifact { from: String, to: String },
    /// Remove the staging directory and report how that went.
    RemoveStaging { path: String },
    /// Stop the tool and remove the staging directory; the rip is finished.
    Abort { staging: String },
    /// Remove the staging directory; the rip is finished.
    Discard { staging: String },
    /// The rip is finished and nothing is left to do.
    Finish,
    /// The event changes nothing; go on with what was asked for before.
    Continue,
}

/// A `RipAction` with its texts as character sequences.
pub enum RipActionModel {
    CreateStaging { root: Seq<char> },
    RunTool { command: CommandModel },
    ListStaging { path: Seq<char> },
    MeasureArtifact { path: Seq<char> },
    CreateDestination { dir: Seq<char> },
    MoveArtifact { from: Seq<char>, to: Seq<char> },
    RemoveStaging { path: Seq<char> },
    Abort { staging: Seq<char> },
    Discard { staging: Seq<char> },
    Finish,
    Continue,
}

impl View for RipAction {
    type V = RipActionModel;

    open spec fn view(&self) -> RipActionModel {
        match *self {
            RipAction::CreateStaging { root } => RipActionModel::CreateStaging { root: root@ },
            RipAction::RunTool { command } => RipActionModel::RunTool { command: command@ },
            RipAction::ListStaging { path } => RipActionModel::ListStaging { path: path@ },
            RipAction::MeasureArtifact { path } => RipActionModel::MeasureArtifact { path: path@ },
            RipAction::CreateDestination { dir } => RipActionModel::CreateDestination { dir: dir@ },
            RipAction::MoveArtifact { from, to } => RipActionModel::MoveArtifact {
                from: from@,
                to: to@,
            },
            RipAction::RemoveStaging { path } => RipActionModel::RemoveStaging { path: path@ },
            RipAction::Abort { staging } => RipActionModel::Abort { staging: staging@ },
            RipAction::Discard { staging } => RipActionModel::Discard { staging: staging@ },
            RipAction::Finish => RipActionModel::Finish,
            RipAction::Continue => RipActionModel::Continue,
        }
    }
}

impl RipTaskModel {
    /// The task of `rip` before anything has happened, with `root` as its
    /// output root.
    pub open spec fn created(rip: RipModel, root: Seq<char>) -> RipTaskModel {
        RipTaskModel {
            rip,
            phase: RipPhase::Created,
            root,
            staging: Seq::empty(),
            artifact: Seq::empty(),
            bytes: 0,
            elapsed: 0,
            outcome: None,
        }
    }

    /// What holds of every task: it has its outcome if and only if it is
    /// finished.
    pub open spec fn well_formed(self) -> bool {
        self.outcome is Some <==> self.phase == RipPhase::Finished
    }

    /// The task in another phase.
    pub open spec fn at(self, phase: RipPhase) -> RipTaskModel {
        RipTaskModel { phase, ..self }
    }

    /// The task finished with `outcome`.
    pub open spec fn finished(self, outcome: RipOutcomeModel) -> RipTaskModel {
        RipTaskModel { phase: RipPhase::Finished, outcome: Some(outcome), ..self }
    }

    /// The task finished in failure for `reason`.
    pub open spec fn failed(self, reason: MakeMkvErrorModel) -> RipTaskModel {
        self.finished(RipOutcomeModel::Failed { reason })
    }

    /// Whether the task's drive is claimed for it: from the claim until the
    /// tool has ended or the rip is cancelled.
    pub open spec fn holds_drive(self) -> bool {
        self.phase == RipPhase::Staging || self.phase == RipPhase::Ripping
    }

    /// The task and the first action after `execute`, where the claim of the
    /// drive went as `claimed` says.
    pub open spec fn start(rip: RipModel, root: Seq<char>, claimed: bool) -> (
        RipTaskModel,
        RipActionModel,
    ) {
        let task = RipTaskModel::created(rip, root);
        if claimed {
            (task.at(RipPhase::Staging), RipActionModel::CreateStaging { root })
        } else {
            (
                task.failed(MakeMkvErrorModel::DriveInUseError(rip.drive_number)),
                RipActionModel::Finish,
            )
        }
    }

    /// The task after `event`, and what is to be done next. An event that
    /// does not belong to the task's phase changes nothing; so does every
    /// event once the task is finished, and a request to cancel once the tool
    /// has ended.
    pub open spec fn step(self, event: RipEvent) -> (RipTaskModel, RipActionModel) {
        let discard = RipActionModel::Discard { staging: self.staging };
        match (self.phase, event) {
            (RipPhase::Staging, RipEvent::StagingCreated { path }) => (
                RipTaskModel { phase: RipPhase::Ripping, staging: path@, ..self },
                RipActionModel::RunTool { command: rip_command(self.rip, path@) },
            ),
            (RipPhase::Staging, RipEvent::StagingFailed) => (
                self.failed(MakeMkvErrorModel::TempDirError),
                RipActionModel::Finish,
            ),
            (RipPhase::Staging, RipEvent::CancelRequested) => (
                self.finished(RipOutcomeModel::Cancelled),
                RipActionModel::Finish,
            ),
            (RipPhase::Ripping, RipEvent::ToolExited { output }) => match output_verdict(output) {
                None => (
                    self.at(RipPhase::Listing),
                    RipActionModel::ListStaging { path: self.staging },
                ),
                Some(reason) => (self.failed(reason), discard),
            },
            (RipPhase::Ripping, RipEvent::ToolFailedToStart { reason }) => (
                self.failed(MakeMkvErrorModel::CommandExecutionError(reason@)),
                discard,
            ),
            (RipPhase::Ripping, RipEvent::CancelRequested) => (
                self.finished(RipOutcomeModel::Cancelled),
                RipActionModel::Abort { staging: self.staging },
            ),
            (RipPhase::Listing, RipEvent::StagingListed { files }) => match first_artifact(
                texts(files@),
            ) {
                Some(name) => (
                    RipTaskModel {
                        phase: RipPhase::Measuring,
                        artifact: join_path(self.staging, name),
                        ..self
                    },
                    RipActionModel::MeasureArtifact { path: join_path(self.staging, name) },
                ),
                None => (self.failed(MakeMkvErrorModel::NoArtifactProduced), discard),
            },
            (RipPhase::Listing, RipEvent::ListFailed) => (
                self.failed(MakeMkvErrorModel::TempDirError),
                discard,
            ),
            (RipPhase::Measuring, RipEvent::ArtifactMeasured { bytes, elapsed }) => (
                RipTaskModel { phase: RipPhase::Preparing, bytes, elapsed, ..self },
                RipActionModel::CreateDestination { dir: destination_dir(self.root, self.rip) },
            ),
            (RipPhase::Measuring, RipEvent::MeasureFailed) => (
                self.failed(MakeMkvErrorModel::FailedToSaveDisc),
                discard,
            ),
            (RipPhase::Preparing, RipEvent::DestinationCreated) => (
                self.at(RipPhase::Moving),
                RipActionModel::MoveArtifact {
                    from: self.artifact,
                    to: destination_path(self.root, self.rip),
                },
            ),
            (RipPhase::Preparing, RipEvent::DestinationFailed) => (
                self.failed(MakeMkvErrorModel::OutputDirError),
                discard,
            ),
            (RipPhase::Moving, RipEvent::ArtifactMoved) => (
                self.at(RipPhase::Cleaning),
                RipActionModel::RemoveStaging { path: self.staging },
            ),
            (RipPhase::Moving, RipEvent::MoveFailed) => (
                self.failed(MakeMkvErrorModel::FailedToSaveDisc),
                discard,
            ),
            (RipPhase::Cleaning, RipEvent::StagingRemoved) => (
                self.finished(
                    RipOutcomeModel::Succeeded { elapsed: self.elapsed, bytes_moved: self.bytes },
                ),
                RipActionModel::Finish,
            ),
            (RipPhase::Cleaning, RipEvent::RemoveFailed { kind, text }) => (
                self.failed(
                    match kind {
                        IoKind::NotFound => MakeMkvErrorModel::FileNotFoundError(text@),
                        IoKind::PermissionDenied => MakeMkvErrorModel::PermissionDenied(text@),
                        IoKind::Other => MakeMkvErrorModel::UnknownError,
                    },
                ),
                RipActionModel::Finish,
            ),
            (RipPhase::Finished, _) => (self, RipActionModel::Finish),
            _ => (self, RipActionModel::Continue),
        }
    }
}

impl RipTask {
    /// Ends the task with `outcome`.
    fn finish(&mut self, outcome: RipOutcome)
        ensures
            final(self)@ == old(self)@.finished(outcome@),
    {
        self.phase = RipPhase::Finished;
        self.outcome = Some(outcome);
    }

    /// Ends the task in failure and has the staging directory removed.
    fn fail(&mut self, reason: MakeMkvError) -> (action: RipAction)
        ensures
            final(self)@ == old(self)@.failed(reason@),
            action@ == (RipActionModel::Discard { staging: old(self)@.staging }),
    {
        self.finish(RipOutcome::Failed { reason });
        RipAction::Discard { staging: self.staging.clone() }
    }

    /// Whether the task has its outcome.
    pub fn is_finished(&self) -> (r: bool)
        ensures
            r == (self.phase == RipPhase::Finished),
    {
        self.phase == RipPhase::Finished
    }
}

impl MakeMkv {
    /// An engine that files below `output_dir` and has no drive claimed.
    pub fn new(output_dir: &str) -> (r: MakeMkv)
        ensures
            r.output_dir@ == output_dir@,
            r.drives@ == Set::<u8>::empty(),
    {
        MakeMkv { output_dir: output_dir.to_owned(), drives: DriveRegistry::new() }
    }

    /// Sets the output root, which has to exist: `dir_exists` says whether
    /// it does. The caller has made sure before that the tool is installed.
    pub fn init(&mut self, output_dir: &str, dir_exists: bool) -> (r: Result<()>)
        ensures
            final(self).drives == old(self).drives,
            dir_exists ==> r is Ok && final(self).output_dir@ == output_dir@,
            !dir_exists ==> r is Err && r->Err_0@ == MakeMkvErrorModel::FileNotFoundError(
                output_dir@,
            ) && final(self).output_dir == old(self).output_dir,
    {
        if !dir_exists {
            return Err(MakeMkvError::FileNotFoundError(output_dir.to_owned()));
        }
        self.output_dir = output_dir.to_owned();
        Ok(())
    }

    /// Claims the drive `drive_number` for a rip, or fails where it is
    /// claimed already.
    pub fn lock_drive(&mut self, drive_number: u8) -> (r: Result<()>)
        ensures
            r is Ok <==> succeeds(old(self).drives@, DriveOp::Lock(drive_number)),
            r is Err ==> r->Err_0@ == MakeMkvErrorModel::DriveInUseError(drive_number),
            final(self).drives@ == apply(old(self).drives@, DriveOp::Lock(drive_number)),
            final(self).output_dir == old(self).output_dir,
    {
        self.drives.lock(drive_number)
    }

    /// Gives the drive `drive_number` up, whether it was claimed or not.
    pub fn unlock_drive(&mut self, drive_number: u8) -> (r: Result<()>)
        ensures
            r is Ok,
            final(self).drives@ == apply(old(self).drives@, DriveOp::Unlock(drive_number)),
            final(self).output_dir == old(self).output_dir,
    {
        self.drives.unlock(drive_number);
        Ok(())
    }

    /// Takes a rip one step further: hands `event` to `task` and says what
    /// is to be done next. The drive is released at the step at which the
    /// task ceases to hold it, before the tool's output is judged.
    pub fn run_rip(&mut self, task: &mut RipTask, event: RipEvent) -> (action: RipAction)
        requires
            old(task)@.rip.well_formed(),
        ensures
            (final(task)@, action@) == old(task)@.step(event),
            old(task)@.well_formed() ==> final(task)@.well_formed(),
            final(self).output_dir == old(self).output_dir,
            final(self).drives@ == drives_after(old(self).drives@, old(task)@, event),
    {
        let drive = task.rip.drive_number;
        match task.phase {
            RipPhase::Created => RipAction::Continue,
            RipPhase::Staging => match event {
                RipEvent::StagingCreated { path } => {
                    let command = rip_command_for(&task.rip, path.as_str());
                    task.phase = RipPhase::Ripping;
                    task.staging = path;
                    RipAction::RunTool { command }
                },
                RipEvent::StagingFailed => {
                    self.drives.unlock(drive);
                    task.finish(RipOutcome::Failed { reason: MakeMkvError::TempDirError });
                    RipAction::Finish
                },
                RipEvent::CancelRequested => {
                    self.drives.unlock(drive);
                    task.finish(RipOutcome::Cancelled);
                    RipAction::Finish
                },
                _ => RipAction::Continue,
            },
            RipPhase::Ripping => match event {
                RipEvent::ToolExited { output } => {
                    self.drives.unlock(drive);
                    match check_makemkv_output(&output) {
                        Ok(()) => {
                            task.phase = RipPhase::Listing;
                            RipAction::ListStaging { path: task.staging.clone() }
                        },
                        Err(reason) => task.fail(reason),
                    }
                },
                RipEvent::ToolFailedToStart { reason } => {
                    self.drives.unlock(drive);
                    task.fail(MakeMkvError::CommandExecutionError(reason))
                },
                RipEvent::CancelRequested => {
                    self.drives.unlock(drive);
                    task.finish(RipOutcome::Cancelled);
                    RipAction::Abort { staging: task.staging.clone() }
                },
                _ => RipAction::Continue,
            },
            RipPhase::Listing => match event {
                RipEvent::StagingListed { files } => match select_artifact(&files) {
                    Some(i) => {
                        let artifact = path_in(task.staging.as_str(), files[i].as_str());
                        task.phase = RipPhase::Measuring;
                        task.artifact = artifact.clone();
                        RipAction::MeasureArtifact { path: artifact }
                    },
                    None => task.fail(MakeMkvError::NoArtifactProduced),
                },
                RipEvent::ListFailed => task.fail(MakeMkvError::TempDirError),
                _ => RipAction::Continue,
            },
            RipPhase::Measuring => match event {
                RipEvent::ArtifactMeasured { bytes, elapsed } => {
                    let dir = destination_dir_of(task.root.as_str(), &task.rip);
                    task.phase = RipPhase::Preparing;
                    task.bytes = bytes;
                    task.elapsed = elapsed;
                    RipAction::CreateDestination { dir }
                },
                RipEvent::MeasureFailed => task.fail(MakeMkvError::FailedToSaveDisc),
                _ => RipAction::Continue,
            },
            RipPhase::Preparing => match event {
                RipEvent::DestinationCreated => {
                    let to = super::layout::destination_path_of(task.root.as_str(), &task.rip);
                    task.phase = RipPhase::Moving;
                    RipAction::MoveArtifact { from: task.artifact.clone(), to }
                },
                RipEvent::DestinationFailed => task.fail(MakeMkvError::OutputDirError),
                _ => RipAction::Continue,
            },
            RipPhase::Moving => match event {
                RipEvent::ArtifactMoved => {
                    task.phase = RipPhase::Cleaning;
                    RipAction::RemoveStaging { path: task.staging.clone() }
                },
                RipEvent::MoveFailed => task.fail(MakeMkvError::FailedToSaveDisc),
                _ => RipAction::Continue,
            },
            RipPhase::Cleaning => match event {
                RipEvent::StagingRemoved => {
                    let outcome = RipOutcome::Succeeded {
                        elapsed: task.elapsed,
                        bytes_moved: task.bytes,
                    };
                    task.finish(outcome);
                    RipAction::Finish
                },
                RipEvent::RemoveFailed { kind, text } => {
                    task.finish(RipOutcome::Failed { reason: MakeMkvError::from_io(kind, text) });
                    RipAction::Finish
                },
                _ => RipAction::Continue,
            },
            RipPhase::Finished => RipAction::Finish,
        }
    }
}

impl Rip {
    /// A copy of the request.
    pub fn duplicate(&self) -> (r: Rip)
        ensures
            r@ == self@,
    {
        Rip {
            title: self.title.clone(),
            drive_number: self.drive_number,
            rip_type: self.rip_type,
            title_id: self.title_id,
        }
    }

    /// Starts the rip: claims its drive and asks for a staging directory. A
    /// drive that is in use ends the rip at once, in failure.
    pub fn execute(&self, engine: &mut MakeMkv) -> (r: (RipTask, RipAction))
        requires
            self@.well_formed(),
        ensures
            (r.0@, r.1@) == RipTaskModel::start(
                self@,
                old(engine).output_dir@,
                succeeds(old(engine).drives@, DriveOp::Lock(self.drive_number)),
            ),
            r.0@.well_formed(),
            final(engine).drives@ == apply(old(engine).drives@, DriveOp::Lock(self.drive_number)),
            final(engine).output_dir == old(engine).output_dir,
    {
        let mut task = RipTask {
            rip: self.duplicate(),
            phase: RipPhase::Created,
            root: engine.output_dir.clone(),
            staging: String::new(),
            artifact: String::new(),
            bytes: 0,
            elapsed: 0,
            outcome: None,
        };
        match engine.lock_drive(self.drive_number) {
            Ok(()) => {
                task.phase = RipPhase::Staging;
                (task, RipAction::CreateStaging { root: engine.output_dir.clone() })
            },
            Err(reason) => {
                task.finish(RipOutcome::Failed { reason });
                (task, RipAction::Finish)
            },
        }
    }

    /// Cancels the rip that `task` runs: what a request to cancel does when
    /// it is handed to the engine. While the task holds its drive the rip
    /// ends as cancelled and the drive is released; once the tool has ended,
    /// and for a finished task, nothing changes, in the task and in the
    /// registry.
    pub fn cancel(task: &mut RipTask, engine: &mut MakeMkv) -> (action: RipAction)
        requires
            old(task)@.rip.well_formed(),
        ensures
            (final(task)@, action@) == old(task)@.step(RipEvent::CancelRequested),
            old(task)@.well_formed() ==> final(task)@.well_formed(),
            old(task)@.holds_drive() ==> final(task)@ == old(task)@.finished(
                RipOutcomeModel::Cancelled,
            ) && final(engine).drives@ == old(engine).drives@.remove(old(task).rip.drive_number),
            !old(task)@.holds_drive() ==> final(task)@ == old(task)@ && final(engine).drives@ == old(
                engine,
            ).drives@,
            final(engine).output_dir == old(engine).output_dir,
    {
        engine.run_rip(task, RipEvent::CancelRequested)
    }
}

} // verus!
