use cord_ripper::makemkv::errors::{IoKind, MakeMkvError};
use cord_ripper::makemkv::makemkv_core::{
    MakeMkv, Rip, RipAction, RipEvent, RipOutcome, RipPhase, RipTask, RipType,
};
use cord_ripper::makemkv::makemkv_helpers::ProcessOutput;

fn foo() -> Rip {
    Rip { title: "Foo".to_string(), drive_number: 1, rip_type: RipType::Movie, title_id: 3 }
}

fn exited(stdout: &str, code: i32) -> RipEvent {
    RipEvent::ToolExited {
        output: ProcessOutput { stdout: stdout.as_bytes().to_vec(), stderr: Vec::new(), exit_code: Some(code) },
    }
}

fn ripping(engine: &mut MakeMkv, rip: &Rip) -> RipTask {
    assert!(rip.is_well_formed());
    let (mut task, action) = rip.execute(engine);
    assert_eq!(action, RipAction::CreateStaging { root: engine.output_dir.clone() });
    let action = engine.run_rip(&mut task, RipEvent::StagingCreated { path: "/root/makemkv_output1".to_string() });
    assert!(matches!(action, RipAction::RunTool { .. }));
    assert_eq!(task.phase, RipPhase::Ripping);
    task
}

fn listed(engine: &mut MakeMkv, rip: &Rip, files: &[&str]) -> (RipTask, RipAction) {
    let mut task = ripping(engine, rip);
    let action = engine.run_rip(&mut task, exited("MSG:5036,0,1,\"Copy complete.\"\n", 0));
    assert_eq!(action, RipAction::ListStaging { path: "/root/makemkv_output1".to_string() });
    let files = files.iter().map(|s| s.to_string()).collect();
    let action = engine.run_rip(&mut task, RipEvent::StagingListed { files });
    if let RipAction::MeasureArtifact { .. } = action {
        let action = engine.run_rip(&mut task, RipEvent::ArtifactMeasured { bytes: 4096, elapsed: 90 });
        return (task, action);
    }
    (task, action)
}

#[test]
fn movie_is_ripped_and_filed() {
    let mut engine = MakeMkv::new("/root");
    let rip = foo();
    let (mut task, action) = rip.execute(&mut engine);
    assert_eq!(action, RipAction::CreateStaging { root: "/root".to_string() });
    assert_eq!(task.phase, RipPhase::Staging);
    assert!(engine.drives.is_locked(1));

    let action = engine.run_rip(&mut task, RipEvent::StagingCreated { path: "staging".to_string() });
    match action {
        RipAction::RunTool { command } => {
            assert_eq!(command.command, "makemkvcon");
            assert_eq!(command.args, vec!["mkv", "dev:/dev/sr0", "2", "--minlength=600", "staging"]);
        }
        other => panic!("unexpected action {:?}", other),
    }
    assert!(engine.drives.is_locked(1));

    let action = engine.run_rip(&mut task, exited("MSG:5036,0,1,\"Copy complete. 1 titles saved.\"\n", 0));
    assert_eq!(action, RipAction::ListStaging { path: "staging".to_string() });
    assert!(!engine.drives.is_locked(1));

    let files = vec!["notes.txt".to_string(), "foo.mkv".to_string()];
    let action = engine.run_rip(&mut task, RipEvent::StagingListed { files });
    assert_eq!(action, RipAction::MeasureArtifact { path: "staging/foo.mkv".to_string() });

    let action = engine.run_rip(&mut task, RipEvent::ArtifactMeasured { bytes: 1234, elapsed: 56 });
    assert_eq!(action, RipAction::CreateDestination { dir: "/root/movies/Foo".to_string() });

    let action = engine.run_rip(&mut task, RipEvent::DestinationCreated);
    assert_eq!(
        action,
        RipAction::MoveArtifact { from: "staging/foo.mkv".to_string(), to: "/root/movies/Foo/Foo.mkv".to_string() }
    );

    let action = engine.run_rip(&mut task, RipEvent::ArtifactMoved);
    assert_eq!(action, RipAction::RemoveStaging { path: "staging".to_string() });
    assert!(!task.is_finished());

    let action = engine.run_rip(&mut task, RipEvent::StagingRemoved);
    assert_eq!(action, RipAction::Finish);
    assert!(task.is_finished());
    assert_eq!(task.outcome, Some(RipOutcome::Succeeded { elapsed: 56, bytes_moved: 1234 }));
    assert!(!engine.drives.is_locked(1));
}

#[test]
fn episode_is_filed_below_its_season() {
    let mut engine = MakeMkv::new("/root/");
    let rip = Rip {
        title: "Bar".to_string(),
        drive_number: 2,
        rip_type: RipType::Show { season: 1, episode: 3 },
        title_id: 1,
    };
    let (mut task, action) = listed(&mut engine, &rip, &["title_t00.mkv"]);
    assert_eq!(action, RipAction::CreateDestination { dir: "/root/shows/Bar/Season 1".to_string() });
    let action = engine.run_rip(&mut task, RipEvent::DestinationCreated);
    assert_eq!(
        action,
        RipAction::MoveArtifact {
            from: "/root/makemkv_output1/title_t00.mkv".to_string(),
            to: "/root/shows/Bar/Season 1/Episode 3.mkv".to_string(),
        }
    );
}

#[test]
fn drive_in_use_fails_at_once() {
    let mut engine = MakeMkv::new("/root");
    let first = ripping(&mut engine, &foo());
    assert_eq!(first.phase, RipPhase::Ripping);
    let (task, action) = foo().execute(&mut engine);
    assert_eq!(action, RipAction::Finish);
    assert!(task.is_finished());
    assert_eq!(task.outcome, Some(RipOutcome::Failed { reason: MakeMkvError::DriveInUseError(1) }));
    assert!(engine.drives.is_locked(1));
}

#[test]
fn rips_on_different_drives_run_side_by_side() {
    let mut engine = MakeMkv::new("/root");
    let mut other = foo();
    other.drive_number = 2;
    let mut first = ripping(&mut engine, &foo());
    let second = ripping(&mut engine, &other);
    assert_eq!(second.phase, RipPhase::Ripping);
    engine.run_rip(&mut first, exited("", 0));
    assert!(!engine.drives.is_locked(1));
    assert!(engine.drives.is_locked(2));
}

#[test]
fn cancel_while_ripping_ends_the_rip() {
    let mut engine = MakeMkv::new("/root");
    let mut task = ripping(&mut engine, &foo());
    let action = engine.run_rip(&mut task, RipEvent::CancelRequested);
    assert_eq!(action, RipAction::Abort { staging: "/root/makemkv_output1".to_string() });
    assert_eq!(task.outcome, Some(RipOutcome::Cancelled));
    assert!(task.is_finished());
    assert!(!engine.drives.is_locked(1));
    let action = engine.run_rip(&mut task, exited("", 0));
    assert_eq!(action, RipAction::Finish);
    let action = engine.run_rip(&mut task, RipEvent::DestinationCreated);
    assert_eq!(action, RipAction::Finish);
    assert_eq!(task.outcome, Some(RipOutcome::Cancelled));
}

#[test]
fn cancel_before_the_staging_directory_exists() {
    let mut engine = MakeMkv::new("/root");
    let (mut task, _) = foo().execute(&mut engine);
    let action = engine.run_rip(&mut task, RipEvent::CancelRequested);
    assert_eq!(action, RipAction::Finish);
    assert_eq!(task.outcome, Some(RipOutcome::Cancelled));
    assert!(!engine.drives.is_locked(1));
}

#[test]
fn cancel_after_the_tool_ended_has_no_effect() {
    let mut engine = MakeMkv::new("/root");
    let (mut task, _) = listed(&mut engine, &foo(), &["foo.mkv"]);
    let action = engine.run_rip(&mut task, RipEvent::CancelRequested);
    assert_eq!(action, RipAction::Continue);
    assert_eq!(task.phase, RipPhase::Preparing);
    assert_eq!(task.outcome, None);
    let action = engine.run_rip(&mut task, RipEvent::DestinationCreated);
    assert!(matches!(action, RipAction::MoveArtifact { .. }));
}

#[test]
fn cancel_after_the_end_is_ignored() {
    let mut engine = MakeMkv::new("/root");
    let mut task = ripping(&mut engine, &foo());
    engine.run_rip(&mut task, exited("", 1));
    let before = format!("{:?}", task);
    let action = engine.run_rip(&mut task, RipEvent::CancelRequested);
    assert_eq!(action, RipAction::Finish);
    assert_eq!(format!("{:?}", task), before);
}

#[test]
fn unreadable_disc_fails_the_rip() {
    let mut engine = MakeMkv::new("/root");
    let mut task = ripping(&mut engine, &foo());
    let action = engine.run_rip(&mut task, exited("MSG:5003,0,2,\"Failed to save title 0\"\n", 0));
    assert_eq!(action, RipAction::Discard { staging: "/root/makemkv_output1".to_string() });
    assert_eq!(task.outcome, Some(RipOutcome::Failed { reason: MakeMkvError::FailedToSaveDisc }));
    assert!(!engine.drives.is_locked(1));
}

#[test]
fn drive_that_is_not_ready_fails_the_rip() {
    let mut engine = MakeMkv::new("/root");
    let mut task = ripping(&mut engine, &foo());
    engine.run_rip(&mut task, exited("MSG:1\nMSG:2\n", 11));
    assert_eq!(task.outcome, Some(RipOutcome::Failed { reason: MakeMkvError::DriveError }));
    assert!(!engine.drives.is_locked(1));
}

#[test]
fn tool_that_cannot_start_fails_the_rip() {
    let mut engine = MakeMkv::new("/root");
    let mut task = ripping(&mut engine, &foo());
    let action = engine.run_rip(&mut task, RipEvent::ToolFailedToStart { reason: "No such file or directory".to_string() });
    assert_eq!(action, RipAction::Discard { staging: "/root/makemkv_output1".to_string() });
    assert_eq!(
        task.outcome,
        Some(RipOutcome::Failed { reason: MakeMkvError::CommandExecutionError("No such file or directory".to_string()) })
    );
    assert!(!engine.drives.is_locked(1));
}

#[test]
fn staging_directory_that_cannot_be_made_fails_the_rip() {
    let mut engine = MakeMkv::new("/root");
    let (mut task, _) = foo().execute(&mut engine);
    let action = engine.run_rip(&mut task, RipEvent::StagingFailed);
    assert_eq!(action, RipAction::Finish);
    assert_eq!(task.outcome, Some(RipOutcome::Failed { reason: MakeMkvError::TempDirError }));
    assert!(!engine.drives.is_locked(1));
}

#[test]
fn no_artifact_fails_the_rip() {
    let mut engine = MakeMkv::new("/root");
    let (task, action) = listed(&mut engine, &foo(), &["log.txt"]);
    assert_eq!(action, RipAction::Discard { staging: "/root/makemkv_output1".to_string() });
    assert_eq!(task.outcome, Some(RipOutcome::Failed { reason: MakeMkvError::NoArtifactProduced }));
}

#[test]
fn first_artifact_by_name_is_moved() {
    let mut engine = MakeMkv::new("/root");
    let (mut task, _) = listed(&mut engine, &foo(), &["b.mkv", "a.mkv"]);
    let action = engine.run_rip(&mut task, RipEvent::DestinationCreated);
    assert_eq!(
        action,
        RipAction::MoveArtifact {
            from: "/root/makemkv_output1/a.mkv".to_string(),
            to: "/root/movies/Foo/Foo.mkv".to_string(),
        }
    );
}

#[test]
fn failures_after_the_tool_ended() {
    let cases: Vec<(Vec<RipEvent>, MakeMkvError, RipAction)> = vec![
        (vec![RipEvent::ListFailed], MakeMkvError::TempDirError, RipAction::Discard { staging: "/root/makemkv_output1".to_string() }),
        (
            vec![RipEvent::StagingListed { files: vec!["a.mkv".to_string()] }, RipEvent::MeasureFailed],
            MakeMkvError::FailedToSaveDisc,
            RipAction::Discard { staging: "/root/makemkv_output1".to_string() },
        ),
        (
            vec![
                RipEvent::StagingListed { files: vec!["a.mkv".to_string()] },
                RipEvent::ArtifactMeasured { bytes: 1, elapsed: 1 },
                RipEvent::DestinationFailed,
            ],
            MakeMkvError::OutputDirError,
            RipAction::Discard { staging: "/root/makemkv_output1".to_string() },
        ),
        (
            vec![
                RipEvent::StagingListed { files: vec!["a.mkv".to_string()] },
                RipEvent::ArtifactMeasured { bytes: 1, elapsed: 1 },
                RipEvent::DestinationCreated,
                RipEvent::MoveFailed,
            ],
            MakeMkvError::FailedToSaveDisc,
            RipAction::Discard { staging: "/root/makemkv_output1".to_string() },
        ),
        (
            vec![
                RipEvent::StagingListed { files: vec!["a.mkv".to_string()] },
                RipEvent::ArtifactMeasured { bytes: 1, elapsed: 1 },
                RipEvent::DestinationCreated,
                RipEvent::ArtifactMoved,
                RipEvent::RemoveFailed { kind: IoKind::PermissionDenied, text: "denied".to_string() },
            ],
            MakeMkvError::PermissionDenied("denied".to_string()),
            RipAction::Finish,
        ),
    ];
    for (events, reason, last) in cases {
        let mut engine = MakeMkv::new("/root");
        let mut task = ripping(&mut engine, &foo());
        engine.run_rip(&mut task, exited("", 0));
        let mut action = RipAction::Continue;
        for event in events {
            action = engine.run_rip(&mut task, event);
        }
        assert_eq!(action, last);
        assert_eq!(task.outcome, Some(RipOutcome::Failed { reason }));
        assert!(task.is_finished());
    }
}

#[test]
fn events_out_of_turn_change_nothing() {
    let mut engine = MakeMkv::new("/root");
    let mut task = ripping(&mut engine, &foo());
    let before = format!("{:?}", task);
    for event in [RipEvent::ArtifactMoved, RipEvent::StagingRemoved, RipEvent::DestinationCreated, RipEvent::StagingFailed] {
        let action = engine.run_rip(&mut task, event);
        assert_eq!(action, RipAction::Continue);
    }
    assert_eq!(format!("{:?}", task), before);
    assert!(engine.drives.is_locked(1));
}

#[test]
fn cancel_of_a_running_rip_gives_the_drive_up() {
    let mut engine = MakeMkv::new("/root");
    let mut task = ripping(&mut engine, &foo());
    let action = Rip::cancel(&mut task, &mut engine);
    assert_eq!(action, RipAction::Abort { staging: "/root/makemkv_output1".to_string() });
    assert_eq!(task.outcome, Some(RipOutcome::Cancelled));
    assert!(!engine.drives.is_locked(1));
}

#[test]
fn cancel_of_a_finished_rip_leaves_the_claim_of_another() {
    let mut engine = MakeMkv::new("/root");
    let mut first = ripping(&mut engine, &foo());
    engine.run_rip(&mut first, exited("", 1));
    assert!(first.is_finished());
    let second = ripping(&mut engine, &foo());
    assert_eq!(second.phase, RipPhase::Ripping);
    assert!(engine.drives.is_locked(1));
    let before = format!("{:?}", first);
    let action = Rip::cancel(&mut first, &mut engine);
    assert_eq!(action, RipAction::Finish);
    assert_eq!(format!("{:?}", first), before);
    assert!(engine.drives.is_locked(1));
}

#[test]
fn cancel_after_the_tool_ended_leaves_the_claim_of_another() {
    let mut engine = MakeMkv::new("/root");
    let (mut first, _) = listed(&mut engine, &foo(), &["foo.mkv"]);
    let second = ripping(&mut engine, &foo());
    assert_eq!(second.phase, RipPhase::Ripping);
    let action = Rip::cancel(&mut first, &mut engine);
    assert_eq!(action, RipAction::Continue);
    assert_eq!(first.phase, RipPhase::Preparing);
    assert!(engine.drives.is_locked(1));
}

#[test]
fn size_is_that_of_the_moved_file() {
    let mut engine = MakeMkv::new("/root");
    let (mut task, _) = listed(&mut engine, &foo(), &["b.mkv", "a.mkv", "log.txt"]);
    assert_eq!(task.artifact, "/root/makemkv_output1/a.mkv");
    engine.run_rip(&mut task, RipEvent::DestinationCreated);
    engine.run_rip(&mut task, RipEvent::ArtifactMoved);
    engine.run_rip(&mut task, RipEvent::StagingRemoved);
    assert_eq!(task.outcome, Some(RipOutcome::Succeeded { elapsed: 90, bytes_moved: 4096 }));
}

#[test]
fn engine_starts_without_claims() {
    let engine = MakeMkv::default();
    assert_eq!(engine.output_dir, "");
    assert!(!engine.drives.is_locked(1));
    let engine = MakeMkv::new("/srv/media");
    assert_eq!(engine.output_dir, "/srv/media");
}

#[test]
fn init_sets_an_existing_output_root() {
    let mut engine = MakeMkv::default();
    assert_eq!(engine.init("/srv/media", true), Ok(()));
    assert_eq!(engine.output_dir, "/srv/media");
    assert_eq!(engine.init("/missing", false), Err(MakeMkvError::FileNotFoundError("/missing".to_string())));
    assert_eq!(engine.output_dir, "/srv/media");
}

#[test]
fn episode_of_a_rip() {
    let mut rip = foo();
    assert_eq!(rip.episode(), None);
    rip.rip_type = RipType::Show { season: 1, episode: 5 };
    assert_eq!(rip.episode(), Some(5));
}

#[test]
fn requests_that_are_not_well_formed() {
    let mut rip = foo();
    assert!(rip.is_well_formed());
    rip.drive_number = 0;
    assert!(!rip.is_well_formed());
    rip = foo();
    rip.title_id = 0;
    assert!(!rip.is_well_formed());
    rip = foo();
    rip.title = String::new();
    assert!(!rip.is_well_formed());
    assert_eq!(foo().duplicate(), foo());
}
