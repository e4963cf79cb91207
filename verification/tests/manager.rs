use screen_recording::backend::{CaptureBackendFailure, CaptureBackendFailureKind};
use screen_recording::clock::CaptureTime;
use screen_recording::manager::{
    release_plan, RecorderIdentity, RunAction, RunEvent, RunPhase, RuntimeState, StartAction,
    StartEvent, StartPhase, StopAction,
};
use screen_recording::owner::{
    owner_pid_contents, parse_owner_pid, recording_paths, OwnerPidReader, PidAction, PidErrorKind,
    PidEvent,
};
use screen_recording::protocol::{
    ScreenRecordingBackend, ScreenRecordingPermission, ScreenRecordingPlatform,
    ScreenRecordingState,
};
use screen_recording::status::{
    SCREEN_RECORDING_FEATURE_DISABLED_MESSAGE, SCREEN_RECORDING_OWNED_BY_ANOTHER_PROCESS_MESSAGE,
};
use screen_recording::tick::CaptureTickOutcome;
use std::path::PathBuf;

type Runtime = RuntimeState<u32, char, &'static str>;

fn runtime(feature_enabled: bool, config_enabled: bool) -> Runtime {
    RuntimeState::new(
        feature_enabled,
        config_enabled,
        RecorderIdentity {
            storage_path: "/home/recording/screen_ephemeral".to_string(),
            platform: ScreenRecordingPlatform::Macos,
            backend: ScreenRecordingBackend::Xcap,
        },
    )
}

fn time(seconds: i64) -> CaptureTime {
    CaptureTime::from_timestamp(seconds).expect("timestamp")
}

/// Runs an attempt to start: the lock is free, or held by the process with the given id.
fn start(runtime: &mut Runtime, holder: Option<u32>) -> bool {
    let (mut phase, mut action) = runtime.begin_start();
    loop {
        let event = match action {
            StartAction::CreateLockDirectory => StartEvent::DirectoryCreated,
            StartAction::OpenLock => StartEvent::LockOpened,
            StartAction::TryLock => match holder {
                Some(_) => StartEvent::Contended,
                None => StartEvent::Locked,
            },
            StartAction::CheckLock => StartEvent::LockCurrent(77),
            StartAction::WriteOwnerPid(contents) => {
                assert_eq!(contents, "77\n");
                StartEvent::PidWritten("lock")
            }
            StartAction::ReadOwner => StartEvent::OwnerRead(holder),
            StartAction::Start => {
                runtime.task_started(1, 'c');
                return true;
            }
            StartAction::GiveUp => return false,
            StartAction::WaitForLock => {
                runtime.retry_started(2, 'r');
                return false;
            }
        };
        (phase, action) = runtime.start_step(phase, event);
    }
}

/// Lets the capture task run one tick with the given outcome.
fn run_tick(runtime: &mut Runtime, seconds: i64, displays: u32) -> bool {
    let outcome = CaptureTickOutcome {
        captured_display_count: displays,
        newest_frame_at: Some(seconds),
    };
    let (mut phase, mut action) =
        runtime.run_step(RunPhase::Waiting, RunEvent::Woken { cancelled: false });
    if !matches!(action, RunAction::Capture) {
        return false;
    }
    (phase, action) = runtime.run_step(phase, RunEvent::Captured(outcome, time(seconds)));
    if matches!(action, RunAction::Prune) {
        (phase, action) = runtime.run_step(phase, RunEvent::Pruned);
    }
    match action {
        RunAction::Publish(status) => {
            runtime.replace_status(status, true);
        }
        _ => panic!("nothing was published"),
    }
    let (phase, action) = runtime.run_step(phase, RunEvent::Published);
    assert_eq!(phase, RunPhase::Waiting);
    assert!(matches!(action, RunAction::Wait));
    true
}

#[test]
fn read_owner_pid_retries_until_pid_is_written() {
    let expected_pid = 4242_u32;
    let mut reader = OwnerPidReader::new();
    let contents = ["".to_string(), "".to_string(), format!("{expected_pid}\n")];
    let mut pauses = 0;
    for text in contents {
        match reader.attempted(PidEvent::Contents(text)) {
            PidAction::Pause => {
                pauses += 1;
                assert!(matches!(reader.paused(), PidAction::Attempt));
            }
            PidAction::Found(pid) => assert_eq!(pid, expected_pid),
            _ => panic!("the owner was given up"),
        }
    }
    assert_eq!(pauses, 2);
}

#[test]
fn owner_is_given_up_after_five_attempts() {
    let mut reader = OwnerPidReader::new();
    for attempt in 1..=5 {
        assert!(matches!(
            reader.attempted(PidEvent::OpenFailed(format!("attempt {attempt}"))),
            PidAction::Pause
        ));
        match reader.paused() {
            PidAction::Attempt => assert!(attempt < 5),
            PidAction::Fail(error) => {
                assert_eq!(attempt, 5);
                assert_eq!(error.kind, PidErrorKind::Open);
                assert_eq!(error.text, "attempt 5");
            }
            _ => panic!("unexpected"),
        }
    }
    let mut reader = OwnerPidReader::new();
    assert!(matches!(
        reader.attempted(PidEvent::ReadFailed("read".to_string())),
        PidAction::Pause
    ));
    match reader.attempted(PidEvent::SeekFailed("seek".to_string())) {
        PidAction::Fail(error) => assert_eq!(error.kind, PidErrorKind::Seek),
        _ => panic!("a seek failure is final"),
    }
}

#[test]
fn owner_pid_is_read_back() {
    for pid in [0, 1, 4242, u32::MAX] {
        assert_eq!(owner_pid_contents(pid), format!("{pid}\n"));
        assert_eq!(parse_owner_pid(&owner_pid_contents(pid)), Some(pid));
    }
    assert_eq!(parse_owner_pid(" 12 \n"), Some(12));
    assert_eq!(parse_owner_pid("twelve"), None);
}

#[test]
fn paths_stand_below_home() {
    let paths = recording_paths();
    let below = |names: &Vec<String>| {
        names.iter().fold(PathBuf::from("/home/codex"), |path, name| path.join(name))
    };
    assert_eq!(paths.storage_root, ["recording", "screen_ephemeral"]);
    assert_eq!(
        below(&paths.storage_root).to_str(),
        Some("/home/codex/recording/screen_ephemeral")
    );
    assert_eq!(below(&paths.lock_directory).to_str(), Some("/home/codex/recording"));
    assert_eq!(
        below(&paths.lock_path).to_str(),
        Some("/home/codex/recording/screen_ephemeral.lock")
    );
    assert!(!below(&paths.lock_path).starts_with(below(&paths.storage_root)));
}

#[test]
fn enabled_manager_autostarts_capture() {
    let mut runtime = runtime(true, true);
    assert_eq!(runtime.status.state, ScreenRecordingState::Starting);
    assert!(start(&mut runtime, None));
    assert!(run_tick(&mut runtime, 1_700_000_000, 1));

    assert_eq!(runtime.status.state, ScreenRecordingState::Running);
    assert_eq!(
        runtime.status.permission,
        ScreenRecordingPermission::Granted
    );
    assert_eq!(runtime.status.captured_display_count, 1);
}

#[test]
fn pause_and_resume_change_runtime_state() {
    let mut runtime = runtime(true, true);
    start(&mut runtime, None);
    run_tick(&mut runtime, 1_700_000_000, 1);

    let paused = runtime.pause();
    assert!(runtime.replace_status(paused, true));
    assert_eq!(runtime.status.state, ScreenRecordingState::Paused);
    assert!(runtime.status.paused);
    assert!(!run_tick(&mut runtime, 1_700_000_001, 1));

    let (resumed, should_start) = runtime.resume();
    assert!(!should_start);
    runtime.replace_status(resumed, true);
    assert_eq!(runtime.status.state, ScreenRecordingState::Starting);
    assert!(run_tick(&mut runtime, 1_700_000_002, 1));
    assert_eq!(runtime.status.state, ScreenRecordingState::Running);
    assert!(!runtime.status.paused);
}

#[test]
fn disabling_purges_storage() {
    let mut runtime = runtime(true, true);
    start(&mut runtime, None);
    run_tick(&mut runtime, 1_700_000_000, 1);

    let identity = runtime.begin_disable(true, false);
    let tasks = runtime.take_tasks();
    assert_eq!(
        tasks.stop_plan(),
        vec![StopAction::CancelTask, StopAction::AwaitTask]
    );
    let lock = runtime.take_owner_lock();
    assert_eq!(
        release_plan(&lock),
        vec![
            StopAction::PurgeStorage,
            StopAction::ForgetStreams,
            StopAction::RemoveLockFile,
            StopAction::ReleaseLock,
        ]
    );
    let disabled = runtime.end_disable(true, false, identity);
    runtime.replace_status(disabled, true);
    assert_eq!(runtime.status.state, ScreenRecordingState::Disabled);
    assert_eq!(runtime.status.last_error, None);
    assert_eq!(runtime.last_pruned_at, None);
    assert_eq!(
        runtime.status.storage_path,
        "/home/recording/screen_ephemeral"
    );
}

#[test]
fn feature_gate_blocks_start_until_enabled() {
    let mut runtime = runtime(false, true);
    assert_eq!(runtime.status.state, ScreenRecordingState::Disabled);
    assert_eq!(
        runtime.status.last_error.as_deref(),
        Some(SCREEN_RECORDING_FEATURE_DISABLED_MESSAGE)
    );

    assert!(start(&mut runtime, None));
    let status = runtime.enable();
    runtime.replace_status(status, true);
    assert_eq!(runtime.status.state, ScreenRecordingState::Starting);
    assert!(run_tick(&mut runtime, 1_700_000_000, 1));
    assert_eq!(runtime.status.captured_display_count, 1);
}

#[test]
fn second_manager_shares_codex_home_but_does_not_start_capture() {
    let mut owner = runtime(true, true);
    let mut non_owner = runtime(true, true);
    assert!(start(&mut owner, None));
    assert!(!start(&mut non_owner, Some(77)));
    run_tick(&mut owner, 1_700_000_000, 1);

    assert_eq!(owner.status.captured_display_count, 1);
    let expected_non_owner_error =
        format!("{SCREEN_RECORDING_OWNED_BY_ANOTHER_PROCESS_MESSAGE} (pid 77)");
    assert_eq!(
        non_owner.status.last_error.as_deref(),
        Some(expected_non_owner_error.as_str())
    );
    assert_eq!(non_owner.status.captured_display_count, 0);

    let tasks = non_owner.take_tasks();
    assert_eq!(
        tasks.stop_plan(),
        vec![StopAction::CancelRetry, StopAction::AwaitRetry]
    );
    let lock = non_owner.take_owner_lock();
    assert!(
        release_plan(&lock).is_empty(),
        "non-owner shutdown should not purge owner storage"
    );
}

#[test]
fn lock_failover_retries_and_only_one_successor_wins() {
    let mut b = runtime(true, true);
    let mut c = runtime(true, true);
    assert!(!start(&mut b, Some(1)));
    assert!(!start(&mut c, Some(1)));

    assert!(b.retry_round());
    assert!(start(&mut b, None));
    assert!(!b.retry_result(true));
    assert!(b.lock_retry.is_none() && b.lock_retry_cancel.is_none());

    assert!(c.retry_round());
    assert!(!start(&mut c, Some(77)));
    assert!(c.retry_result(false));
    assert!(c.lock_retry.is_some());

    let running = [&b, &c].iter().filter(|runtime| runtime.task.is_some()).count();
    assert_eq!(running, 1);
}

#[test]
fn same_process_contention_reports_own_pid() {
    let own_pid = 4711;
    let mut contended = runtime(true, true);
    assert!(!start(&mut contended, Some(own_pid)));
    assert_eq!(contended.status.state, ScreenRecordingState::Error);
    assert_eq!(
        contended.status.last_error.as_deref(),
        Some(
            format!(
                "{SCREEN_RECORDING_OWNED_BY_ANOTHER_PROCESS_MESSAGE} (pid {own_pid})"
            )
            .as_str()
        )
    );
    let status = contended.enable();
    assert_eq!(status.last_error, contended.status.last_error);
    assert_eq!(status.state, ScreenRecordingState::Error);
}

#[test]
fn shutdown_contender_does_not_reacquire_lock_after_owner_exits() {
    let mut owner = runtime(true, true);
    assert!(start(&mut owner, None));
    assert!(run_tick(&mut owner, 1_700_000_000, 1));
    assert_eq!(owner.status.state, ScreenRecordingState::Running);

    let mut transient = runtime(true, true);
    assert!(!start(&mut transient, Some(77)));
    assert_eq!(transient.status.state, ScreenRecordingState::Error);
    assert_eq!(
        transient.status.last_error.as_deref(),
        Some(format!("{SCREEN_RECORDING_OWNED_BY_ANOTHER_PROCESS_MESSAGE} (pid 77)").as_str())
    );
    assert!(transient.lock_retry.is_some());

    let tasks = transient.take_tasks();
    assert!(!transient.retry_round(), "a round during the stop does not try");
    assert_eq!(
        tasks.stop_plan(),
        vec![StopAction::CancelRetry, StopAction::AwaitRetry]
    );
    assert!(transient.is_idle());
    let lock = transient.take_owner_lock();
    assert!(release_plan(&lock).is_empty());

    let mut main = runtime(true, true);
    assert!(!start(&mut main, Some(77)));
    assert_eq!(main.status.state, ScreenRecordingState::Error);

    owner.take_tasks();
    assert_eq!(owner.take_owner_lock(), Some("lock"));

    assert!(
        !transient.retry_round(),
        "shut down transient manager should not reacquire the recording lock"
    );
    assert!(transient.is_idle() && transient.owner_lock.is_none());
    assert_ne!(transient.status.state, ScreenRecordingState::Running);

    assert!(main.retry_round());
    assert!(start(&mut main, None));
    assert!(!main.retry_result(true));
    assert!(run_tick(&mut main, 1_700_000_006, 1));
    assert_eq!(main.status.state, ScreenRecordingState::Running);
}

#[test]
fn replaced_lock_file_is_opened_anew() {
    let mut runtime = runtime(true, true);
    let (phase, action) = runtime.start_step(StartPhase::Locking, StartEvent::Locked);
    assert_eq!(phase, StartPhase::CheckingLock);
    assert!(matches!(action, StartAction::CheckLock));
    let (phase, action) = runtime.start_step(phase, StartEvent::LockReplaced);
    assert_eq!(phase, StartPhase::OpeningLock);
    assert!(matches!(action, StartAction::OpenLock));
    assert!(runtime.owner_lock.is_none());
}

#[test]
fn unknown_owner_is_not_named() {
    let mut runtime = runtime(true, true);
    let (phase, _) = runtime.start_step(StartPhase::ReadingOwner, StartEvent::OwnerRead(None));
    assert_eq!(phase, StartPhase::Over);
    assert_eq!(
        runtime.status.last_error.as_deref(),
        Some(SCREEN_RECORDING_OWNED_BY_ANOTHER_PROCESS_MESSAGE)
    );
}

#[test]
fn start_failures_are_reported() {
    for (phase, message) in [
        (
            StartPhase::CreatingDirectory,
            "failed to create screen recording lock directory: full",
        ),
        (
            StartPhase::OpeningLock,
            "failed to open screen recording lock file: full",
        ),
        (
            StartPhase::Locking,
            "failed to lock screen recording owner file: full",
        ),
        (
            StartPhase::CheckingLock,
            "failed to lock screen recording owner file: full",
        ),
        (
            StartPhase::WritingPid,
            "failed to write screen recording owner pid: full",
        ),
    ] {
        let mut runtime = runtime(true, true);
        let (after, action) = runtime.start_step(phase, StartEvent::Failed("full".to_string()));
        assert_eq!(after, StartPhase::Over);
        assert!(matches!(action, StartAction::GiveUp));
        assert_eq!(runtime.status.state, ScreenRecordingState::Error);
        assert_eq!(runtime.status.last_error.as_deref(), Some(message));
        assert!(runtime.owner_lock.is_none());
        let status = runtime.enable();
        assert_eq!(
            status.last_error.as_deref(),
            Some(SCREEN_RECORDING_OWNED_BY_ANOTHER_PROCESS_MESSAGE)
        );
    }
}

#[test]
fn running_recorder_is_not_started_again() {
    let mut runtime = runtime(true, true);
    assert!(start(&mut runtime, None));
    assert!(!start(&mut runtime, None));
    runtime.take_tasks();
    assert!(start(&mut runtime, Some(9)), "the owner needs no new lock");
    assert!(!runtime.retry_round());
}

#[test]
fn requests_change_nothing_while_switched_off() {
    let mut runtime = runtime(true, false);
    let paused = runtime.pause();
    assert!(!runtime.replace_status(paused, true));
    let (resumed, should_start) = runtime.resume();
    assert!(!should_start);
    assert!(!runtime.replace_status(resumed, true));
    assert!(!runtime.paused);
    assert!(!run_tick(&mut runtime, 1_700_000_000, 1));
}

#[test]
fn clients_hear_only_of_new_fingerprints() {
    let mut runtime = runtime(true, true);
    let mut status = runtime.status.clone();
    status.newest_frame_at = Some(5);
    assert!(!runtime.replace_status(status.clone(), true));
    assert_eq!(runtime.status.newest_frame_at, Some(5));
    status.captured_display_count = 3;
    assert!(!runtime.replace_status(status.clone(), false));
    status.last_error = Some("gone".to_string());
    assert!(runtime.replace_status(status, true));
}

#[test]
fn failed_ticks_are_published() {
    let mut runtime = runtime(true, true);
    let failure = |kind, permission| CaptureBackendFailure {
        kind,
        permission,
        message: "no".to_string(),
    };
    for (kind, permission, state) in [
        (
            CaptureBackendFailureKind::Unsupported,
            ScreenRecordingPermission::Unknown,
            ScreenRecordingState::Unsupported,
        ),
        (
            CaptureBackendFailureKind::PermissionRequired,
            ScreenRecordingPermission::Required,
            ScreenRecordingState::Error,
        ),
        (
            CaptureBackendFailureKind::Other,
            ScreenRecordingPermission::Unknown,
            ScreenRecordingState::Error,
        ),
    ] {
        let event = RunEvent::CaptureFailed(failure(kind, permission));
        match runtime.run_step(RunPhase::Capturing, event) {
            (RunPhase::Publishing, RunAction::Publish(status)) => {
                assert_eq!(status.state, state);
                assert_eq!(status.permission, permission);
                assert_eq!(status.last_error.as_deref(), Some("no"));
                assert_eq!(status.captured_display_count, 0);
            }
            _ => panic!("nothing was published"),
        }
    }
    let event = RunEvent::WorkerFailed("panicked".to_string());
    match runtime.run_step(RunPhase::Capturing, event) {
        (_, RunAction::Publish(status)) => assert_eq!(
            status.last_error.as_deref(),
            Some("screen recording worker failed: panicked")
        ),
        _ => panic!("nothing was published"),
    }
}

#[test]
fn old_segments_are_looked_for_once_a_minute() {
    let mut runtime = runtime(true, true);
    assert!(matches!(
        runtime.run_step(RunPhase::Starting, RunEvent::Started(time(100))),
        (RunPhase::PruningFirst, RunAction::Prune)
    ));
    assert!(matches!(
        runtime.run_step(RunPhase::PruningFirst, RunEvent::Pruned),
        (RunPhase::Waiting, RunAction::Wait)
    ));
    assert!(!runtime.prune_if_needed(&time(159)));
    assert!(runtime.prune_if_needed(&time(160)));
    assert_eq!(runtime.last_pruned_at, Some(160));
    assert!(!runtime.prune_if_needed(&time(10)));
}

#[test]
fn cancelled_task_ends() {
    let mut runtime = runtime(true, true);
    assert!(matches!(
        runtime.run_step(RunPhase::Waiting, RunEvent::Woken { cancelled: true }),
        (RunPhase::Over, RunAction::Stop)
    ));
}
