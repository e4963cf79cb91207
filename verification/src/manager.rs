//! The recorder's runtime: when it records, and what each request and event changes.
use crate::backend::CaptureBackendFailure;
use crate::clock::CaptureTime;
use crate::owner::{owner_line, owner_pid_contents};
use crate::protocol::{
    ScreenRecordingBackend, ScreenRecordingPlatform, ScreenRecordingState, ScreenRecordingStatus,
    StatusView,
};
use crate::status::{
    apply_backend_error_status, apply_contention, apply_error, apply_tick_outcome, availability,
    blames_another_process, blames_owner, capture_failed, contended, fingerprint, fingerprint_of,
    in_error, owner_message_blames_owner, running, status_for_availability,
    SCREEN_RECORDING_OWNED_BY_ANOTHER_PROCESS_MESSAGE, WORKER_FAILED_PREFIX,
};
use crate::text::owned;
use crate::tick::CaptureTickOutcome;
use vstd::prelude::*;

verus! {

/// Old segments are looked for at most once in so many seconds.
pub const PRUNE_INTERVAL_SECONDS: i64 = 60;

pub const LOCK_DIRECTORY_PREFIX: &'static str =
    "failed to create screen recording lock directory: ";

pub const OPEN_LOCK_PREFIX: &'static str = "failed to open screen recording lock file: ";

pub const WRITE_PID_PREFIX: &'static str = "failed to write screen recording owner pid: ";

pub const LOCK_PREFIX: &'static str = "failed to lock screen recording owner file: ";

/// What the recorder's requests and tasks share. Running tasks are `T`s, the means to cancel
/// them `C`s, and the lock that makes this process the owner is an `L`.
#[derive(Debug)]
pub struct RuntimeState<T, C, L> {
    pub feature_enabled: bool,
    pub config_enabled: bool,
    pub paused: bool,
    pub status: ScreenRecordingStatus,
    /// The capture task.
    pub task: Option<T>,
    /// The task that waits for the lock.
    pub lock_retry: Option<T>,
    pub lock_retry_cancel: Option<C>,
    pub cancel: Option<C>,
    pub owner_lock: Option<L>,
    pub last_pruned_at: Option<i64>,
}

/// A runtime with its texts as characters.
#[verifier::ext_equal]
#[verifier::reject_recursive_types(T)]
#[verifier::reject_recursive_types(C)]
#[verifier::reject_recursive_types(L)]
pub struct RuntimeView<T, C, L> {
    pub feature_enabled: bool,
    pub config_enabled: bool,
    pub paused: bool,
    pub status: StatusView,
    pub task: Option<T>,
    pub lock_retry: Option<T>,
    pub lock_retry_cancel: Option<C>,
    pub cancel: Option<C>,
    pub owner_lock: Option<L>,
    pub last_pruned_at: Option<i64>,
}

impl<T, C, L> View for RuntimeState<T, C, L> {
    type V = RuntimeView<T, C, L>;

    open spec fn view(&self) -> RuntimeView<T, C, L> {
        RuntimeView {
            feature_enabled: self.feature_enabled,
            config_enabled: self.config_enabled,
            paused: self.paused,
            status: self.status@,
            task: self.task,
            lock_retry: self.lock_retry,
            lock_retry_cancel: self.lock_retry_cancel,
            cancel: self.cancel,
            owner_lock: self.owner_lock,
            last_pruned_at: self.last_pruned_at,
        }
    }
}

/// The tasks that were running, and the means to cancel them.
#[derive(Debug)]
pub struct TaskHandles<T, C> {
    pub cancel: Option<C>,
    pub task: Option<T>,
    pub lock_retry_cancel: Option<C>,
    pub lock_retry: Option<T>,
}

/// What is to be done to stop recording.
#[derive(Debug, Clone, Copy, PartialEq, Eq, Structural)]
pub enum StopAction {
    CancelRetry,
    AwaitRetry,
    CancelTask,
    AwaitTask,
    /// Remove the storage directory with all it holds.
    PurgeStorage,
    /// Begin anew, with no streams and no known displays.
    ForgetStreams,
    ReleaseLock,
    RemoveLockFile,
}

/// The action alone, where it is needed.
pub open spec fn if_some<A>(handle: Option<A>, action: StopAction) -> Seq<StopAction> {
    if handle is Some {
        seq![action]
    } else {
        Seq::empty()
    }
}

impl<T, C> TaskHandles<T, C> {
    /// In which order tasks are stopped: the one that waits for the lock, then the capture task;
    /// each is cancelled, then waited for.
    pub fn stop_plan(&self) -> (plan: Vec<StopAction>)
        ensures
            plan@ == if_some(self.lock_retry_cancel, StopAction::CancelRetry) + if_some(
                self.lock_retry,
                StopAction::AwaitRetry,
            ) + if_some(self.cancel, StopAction::CancelTask) + if_some(
                self.task,
                StopAction::AwaitTask,
            ),
    {
        let mut plan: Vec<StopAction> = Vec::new();
        if self.lock_retry_cancel.is_some() {
            plan.push(StopAction::CancelRetry);
        }
        if self.lock_retry.is_some() {
            plan.push(StopAction::AwaitRetry);
        }
        if self.cancel.is_some() {
            plan.push(StopAction::CancelTask);
        }
        if self.task.is_some() {
            plan.push(StopAction::AwaitTask);
        }
        plan
    }
}

/// What is cleaned up by a process that gives up `lock`, in this order. Nothing, where it does
/// not hold the lock. The lock file goes while it is still locked: once it is unlocked it may be
/// another's.
pub open spec fn release_actions<L>(lock: Option<L>) -> Seq<StopAction> {
    if lock is Some {
        seq![
            StopAction::PurgeStorage,
            StopAction::ForgetStreams,
            StopAction::RemoveLockFile,
            StopAction::ReleaseLock,
        ]
    } else {
        Seq::empty()
    }
}

/// What a process cleans up once its tasks have stopped.
pub fn release_plan<L>(lock: &Option<L>) -> (plan: Vec<StopAction>)
    ensures
        plan@ == release_actions(*lock),
{
    let mut plan: Vec<StopAction> = Vec::new();
    if lock.is_some() {
        plan.push(StopAction::PurgeStorage);
        plan.push(StopAction::ForgetStreams);
        plan.push(StopAction::RemoveLockFile);
        plan.push(StopAction::ReleaseLock);
    }
    plan
}

/// What a status says of the recorder itself, which no request and no event changes.
#[derive(Debug)]
pub struct RecorderIdentity {
    pub storage_path: String,
    pub platform: ScreenRecordingPlatform,
    pub backend: ScreenRecordingBackend,
}

// ---------------------------------------------------------------------------------------
// What happens to the runtime
// ---------------------------------------------------------------------------------------

impl<T, C, L> RuntimeView<T, C, L> {
    pub open spec fn enabled(self) -> bool {
        self.feature_enabled && self.config_enabled
    }

    /// Frames are wanted.
    pub open spec fn recording(self) -> bool {
        self.enabled() && !self.paused
    }

    /// While a capture task runs, this process is the owner.
    pub open spec fn guarded(self) -> bool {
        self.task is Some ==> self.owner_lock is Some
    }

    /// No task runs, neither to capture nor to wait for the lock.
    pub open spec fn idle(self) -> bool {
        self.task is None && self.lock_retry is None
    }

    /// The runtime once its tasks are handed out to be stopped.
    pub open spec fn tasks_taken(self) -> RuntimeView<T, C, L> {
        RuntimeView { cancel: None, task: None, lock_retry_cancel: None, lock_retry: None, ..self }
    }

    /// The runtime once its lock is handed out.
    pub open spec fn lock_taken(self) -> RuntimeView<T, C, L> {
        RuntimeView { owner_lock: None, ..self }
    }

    /// A task that waits for the lock may try to start recording: the recorder is switched on,
    /// captures nothing yet, and has not stopped waiting.
    pub open spec fn round_tries(self) -> bool {
        self.enabled() && self.task is None && self.lock_retry is Some
    }

    /// The runtime once no task waits for the lock any more.
    pub open spec fn retry_over(self) -> RuntimeView<T, C, L> {
        RuntimeView { lock_retry: None, lock_retry_cancel: None, ..self }
    }

    pub open spec fn with_status(self, status: StatusView) -> RuntimeView<T, C, L> {
        RuntimeView { status, ..self }
    }

    /// The status that tells of a pause.
    pub open spec fn pause_status(self) -> StatusView {
        if self.enabled() {
            StatusView { paused: true, state: ScreenRecordingState::Paused, ..self.status }
        } else {
            self.status
        }
    }

    /// The status that tells of the end of a pause.
    pub open spec fn resume_status(self) -> StatusView {
        if self.enabled() {
            StatusView { paused: false, state: ScreenRecordingState::Starting, ..self.status }
        } else {
            self.status
        }
    }

    /// The status of a recorder that has been switched on: without a capture task, because
    /// another process records.
    pub open spec fn enabled_status(self) -> StatusView {
        let status = StatusView { paused: self.paused, ..self.status };
        if self.task is None {
            StatusView {
                state: ScreenRecordingState::Error,
                last_error: if blames_owner(status.last_error) {
                    status.last_error
                } else {
                    Some(SCREEN_RECORDING_OWNED_BY_ANOTHER_PROCESS_MESSAGE@)
                },
                captured_display_count: 0,
                ..status
            }
        } else if self.paused {
            StatusView { state: ScreenRecordingState::Paused, ..status }
        } else {
            StatusView { state: ScreenRecordingState::Starting, ..status }
        }
    }

    /// The runtime once this process has become the owner.
    pub open spec fn owning(self, lock: L) -> RuntimeView<T, C, L> {
        RuntimeView {
            owner_lock: Some(lock),
            status: StatusView {
                state: if self.paused {
                    ScreenRecordingState::Paused
                } else {
                    ScreenRecordingState::Starting
                },
                paused: self.paused,
                last_error: None,
                ..self.status
            },
            ..self
        }
    }

    /// Old segments are due to be looked for.
    pub open spec fn prune_due(self, seconds: i64) -> bool {
        match self.last_pruned_at {
            Some(last) => seconds - last >= PRUNE_INTERVAL_SECONDS,
            None => true,
        }
    }

    /// The runtime after old segments were due to be looked for, or were not.
    pub open spec fn pruned(self, seconds: i64) -> RuntimeView<T, C, L> {
        if self.prune_due(seconds) {
            RuntimeView { last_pruned_at: Some(seconds), ..self }
        } else {
            self
        }
    }
}

impl<T, C, L> RuntimeState<T, C, L> {
    /// The runtime of a recorder without tasks.
    pub fn new(
        feature_enabled: bool,
        config_enabled: bool,
        identity: RecorderIdentity,
    ) -> (runtime: RuntimeState<T, C, L>)
        ensures
            runtime@.guarded(),
            runtime@ == (RuntimeView {
                feature_enabled,
                config_enabled,
                paused: false,
                status: availability(
                    feature_enabled,
                    config_enabled,
                    identity.platform,
                    identity.backend,
                    identity.storage_path@,
                ),
                task: None::<T>,
                lock_retry: None::<T>,
                lock_retry_cancel: None::<C>,
                cancel: None::<C>,
                owner_lock: None::<L>,
                last_pruned_at: None,
            }),
    {
        RuntimeState {
            feature_enabled,
            config_enabled,
            paused: false,
            status: status_for_availability(
                feature_enabled,
                config_enabled,
                identity.platform,
                identity.backend,
                identity.storage_path,
            ),
            task: None,
            lock_retry: None,
            lock_retry_cancel: None,
            cancel: None,
            owner_lock: None,
            last_pruned_at: None,
        }
    }

    /// Whether no task runs.
    pub fn is_idle(&self) -> (idle: bool)
        ensures
            idle == self@.idle(),
    {
        self.task.is_none() && self.lock_retry.is_none()
    }

    /// Whether the recorder is switched on.
    pub fn is_enabled(&self) -> (enabled: bool)
        ensures
            enabled == self@.enabled(),
    {
        self.feature_enabled && self.config_enabled
    }

    /// Pauses a recorder that is switched on. Gives the status to be published.
    pub fn pause(&mut self) -> (status: ScreenRecordingStatus)
        ensures
            old(self)@.guarded() ==> final(self)@.guarded(),
            status@ == old(self)@.pause_status(),
            final(self)@ == (RuntimeView {
                paused: old(self)@.paused || old(self)@.enabled(),
                ..old(self)@
            }),
    {
        let mut status: ScreenRecordingStatus = self.status.clone();
        if self.is_enabled() {
            self.paused = true;
            status.paused = true;
            status.state = ScreenRecordingState::Paused;
        }
        status
    }

    /// Ends the pause of a recorder that is switched on. Gives the status to be published, and
    /// whether a capture task has to be started first.
    pub fn resume(&mut self) -> (resumed: (ScreenRecordingStatus, bool))
        ensures
            old(self)@.guarded() ==> final(self)@.guarded(),
            resumed.0@ == old(self)@.resume_status(),
            resumed.1 == (old(self)@.enabled() && old(self)@.task is None),
            final(self)@ == (RuntimeView {
                paused: old(self)@.paused && !old(self)@.enabled(),
                ..old(self)@
            }),
    {
        let mut status: ScreenRecordingStatus = self.status.clone();
        let mut should_start: bool = false;
        if self.is_enabled() {
            self.paused = false;
            status.paused = false;
            status.state = ScreenRecordingState::Starting;
            should_start = self.task.is_none();
        }
        (status, should_start)
    }

    /// Switches the recorder on, after an attempt to start it. Gives the status to be
    /// published.
    pub fn enable(&mut self) -> (status: ScreenRecordingStatus)
        ensures
            old(self)@.guarded() ==> final(self)@.guarded(),
            status@ == old(self)@.enabled_status(),
            final(self)@ == (RuntimeView {
                feature_enabled: true,
                config_enabled: true,
                ..old(self)@
            }),
    {
        self.feature_enabled = true;
        self.config_enabled = true;
        let mut status: ScreenRecordingStatus = self.status.clone();
        status.paused = self.paused;
        if self.task.is_none() {
            status.state = ScreenRecordingState::Error;
            if !blames_another_process(&status.last_error) {
                status.last_error = Some(
                    owned(SCREEN_RECORDING_OWNED_BY_ANOTHER_PROCESS_MESSAGE),
                );
            }
            status.captured_display_count = 0;
        } else if self.paused {
            status.state = ScreenRecordingState::Paused;
        } else {
            status.state = ScreenRecordingState::Starting;
        }
        status
    }

    /// Begins to switch the recorder off. What it is stays.
    pub fn begin_disable(&mut self, feature_enabled: bool, config_enabled: bool) -> (identity:
        RecorderIdentity)
        ensures
            old(self)@.guarded() ==> final(self)@.guarded(),
            identity.storage_path@ == old(self)@.status.storage_path,
            identity.platform == old(self)@.status.platform,
            identity.backend == old(self)@.status.backend,
            final(self)@ == (RuntimeView {
                feature_enabled,
                config_enabled,
                paused: false,
                ..old(self)@
            }),
    {
        self.feature_enabled = feature_enabled;
        self.config_enabled = config_enabled;
        self.paused = false;
        RecorderIdentity {
            storage_path: owned(self.status.storage_path.as_str()),
            platform: self.status.platform,
            backend: self.status.backend,
        }
    }

    /// Ends switching the recorder off, once nothing runs any more. Gives the status to be
    /// published.
    pub fn end_disable(
        &mut self,
        feature_enabled: bool,
        config_enabled: bool,
        identity: RecorderIdentity,
    ) -> (status: ScreenRecordingStatus)
        ensures
            old(self)@.guarded() ==> final(self)@.guarded(),
            status@ == availability(
                feature_enabled,
                config_enabled,
                identity.platform,
                identity.backend,
                identity.storage_path@,
            ),
            final(self)@ == (RuntimeView { last_pruned_at: None, ..old(self)@ }),
    {
        self.last_pruned_at = None;
        status_for_availability(
            feature_enabled,
            config_enabled,
            identity.platform,
            identity.backend,
            identity.storage_path,
        )
    }

    /// Publishes a status. Clients that are to be notified hear of it where its fingerprint is
    /// new.
    pub fn replace_status(&mut self, status: ScreenRecordingStatus, notify: bool) -> (
        should_notify: bool)
        ensures
            old(self)@.guarded() ==> final(self)@.guarded(),
            final(self)@ == old(self)@.with_status(status@),
            should_notify == (notify && fingerprint_of(old(self)@.status) != fingerprint_of(
                status@,
            )),
    {
        let unchanged: bool = fingerprint(&self.status).same(&fingerprint(&status));
        self.status = status;
        notify && !unchanged
    }

    /// Takes over a capture task that the owner has just started.
    pub fn task_started(&mut self, task: T, cancel: C)
        requires
            old(self)@.owner_lock is Some,
        ensures
            final(self)@.guarded(),
            final(self)@ == (RuntimeView {
                task: Some(task),
                cancel: Some(cancel),
                ..old(self)@
            }),
    {
        self.cancel = Some(cancel);
        self.task = Some(task);
    }

    /// Takes over a task that was just started to wait for the lock.
    pub fn retry_started(&mut self, task: T, cancel: C)
        ensures
            old(self)@.guarded() ==> final(self)@.guarded(),
            final(self)@ == (RuntimeView {
                lock_retry: Some(task),
                lock_retry_cancel: Some(cancel),
                ..old(self)@
            }),
    {
        self.lock_retry_cancel = Some(cancel);
        self.lock_retry = Some(task);
    }

    /// Hands out all tasks, so that they can be stopped.
    pub fn take_tasks(&mut self) -> (tasks: TaskHandles<T, C>)
        ensures
            tasks == (TaskHandles {
                cancel: old(self)@.cancel,
                task: old(self)@.task,
                lock_retry_cancel: old(self)@.lock_retry_cancel,
                lock_retry: old(self)@.lock_retry,
            }),
            final(self)@ == old(self)@.tasks_taken(),
            final(self)@.guarded(),
    {
        TaskHandles {
            cancel: self.cancel.take(),
            task: self.task.take(),
            lock_retry_cancel: self.lock_retry_cancel.take(),
            lock_retry: self.lock_retry.take(),
        }
    }

    /// Hands out the lock, where this process is the owner and its capture task has stopped.
    pub fn take_owner_lock(&mut self) -> (lock: Option<L>)
        requires
            old(self)@.task is None,
        ensures
            lock == old(self)@.owner_lock,
            final(self)@ == old(self)@.lock_taken(),
            final(self)@.guarded(),
    {
        self.owner_lock.take()
    }

    /// Whether the task that waits for the lock should try to start recording now. Where not,
    /// it is over. A task that has been handed out to be stopped does not try.
    pub fn retry_round(&mut self) -> (should_try: bool)
        ensures
            should_try == old(self)@.round_tries(),
            final(self)@ == (if should_try {
                old(self)@
            } else {
                old(self)@.retry_over()
            }),
            old(self)@.guarded() ==> final(self)@.guarded(),
    {
        if !self.is_enabled() || self.task.is_some() || self.lock_retry.is_none() {
            self.lock_retry = None;
            self.lock_retry_cancel = None;
            false
        } else {
            true
        }
    }

    /// Whether the task that waits for the lock goes on, after it tried to start recording.
    pub fn retry_result(&mut self, started: bool) -> (should_continue: bool)
        ensures
            old(self)@.guarded() ==> final(self)@.guarded(),
            should_continue == !started,
            final(self)@ == (if started {
                old(self)@.retry_over()
            } else {
                old(self)@
            }),
    {
        if started {
            self.lock_retry = None;
            self.lock_retry_cancel = None;
            false
        } else {
            true
        }
    }

    /// Whether old segments have to be looked for now; if so, that is remembered.
    pub fn prune_if_needed(&mut self, captured_at: &CaptureTime) -> (should_prune: bool)
        ensures
            old(self)@.guarded() ==> final(self)@.guarded(),
            should_prune == old(self)@.prune_due(captured_at.seconds()),
            final(self)@ == old(self)@.pruned(captured_at.seconds()),
    {
        let seconds: i64 = captured_at.timestamp();
        let due: bool = match self.last_pruned_at {
            Some(last) => seconds as i128 - last as i128 >= PRUNE_INTERVAL_SECONDS as i128,
            None => true,
        };
        if due {
            self.last_pruned_at = Some(seconds);
        }
        due
    }
}

// ---------------------------------------------------------------------------------------
// Becoming the owner
// ---------------------------------------------------------------------------------------

/// How far an attempt to start recording has come.
#[derive(Debug, Clone, Copy, PartialEq, Eq, Structural)]
pub enum StartPhase {
    CreatingDirectory,
    OpeningLock,
    Locking,
    CheckingLock,
    WritingPid,
    ReadingOwner,
    Over,
}

/// What is to be done next to start recording.
#[derive(Debug)]
pub enum StartAction {
    /// Create the directory of the lock file, with those above it.
    CreateLockDirectory,
    /// Open the lock file for reading and writing, creating it where it is missing.
    OpenLock,
    /// Try to lock the file.
    TryLock,
    /// See whether the path still leads to the locked file.
    CheckLock,
    /// Write this into the file.
    WriteOwnerPid(String),
    /// Read who locked the file.
    ReadOwner,
    /// Start a capture task.
    Start,
    /// Nothing.
    GiveUp,
    /// Start a task that waits for the lock.
    WaitForLock,
}

/// An action with its text as characters.
#[verifier::ext_equal]
pub enum StartActionView {
    CreateLockDirectory,
    OpenLock,
    TryLock,
    CheckLock,
    WriteOwnerPid(Seq<char>),
    ReadOwner,
    Start,
    GiveUp,
    WaitForLock,
}

impl View for StartAction {
    type V = StartActionView;

    open spec fn view(&self) -> StartActionView {
        match *self {
            StartAction::CreateLockDirectory => StartActionView::CreateLockDirectory,
            StartAction::OpenLock => StartActionView::OpenLock,
            StartAction::TryLock => StartActionView::TryLock,
            StartAction::CheckLock => StartActionView::CheckLock,
            StartAction::WriteOwnerPid(contents) => StartActionView::WriteOwnerPid(contents@),
            StartAction::ReadOwner => StartActionView::ReadOwner,
            StartAction::Start => StartActionView::Start,
            StartAction::GiveUp => StartActionView::GiveUp,
            StartAction::WaitForLock => StartActionView::WaitForLock,
        }
    }
}

/// What came of an action.
#[derive(Debug)]
pub enum StartEvent<L> {
    DirectoryCreated,
    LockOpened,
    Locked,
    /// The path leads to the locked file; this process has this id.
    LockCurrent(u32),
    /// The file was removed before it was locked.
    LockReplaced,
    /// Another process holds the lock.
    Contended,
    /// The process id is in the file, which stays locked.
    PidWritten(L),
    /// The process that holds the lock, where the file says so.
    OwnerRead(Option<u32>),
    /// The action failed, with this message.
    Failed(String),
}

impl<L> StartEvent<L> {
    /// The event is an answer to the action of a phase.
    pub open spec fn answers(self, phase: StartPhase) -> bool {
        match phase {
            StartPhase::CreatingDirectory => self is DirectoryCreated || self is Failed,
            StartPhase::OpeningLock => self is LockOpened || self is Failed,
            StartPhase::CheckingLock => self is LockCurrent || self is LockReplaced || self
                is Failed,
            StartPhase::Locking => self is Locked || self is Contended || self is Failed,
            StartPhase::WritingPid => self is PidWritten || self is Failed,
            StartPhase::ReadingOwner => self is OwnerRead,
            StartPhase::Over => false,
        }
    }
}

/// What the message of a failure in a phase begins with.
pub open spec fn failure_prefix(phase: StartPhase) -> Seq<char> {
    match phase {
        StartPhase::CreatingDirectory => LOCK_DIRECTORY_PREFIX@,
        StartPhase::OpeningLock => OPEN_LOCK_PREFIX@,
        StartPhase::WritingPid => WRITE_PID_PREFIX@,
        _ => LOCK_PREFIX@,
    }
}

impl<T, C, L> RuntimeView<T, C, L> {
    /// How an attempt to start recording begins.
    pub open spec fn start_begun(self) -> (StartPhase, StartActionView) {
        if self.task is Some {
            (StartPhase::Over, StartActionView::GiveUp)
        } else if self.owner_lock is Some {
            (StartPhase::Over, StartActionView::Start)
        } else {
            (StartPhase::CreatingDirectory, StartActionView::CreateLockDirectory)
        }
    }

    /// How an attempt to start recording goes on.
    pub open spec fn start_stepped(self, phase: StartPhase, event: StartEvent<L>) -> (
        RuntimeView<T, C, L>,
        StartPhase,
        StartActionView,
    ) {
        match event {
            StartEvent::DirectoryCreated => (
                self,
                StartPhase::OpeningLock,
                StartActionView::OpenLock,
            ),
            StartEvent::LockOpened => (self, StartPhase::Locking, StartActionView::TryLock),
            StartEvent::Locked => (self, StartPhase::CheckingLock, StartActionView::CheckLock),
            StartEvent::LockReplaced => (
                self,
                StartPhase::OpeningLock,
                StartActionView::OpenLock,
            ),
            StartEvent::LockCurrent(pid) => (
                self,
                StartPhase::WritingPid,
                StartActionView::WriteOwnerPid(owner_line(pid)),
            ),
            StartEvent::Contended => (
                self,
                StartPhase::ReadingOwner,
                StartActionView::ReadOwner,
            ),
            StartEvent::PidWritten(lock) => (
                self.owning(lock),
                StartPhase::Over,
                StartActionView::Start,
            ),
            StartEvent::OwnerRead(owner) => (
                self.with_status(contended(self.status, owner)),
                StartPhase::Over,
                if self.lock_retry is None {
                    StartActionView::WaitForLock
                } else {
                    StartActionView::GiveUp
                },
            ),
            StartEvent::Failed(message) => (
                self.with_status(in_error(self.status, failure_prefix(phase) + message@)),
                StartPhase::Over,
                StartActionView::GiveUp,
            ),
        }
    }
}

impl<T, C, L> RuntimeState<T, C, L> {
    /// Begins an attempt to start recording: there is nothing to do where a capture task runs,
    /// and no lock to take for the owner.
    pub fn begin_start(&self) -> (begun: (StartPhase, StartAction))
        ensures
            (begun.0, begun.1@) == self@.start_begun(),
    {
        if self.task.is_some() {
            (StartPhase::Over, StartAction::GiveUp)
        } else if self.owner_lock.is_some() {
            (StartPhase::Over, StartAction::Start)
        } else {
            (StartPhase::CreatingDirectory, StartAction::CreateLockDirectory)
        }
    }

    /// Goes on with an attempt to start recording. A failure, or another process that holds
    /// the lock, is noted in the status. A file that an owner removed before it was locked here
    /// is of no use: the attempt opens the file anew.
    pub fn start_step(&mut self, phase: StartPhase, event: StartEvent<L>) -> (stepped: (
        StartPhase,
        StartAction,
    ))
        requires
            event.answers(phase),
        ensures
            old(self)@.guarded() ==> final(self)@.guarded(),
            (final(self)@, stepped.0, stepped.1@) == old(self)@.start_stepped(phase, event),
    {
        match event {
            StartEvent::DirectoryCreated => (StartPhase::OpeningLock, StartAction::OpenLock),
            StartEvent::LockOpened => (StartPhase::Locking, StartAction::TryLock),
            StartEvent::Locked => (StartPhase::CheckingLock, StartAction::CheckLock),
            StartEvent::LockReplaced => (StartPhase::OpeningLock, StartAction::OpenLock),
            StartEvent::LockCurrent(pid) => (
                StartPhase::WritingPid,
                StartAction::WriteOwnerPid(owner_pid_contents(pid)),
            ),
            StartEvent::Contended => (StartPhase::ReadingOwner, StartAction::ReadOwner),
            StartEvent::PidWritten(lock) => {
                self.owner_lock = Some(lock);
                self.status.state = if self.paused {
                    ScreenRecordingState::Paused
                } else {
                    ScreenRecordingState::Starting
                };
                self.status.paused = self.paused;
                self.status.last_error = None;
                (StartPhase::Over, StartAction::Start)
            },
            StartEvent::OwnerRead(owner) => {
                apply_contention(&mut self.status, owner);
                if self.lock_retry.is_none() {
                    (StartPhase::Over, StartAction::WaitForLock)
                } else {
                    (StartPhase::Over, StartAction::GiveUp)
                }
            },
            StartEvent::Failed(message) => {
                let prefix: &str = match phase {
                    StartPhase::CreatingDirectory => LOCK_DIRECTORY_PREFIX,
                    StartPhase::OpeningLock => OPEN_LOCK_PREFIX,
                    StartPhase::WritingPid => WRITE_PID_PREFIX,
                    _ => LOCK_PREFIX,
                };
                apply_error(&mut self.status, prefix, message.as_str());
                (StartPhase::Over, StartAction::GiveUp)
            },
        }
    }
}

// ---------------------------------------------------------------------------------------
// The capture task
// ---------------------------------------------------------------------------------------

/// How far the capture task has come.
#[derive(Debug, Clone, Copy, PartialEq, Eq, Structural)]
pub enum RunPhase {
    Starting,
    /// Old segments are looked for, before the first frame.
    PruningFirst,
    Waiting,
    Capturing,
    /// Old segments are looked for, after a tick that came to this.
    PruningAfter(CaptureTickOutcome),
    Publishing,
    Over,
}

/// What the capture task is to do next.
#[derive(Debug)]
pub enum RunAction {
    /// Remove old segments.
    Prune,
    /// Wait for the next second, a request or the end.
    Wait,
    /// Run a tick.
    Capture,
    /// Publish this status, and notify clients of it.
    Publish(ScreenRecordingStatus),
    /// End.
    Stop,
}

/// An action with its texts as characters.
#[verifier::ext_equal]
pub enum RunActionView {
    Prune,
    Wait,
    Capture,
    Publish(StatusView),
    Stop,
}

impl View for RunAction {
    type V = RunActionView;

    open spec fn view(&self) -> RunActionView {
        match *self {
            RunAction::Prune => RunActionView::Prune,
            RunAction::Wait => RunActionView::Wait,
            RunAction::Capture => RunActionView::Capture,
            RunAction::Publish(status) => RunActionView::Publish(status@),
            RunAction::Stop => RunActionView::Stop,
        }
    }
}

/// What the capture task is told.
#[derive(Debug)]
pub enum RunEvent {
    /// The task began at this time.
    Started(CaptureTime),
    Pruned,
    /// The wait is over; the task may have been cancelled.
    Woken { cancelled: bool },
    /// The tick at this time came to this.
    Captured(CaptureTickOutcome, CaptureTime),
    CaptureFailed(CaptureBackendFailure),
    /// The tick did not end in an orderly way.
    WorkerFailed(String),
    Published,
}

impl RunEvent {
    /// The event is an answer to the action of a phase.
    pub open spec fn answers(self, phase: RunPhase) -> bool {
        match phase {
            RunPhase::Starting => self is Started,
            RunPhase::PruningFirst | RunPhase::PruningAfter(_) => self is Pruned,
            RunPhase::Waiting => self is Woken,
            RunPhase::Capturing => self is Captured || self is CaptureFailed || self
                is WorkerFailed,
            RunPhase::Publishing => self is Published,
            RunPhase::Over => false,
        }
    }
}

impl<T, C, L> RuntimeView<T, C, L> {
    /// How the capture task goes on.
    pub open spec fn run_stepped(self, phase: RunPhase, event: RunEvent) -> (
        RuntimeView<T, C, L>,
        RunPhase,
        RunActionView,
    ) {
        match event {
            RunEvent::Started(at) => if self.prune_due(at.seconds()) {
                (self.pruned(at.seconds()), RunPhase::PruningFirst, RunActionView::Prune)
            } else {
                (self, RunPhase::Waiting, RunActionView::Wait)
            },
            RunEvent::Pruned => match phase {
                RunPhase::PruningAfter(outcome) => (
                    self,
                    RunPhase::Publishing,
                    RunActionView::Publish(running(self.status, outcome)),
                ),
                _ => (self, RunPhase::Waiting, RunActionView::Wait),
            },
            RunEvent::Woken { cancelled } => if cancelled {
                (self, RunPhase::Over, RunActionView::Stop)
            } else if self.recording() {
                (self, RunPhase::Capturing, RunActionView::Capture)
            } else {
                (self, RunPhase::Waiting, RunActionView::Wait)
            },
            RunEvent::Captured(outcome, at) => if self.prune_due(at.seconds()) {
                (
                    self.pruned(at.seconds()),
                    RunPhase::PruningAfter(outcome),
                    RunActionView::Prune,
                )
            } else {
                (
                    self,
                    RunPhase::Publishing,
                    RunActionView::Publish(running(self.status, outcome)),
                )
            },
            RunEvent::CaptureFailed(failure) => (
                self,
                RunPhase::Publishing,
                RunActionView::Publish(capture_failed(self.status, failure@)),
            ),
            RunEvent::WorkerFailed(message) => (
                self,
                RunPhase::Publishing,
                RunActionView::Publish(
                    in_error(self.status, WORKER_FAILED_PREFIX@ + message@),
                ),
            ),
            RunEvent::Published => (self, RunPhase::Waiting, RunActionView::Wait),
        }
    }
}

impl<T, C, L> RuntimeState<T, C, L> {
    fn publish_outcome(&self, outcome: &CaptureTickOutcome) -> (action: RunAction)
        ensures
            action@ == RunActionView::Publish(running(self@.status, *outcome)),
    {
        let mut status: ScreenRecordingStatus = self.status.clone();
        apply_tick_outcome(&mut status, outcome);
        RunAction::Publish(status)
    }

    /// Goes on with the capture task.
    pub fn run_step(&mut self, phase: RunPhase, event: RunEvent) -> (stepped: (
        RunPhase,
        RunAction,
    ))
        requires
            event.answers(phase),
        ensures
            old(self)@.guarded() ==> final(self)@.guarded(),
            (final(self)@, stepped.0, stepped.1@) == old(self)@.run_stepped(phase, event),
    {
        match event {
            RunEvent::Started(at) => if self.prune_if_needed(&at) {
                (RunPhase::PruningFirst, RunAction::Prune)
            } else {
                (RunPhase::Waiting, RunAction::Wait)
            },
            RunEvent::Pruned => match phase {
                RunPhase::PruningAfter(outcome) => (
                    RunPhase::Publishing,
                    self.publish_outcome(&outcome),
                ),
                _ => (RunPhase::Waiting, RunAction::Wait),
            },
            RunEvent::Woken { cancelled } => if cancelled {
                (RunPhase::Over, RunAction::Stop)
            } else if self.is_enabled() && !self.paused {
                (RunPhase::Capturing, RunAction::Capture)
            } else {
                (RunPhase::Waiting, RunAction::Wait)
            },
            RunEvent::Captured(outcome, at) => if self.prune_if_needed(&at) {
                (RunPhase::PruningAfter(outcome), RunAction::Prune)
            } else {
                (RunPhase::Publishing, self.publish_outcome(&outcome))
            },
            RunEvent::CaptureFailed(failure) => {
                let mut status: ScreenRecordingStatus = self.status.clone();
                apply_backend_error_status(&mut status, &failure);
                (RunPhase::Publishing, RunAction::Publish(status))
            },
            RunEvent::WorkerFailed(message) => {
                let mut status: ScreenRecordingStatus = self.status.clone();
                apply_error(&mut status, WORKER_FAILED_PREFIX, message.as_str());
                (RunPhase::Publishing, RunAction::Publish(status))
            },
            RunEvent::Published => (RunPhase::Waiting, RunAction::Wait),
        }
    }
}

// ---------------------------------------------------------------------------------------
// Laws
// ---------------------------------------------------------------------------------------

/// Pausing or resuming a recorder that is switched off tells clients nothing new.
pub proof fn requests_are_ignored_while_switched_off<T, C, L>(runtime: RuntimeView<T, C, L>)
    requires
        !runtime.enabled(),
    ensures
        runtime.pause_status() == runtime.status,
        runtime.resume_status() == runtime.status,
        fingerprint_of(runtime.pause_status()) == fingerprint_of(runtime.status),
{
}

/// Resuming undoes a pause: the recorder wants frames again exactly where it did before or was
/// paused then, and its status differs from that before at most in its state and its pause.
pub proof fn resume_undoes_pause<T, C, L>(runtime: RuntimeView<T, C, L>)
    requires
        runtime.enabled(),
    ensures
        ({
            let paused = RuntimeView { paused: true, ..runtime }.with_status(
                runtime.pause_status(),
            );
            let resumed = RuntimeView { paused: false, ..paused }.with_status(
                paused.resume_status(),
            );
            &&& !paused.recording()
            &&& paused.status.paused && paused.status.state == ScreenRecordingState::Paused
            &&& resumed.recording()
            &&& resumed == (RuntimeView {
                paused: false,
                status: StatusView {
                    paused: false,
                    state: ScreenRecordingState::Starting,
                    ..runtime.status
                },
                ..runtime
            })
        }),
{
}

/// The capture task captures only while frames are wanted, and always then.
pub proof fn capture_happens_exactly_while_wanted<T, C, L>(
    runtime: RuntimeView<T, C, L>,
    phase: RunPhase,
    event: RunEvent,
)
    requires
        event.answers(phase),
    ensures
        runtime.run_stepped(phase, event).2 is Capture <==> runtime.recording() && phase
            == RunPhase::Waiting && !event->Woken_cancelled,
{
}

/// A capture task that is cancelled stops at its next turn, whatever else is so.
pub proof fn cancelled_task_stops<T, C, L>(runtime: RuntimeView<T, C, L>)
    ensures
        runtime.run_stepped(RunPhase::Waiting, RunEvent::Woken { cancelled: true }) == (
            runtime,
            RunPhase::Over,
            RunActionView::Stop,
        ),
{
}

/// All that the capture task changes in the runtime is when it last looked for old segments;
/// two such times lie at least a minute apart.
pub proof fn prunes_are_a_minute_apart<T, C, L>(
    runtime: RuntimeView<T, C, L>,
    phase: RunPhase,
    event: RunEvent,
)
    requires
        event.answers(phase),
    ensures
        ({
            let (after, _, action) = runtime.run_stepped(phase, event);
            &&& after == (RuntimeView { last_pruned_at: after.last_pruned_at, ..runtime })
            &&& !(action is Prune) ==> after == runtime
            &&& action is Prune ==> after.last_pruned_at is Some
            &&& action is Prune && runtime.last_pruned_at is Some ==> after.last_pruned_at->0
                - runtime.last_pruned_at->0 >= PRUNE_INTERVAL_SECONDS
        }),
{
}

/// An attempt to start recording succeeds only for the owner, and only where no capture task
/// runs; it leaves the owner the owner.
pub proof fn only_the_owner_starts<T, C, L>(
    runtime: RuntimeView<T, C, L>,
    phase: StartPhase,
    event: StartEvent<L>,
)
    requires
        event.answers(phase),
    ensures
        runtime.start_begun().1 is Start ==> runtime.owner_lock is Some && runtime.task is None,
        ({
            let (after, _, action) = runtime.start_stepped(phase, event);
            &&& action is Start ==> after.owner_lock is Some
            &&& runtime.owner_lock is Some ==> after.owner_lock is Some
            &&& after.task == runtime.task
            &&& runtime.guarded() ==> after.guarded()
        }),
{
}

/// Once its tasks are handed out to be stopped, a recorder stays without tasks: no task that
/// waits for the lock tries to start recording, whatever it and the capture task still do, and
/// whatever is published. Only a new request can start it again.
pub proof fn nothing_starts_after_a_stop<T, C, L>(
    runtime: RuntimeView<T, C, L>,
    phase: RunPhase,
    event: RunEvent,
    status: StatusView,
)
    requires
        event.answers(phase),
    ensures
        runtime.tasks_taken().idle(),
        runtime.idle() ==> {
            &&& !runtime.round_tries()
            &&& runtime.retry_over().idle()
            &&& runtime.run_stepped(phase, event).0.idle()
            &&& runtime.with_status(status).idle()
            &&& runtime.lock_taken().idle()
        },
{
}

/// Only the owner cleans up: it purges the storage and removes the lock file before others can
/// take the lock. A process without the lock leaves storage and lock file alone.
pub proof fn only_the_owner_cleans_up<L>(lock: Option<L>)
    ensures
        lock is None ==> release_actions(lock) == Seq::<StopAction>::empty(),
        lock is Some ==> {
            let actions = release_actions(lock);
            &&& actions.contains(StopAction::PurgeStorage)
            &&& actions.contains(StopAction::RemoveLockFile)
            &&& actions.last() == StopAction::ReleaseLock
            &&& !actions.drop_last().contains(StopAction::ReleaseLock)
        },
{
    if lock is Some {
        let actions = release_actions(lock);
        assert(actions[0] == StopAction::PurgeStorage);
        assert(actions[2] == StopAction::RemoveLockFile);
    }
}

/// A process that finds the lock taken reports so, records nothing and waits for the lock,
/// unless it does already; who holds the lock is named where it is known.
pub proof fn contention_is_reported<T, C, L>(runtime: RuntimeView<T, C, L>, owner: Option<u32>)
    ensures
        ({
            let (after, phase, action) = runtime.start_stepped(
                StartPhase::ReadingOwner,
                StartEvent::OwnerRead(owner),
            );
            &&& after.status.state == ScreenRecordingState::Error
            &&& after.status.captured_display_count == 0
            &&& blames_owner(after.status.last_error)
            &&& after.owner_lock == runtime.owner_lock
            &&& action is WaitForLock <==> runtime.lock_retry is None
            &&& action is GiveUp <==> runtime.lock_retry is Some
        }),
{
    owner_message_blames_owner(owner);
}

/// A recorder that is switched on but has no capture task blames another process, and keeps
/// the name of that process where it has it.
pub proof fn idle_recorder_blames_owner<T, C, L>(runtime: RuntimeView<T, C, L>)
    requires
        runtime.task is None,
    ensures
        runtime.enabled_status().state == ScreenRecordingState::Error,
        blames_owner(runtime.enabled_status().last_error),
        blames_owner(runtime.status.last_error) ==> runtime.enabled_status().last_error
            == runtime.status.last_error,
{
    owner_message_blames_owner(None);
}

/// Two statuses agree on the storage path, the platform, the backend, the frame rate and the
/// retention.
pub open spec fn same_recorder(a: StatusView, b: StatusView) -> bool {
    &&& a.storage_path == b.storage_path
    &&& a.platform == b.platform
    &&& a.backend == b.backend
    &&& a.capture_fps == b.capture_fps
    &&& a.retention_hours == b.retention_hours
}

/// No request and no event changes what a status says of the recorder itself.
pub proof fn identity_is_kept<T, C, L>(
    runtime: RuntimeView<T, C, L>,
    start_phase: StartPhase,
    start_event: StartEvent<L>,
    run_phase: RunPhase,
    run_event: RunEvent,
)
    requires
        start_event.answers(start_phase),
        run_event.answers(run_phase),
    ensures
        same_recorder(runtime.pause_status(), runtime.status),
        same_recorder(runtime.resume_status(), runtime.status),
        same_recorder(runtime.enabled_status(), runtime.status),
        same_recorder(
            runtime.start_stepped(start_phase, start_event).0.status,
            runtime.status,
        ),
        runtime.run_stepped(run_phase, run_event).2 matches RunActionView::Publish(status)
            ==> same_recorder(status, runtime.status),
{
}

/// After a failed tick the status shows no displays and the failure's own message; after a
/// tick that succeeded, no error.
pub proof fn tick_result_is_shown<T, C, L>(runtime: RuntimeView<T, C, L>, event: RunEvent)
    requires
        event.answers(RunPhase::Capturing),
        runtime.run_stepped(RunPhase::Capturing, event).2 is Publish,
    ensures
        ({
            let status = runtime.run_stepped(RunPhase::Capturing, event).2->Publish_0;
            &&& event matches RunEvent::Captured(outcome, _) ==> {
                &&& status.state == ScreenRecordingState::Running
                &&& status.captured_display_count == outcome.captured_display_count
                &&& status.last_error is None
            }
            &&& event matches RunEvent::CaptureFailed(failure) ==> {
                &&& status.state != ScreenRecordingState::Running
                &&& status.captured_display_count == 0
                &&& status.last_error == Some(failure@.message)
            }
        }),
{
}

/// A recorder is switched on where both feature and configuration are; it wants frames where it
/// is also not paused. A task that waits for the lock tries only where the recorder is on, no
/// capture task runs and it has not been stopped.
pub proof fn recorder_runs_while_wanted<T, C, L>(runtime: RuntimeView<T, C, L>)
    ensures
        runtime.enabled() <==> runtime.feature_enabled && runtime.config_enabled,
        runtime.recording() <==> runtime.feature_enabled && runtime.config_enabled
            && !runtime.paused,
        runtime.round_tries() <==> runtime.feature_enabled && runtime.config_enabled
            && runtime.task is None && runtime.lock_retry is Some,
        runtime.idle() <==> runtime.task is None && runtime.lock_retry is None,
        runtime.guarded() <==> runtime.task is None || runtime.owner_lock is Some,
{
}

/// Handing out the tasks, the lock or the end of waiting takes just that from the runtime.
pub proof fn handing_out_takes_just_that<T, C, L>(
    runtime: RuntimeView<T, C, L>,
    status: StatusView,
)
    ensures
        ({
            let after = runtime.tasks_taken();
            &&& after.task is None && after.lock_retry is None
            &&& after.cancel is None && after.lock_retry_cancel is None
            &&& after.owner_lock == runtime.owner_lock
            &&& after.status == runtime.status
            &&& after.feature_enabled == runtime.feature_enabled
            &&& after.config_enabled == runtime.config_enabled
            &&& after.paused == runtime.paused
            &&& after.last_pruned_at == runtime.last_pruned_at
        }),
        ({
            let after = runtime.lock_taken();
            &&& after.owner_lock is None
            &&& after == (RuntimeView { owner_lock: after.owner_lock, ..runtime })
        }),
        ({
            let after = runtime.retry_over();
            &&& after.lock_retry is None && after.lock_retry_cancel is None
            &&& after == (RuntimeView {
                lock_retry: after.lock_retry,
                lock_retry_cancel: after.lock_retry_cancel,
                ..runtime
            })
        }),
        ({
            let after = runtime.with_status(status);
            &&& after.status == status
            &&& after == (RuntimeView { status: after.status, ..runtime })
        }),
{
}

/// Pausing and resuming a recorder that is switched on changes what its status says of pause and
/// state, and nothing else in it.
pub proof fn pause_and_resume_are_shown<T, C, L>(runtime: RuntimeView<T, C, L>)
    requires
        runtime.feature_enabled && runtime.config_enabled,
    ensures
        ({
            let status = runtime.pause_status();
            &&& status.paused
            &&& status.state == ScreenRecordingState::Paused
            &&& status == (StatusView {
                paused: status.paused,
                state: status.state,
                ..runtime.status
            })
        }),
        ({
            let status = runtime.resume_status();
            &&& !status.paused
            &&& status.state == ScreenRecordingState::Starting
            &&& status == (StatusView {
                paused: status.paused,
                state: status.state,
                ..runtime.status
            })
        }),
{
}

/// A recorder that has been switched on and captures is starting, or paused; its error and
/// displays stay as they were. One that does not capture is in error and shows no displays; it
/// keeps an error that blames another process, and else blames one.
pub proof fn switching_on_is_shown<T, C, L>(runtime: RuntimeView<T, C, L>)
    ensures
        ({
            let status = runtime.enabled_status();
            &&& status.paused == runtime.paused
            &&& status.newest_frame_at == runtime.status.newest_frame_at
            &&& status.permission == runtime.status.permission
            &&& runtime.task is Some ==> {
                &&& runtime.paused ==> status.state == ScreenRecordingState::Paused
                &&& !runtime.paused ==> status.state == ScreenRecordingState::Starting
                &&& status.last_error == runtime.status.last_error
                &&& status.captured_display_count == runtime.status.captured_display_count
            }
            &&& runtime.task is None ==> {
                &&& status.state == ScreenRecordingState::Error
                &&& status.captured_display_count == 0
                &&& blames_owner(runtime.status.last_error) ==> status.last_error
                    == runtime.status.last_error
                &&& !blames_owner(runtime.status.last_error) ==> status.last_error == Some(
                    "screen recording is owned by another app-server process"@,
                )
            }
        }),
{
}

/// A recorder that becomes the owner holds the lock; its status is starting, or paused where the
/// recorder is, without error, and as it was in all else. So is the runtime.
pub proof fn new_owner_is_starting<T, C, L>(runtime: RuntimeView<T, C, L>, lock: L)
    ensures
        ({
            let after = runtime.owning(lock);
            &&& after.owner_lock == Some(lock)
            &&& runtime.paused ==> after.status.state == ScreenRecordingState::Paused
            &&& !runtime.paused ==> after.status.state == ScreenRecordingState::Starting
            &&& after.status.paused == runtime.paused
            &&& after.status.last_error is None
            &&& after == (RuntimeView {
                owner_lock: after.owner_lock,
                status: StatusView {
                    state: after.status.state,
                    paused: after.status.paused,
                    last_error: after.status.last_error,
                    ..runtime.status
                },
                ..runtime
            })
        }),
{
}

/// Old segments are looked for where that was never done, or last a minute or more ago; the time
/// is remembered then, and only then.
pub proof fn prunes_are_due_each_minute<T, C, L>(runtime: RuntimeView<T, C, L>, seconds: i64)
    ensures
        runtime.last_pruned_at is None ==> runtime.prune_due(seconds),
        runtime.last_pruned_at matches Some(last) ==> (runtime.prune_due(seconds) <==> seconds
            - last >= 60),
        runtime.prune_due(seconds) ==> runtime.pruned(seconds) == (RuntimeView {
            last_pruned_at: Some(seconds),
            ..runtime
        }),
        !runtime.prune_due(seconds) ==> runtime.pruned(seconds) == runtime,
{
}

/// An attempt to start ends at once where a capture task runs, and starts one at once for the
/// owner; any other begins with the directory of the lock file.
pub proof fn attempt_begins_where_it_must<T, C, L>(runtime: RuntimeView<T, C, L>)
    ensures
        runtime.task is Some ==> runtime.start_begun() == (
            StartPhase::Over,
            StartActionView::GiveUp,
        ),
        runtime.task is None && runtime.owner_lock is Some ==> runtime.start_begun() == (
            StartPhase::Over,
            StartActionView::Start,
        ),
        runtime.task is None && runtime.owner_lock is None ==> runtime.start_begun() == (
            StartPhase::CreatingDirectory,
            StartActionView::CreateLockDirectory,
        ),
{
}

/// An attempt that goes well opens the lock file, locks it, sees that it is still the one that
/// the path leads to, writes this process's id into it, and starts to capture: until the id is
/// written the runtime stays as it was, and then this process is the owner.
pub proof fn attempt_leads_to_a_start<T, C, L>(
    runtime: RuntimeView<T, C, L>,
    pid: u32,
    lock: L,
)
    ensures
        runtime.start_stepped(StartPhase::CreatingDirectory, StartEvent::DirectoryCreated) == (
            runtime,
            StartPhase::OpeningLock,
            StartActionView::OpenLock,
        ),
        runtime.start_stepped(StartPhase::OpeningLock, StartEvent::LockOpened) == (
            runtime,
            StartPhase::Locking,
            StartActionView::TryLock,
        ),
        runtime.start_stepped(StartPhase::Locking, StartEvent::Locked) == (
            runtime,
            StartPhase::CheckingLock,
            StartActionView::CheckLock,
        ),
        runtime.start_stepped(StartPhase::CheckingLock, StartEvent::LockReplaced) == (
            runtime,
            StartPhase::OpeningLock,
            StartActionView::OpenLock,
        ),
        runtime.start_stepped(StartPhase::CheckingLock, StartEvent::LockCurrent(pid)) == (
            runtime,
            StartPhase::WritingPid,
            StartActionView::WriteOwnerPid(owner_line(pid)),
        ),
        ({
            let (after, phase, action) = runtime.start_stepped(
                StartPhase::WritingPid,
                StartEvent::PidWritten(lock),
            );
            &&& after.owner_lock == Some(lock)
            &&& after.status.last_error is None
            &&& phase == StartPhase::Over
            &&& action is Start
        }),
{
}

/// An attempt that finds the lock taken reads who has it, blames that process and waits for the
/// lock, unless a task does already.
pub proof fn attempt_waits_for_a_taken_lock<T, C, L>(
    runtime: RuntimeView<T, C, L>,
    owner: Option<u32>,
)
    ensures
        runtime.start_stepped(StartPhase::Locking, StartEvent::Contended) == (
            runtime,
            StartPhase::ReadingOwner,
            StartActionView::ReadOwner,
        ),
        ({
            let (after, phase, action) = runtime.start_stepped(
                StartPhase::ReadingOwner,
                StartEvent::OwnerRead(owner),
            );
            let words = "screen recording is owned by another app-server process"@;
            &&& phase == StartPhase::Over
            &&& runtime.lock_retry is None ==> action is WaitForLock
            &&& runtime.lock_retry is Some ==> action is GiveUp
            &&& after == runtime.with_status(after.status)
            &&& after.status.state == ScreenRecordingState::Error
            &&& after.status.captured_display_count == 0
            &&& owner is None ==> after.status.last_error == Some(words)
            &&& owner matches Some(pid) ==> after.status.last_error == Some(
                words + " (pid "@ + crate::decimal::decimal(pid as nat) + ")"@,
            )
            &&& after.status.newest_frame_at == runtime.status.newest_frame_at
        }),
{
}

/// An attempt that fails ends there, with a message that tells what could not be done and why;
/// nothing but the status changes.
pub proof fn failed_attempt_says_why<T, C, L>(
    runtime: RuntimeView<T, C, L>,
    phase: StartPhase,
    message: String,
)
    ensures
        ({
            let (after, next, action) = runtime.start_stepped(phase, StartEvent::Failed(message));
            let words = match phase {
                StartPhase::CreatingDirectory => {
                    "failed to create screen recording lock directory: "@
                },
                StartPhase::OpeningLock => "failed to open screen recording lock file: "@,
                StartPhase::WritingPid => "failed to write screen recording owner pid: "@,
                _ => "failed to lock screen recording owner file: "@,
            };
            &&& next == StartPhase::Over
            &&& action is GiveUp
            &&& after == runtime.with_status(
                StatusView {
                    state: ScreenRecordingState::Error,
                    last_error: Some(words + message@),
                    ..runtime.status
                },
            )
        }),
{
}

/// The capture task looks for old segments before its first wait where that is due, and then
/// waits; it waits again after each report.
pub proof fn capture_task_waits_between_ticks<T, C, L>(
    runtime: RuntimeView<T, C, L>,
    at: CaptureTime,
)
    ensures
        ({
            let (after, phase, action) = runtime.run_stepped(
                RunPhase::Starting,
                RunEvent::Started(at),
            );
            &&& runtime.prune_due(at.seconds()) ==> phase == RunPhase::PruningFirst && action
                is Prune && after.last_pruned_at == Some(at.seconds())
            &&& !runtime.prune_due(at.seconds()) ==> (after, phase, action) == (
                runtime,
                RunPhase::Waiting,
                RunActionView::Wait,
            )
        }),
        runtime.run_stepped(RunPhase::PruningFirst, RunEvent::Pruned) == (
            runtime,
            RunPhase::Waiting,
            RunActionView::Wait,
        ),
        runtime.run_stepped(RunPhase::Publishing, RunEvent::Published) == (
            runtime,
            RunPhase::Waiting,
            RunActionView::Wait,
        ),
{
}

/// When its wait is over the capture task stops where it was cancelled; else it captures while
/// the recorder is on and not paused, and waits on where it is not.
pub proof fn woken_task_captures_or_waits<T, C, L>(runtime: RuntimeView<T, C, L>, cancelled: bool)
    ensures
        ({
            let wanted = runtime.feature_enabled && runtime.config_enabled && !runtime.paused;
            let (after, phase, action) = runtime.run_stepped(
                RunPhase::Waiting,
                RunEvent::Woken { cancelled },
            );
            &&& after == runtime
            &&& cancelled ==> phase == RunPhase::Over && action is Stop
            &&& !cancelled && wanted ==> phase == RunPhase::Capturing && action is Capture
            &&& !cancelled && !wanted ==> phase == RunPhase::Waiting && action is Wait
        }),
{
}

/// The outcome of a tick is published, at once or once old segments were looked for: the status
/// is running, with the tick's displays and without error. Its newest frame is the tick's own,
/// and stays as it was only where the tick captured no display.
pub proof fn tick_outcome_is_published<T, C, L>(
    runtime: RuntimeView<T, C, L>,
    outcome: CaptureTickOutcome,
    at: CaptureTime,
)
    ensures
        ({
            let (after, phase, action) = runtime.run_stepped(
                RunPhase::Capturing,
                RunEvent::Captured(outcome, at),
            );
            let (_, published, later) = after.run_stepped(
                RunPhase::PruningAfter(outcome),
                RunEvent::Pruned,
            );
            let report = if runtime.prune_due(at.seconds()) {
                later
            } else {
                action
            };
            &&& runtime.prune_due(at.seconds()) ==> phase == RunPhase::PruningAfter(outcome)
                && action is Prune && published == RunPhase::Publishing
            &&& !runtime.prune_due(at.seconds()) ==> phase == RunPhase::Publishing
            &&& report matches RunActionView::Publish(status)
            &&& status.state == ScreenRecordingState::Running
            &&& !status.paused
            &&& status.captured_display_count == outcome.captured_display_count
            &&& status.last_error is None
            &&& outcome.newest_frame_at is Some ==> status.newest_frame_at
                == outcome.newest_frame_at
            &&& outcome.newest_frame_at is None ==> status.newest_frame_at
                == runtime.status.newest_frame_at
        }),
{
}

/// A tick that failed, or did not end in an orderly way, is published with its message; nothing
/// else of the runtime changes.
pub proof fn failed_tick_is_published<T, C, L>(
    runtime: RuntimeView<T, C, L>,
    failure: CaptureBackendFailure,
    message: String,
)
    ensures
        ({
            let (after, phase, action) = runtime.run_stepped(
                RunPhase::Capturing,
                RunEvent::CaptureFailed(failure),
            );
            &&& after == runtime
            &&& phase == RunPhase::Publishing
            &&& action matches RunActionView::Publish(status)
            &&& status.last_error == Some(failure@.message)
            &&& status.permission == failure@.permission
            &&& status.captured_display_count == 0
            &&& status.newest_frame_at == runtime.status.newest_frame_at
            &&& failure@.kind is Unsupported ==> status.state == ScreenRecordingState::Unsupported
            &&& !(failure@.kind is Unsupported) ==> status.state == ScreenRecordingState::Error
        }),
        runtime.run_stepped(RunPhase::Capturing, RunEvent::WorkerFailed(message)) == (
            runtime,
            RunPhase::Publishing,
            RunActionView::Publish(
                StatusView {
                    state: ScreenRecordingState::Error,
                    last_error: Some("screen recording worker failed: "@ + message@),
                    ..runtime.status
                },
            ),
        ),
{
}

/// An owner that stops purges its storage and forgets its streams, then removes the lock file,
/// and lets go of the lock last. An action that needs a handle is taken where there is one.
pub proof fn owner_cleans_up_in_order<L>(lock: L, action: StopAction)
    ensures
        release_actions(Some(lock)) == seq![
            StopAction::PurgeStorage,
            StopAction::ForgetStreams,
            StopAction::RemoveLockFile,
            StopAction::ReleaseLock,
        ],
        release_actions(None::<L>).len() == 0,
        if_some(Some(lock), action) == seq![action],
        if_some(None::<L>, action).len() == 0,
{
}

/// The views of a runtime and of actions show all that they hold.
pub proof fn views_show_every_field<T, C, L>(
    runtime: RuntimeState<T, C, L>,
    start: StartAction,
    run: RunAction,
)
    ensures
        runtime@.feature_enabled == runtime.feature_enabled,
        runtime@.config_enabled == runtime.config_enabled,
        runtime@.paused == runtime.paused,
        runtime@.status == runtime.status@,
        runtime@.task == runtime.task,
        runtime@.lock_retry == runtime.lock_retry,
        runtime@.lock_retry_cancel == runtime.lock_retry_cancel,
        runtime@.cancel == runtime.cancel,
        runtime@.owner_lock == runtime.owner_lock,
        runtime@.last_pruned_at == runtime.last_pruned_at,
        start matches StartAction::WriteOwnerPid(contents) ==> start@
            == StartActionView::WriteOwnerPid(contents@),
        start is CreateLockDirectory <==> start@ is CreateLockDirectory,
        start is OpenLock <==> start@ is OpenLock,
        start is TryLock <==> start@ is TryLock,
        start is CheckLock <==> start@ is CheckLock,
        start is ReadOwner <==> start@ is ReadOwner,
        start is Start <==> start@ is Start,
        start is GiveUp <==> start@ is GiveUp,
        start is WaitForLock <==> start@ is WaitForLock,
        run matches RunAction::Publish(status) ==> run@ == RunActionView::Publish(status@),
        run is Prune <==> run@ is Prune,
        run is Wait <==> run@ is Wait,
        run is Capture <==> run@ is Capture,
        run is Stop <==> run@ is Stop,
{
}

} // verus!
