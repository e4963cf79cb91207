//! How the recorder's status changes, and when clients hear of it.
use crate::backend::{CaptureBackendFailure, CaptureBackendFailureKind, FailureView};
use crate::decimal::{decimal, to_decimal};
use crate::protocol::{
    ScreenRecordingBackend, ScreenRecordingPermission, ScreenRecordingPlatform,
    ScreenRecordingState, ScreenRecordingStatus, StatusView,
};
use crate::segments::{CAPTURE_FPS, RETENTION_HOURS};
use crate::text::{copy_opt_text, opt_text, owned, same_opt_text, starts_with, text_starts_with};
use crate::tick::CaptureTickOutcome;
use vstd::prelude::*;

verus! {

pub const SCREEN_RECORDING_FEATURE_DISABLED_MESSAGE: &'static str =
    "screen recording feature is disabled";

pub const SCREEN_RECORDING_OWNED_BY_ANOTHER_PROCESS_MESSAGE: &'static str =
    "screen recording is owned by another app-server process";

pub const WORKER_FAILED_PREFIX: &'static str = "screen recording worker failed: ";

/// The status of a recorder that has just been switched on or off.
pub open spec fn availability(
    feature_enabled: bool,
    config_enabled: bool,
    platform: ScreenRecordingPlatform,
    backend: ScreenRecordingBackend,
    storage_path: Seq<char>,
) -> StatusView {
    StatusView {
        state: if feature_enabled && config_enabled {
            ScreenRecordingState::Starting
        } else {
            ScreenRecordingState::Disabled
        },
        paused: false,
        platform,
        backend,
        permission: ScreenRecordingPermission::Unknown,
        capture_fps: CAPTURE_FPS,
        retention_hours: RETENTION_HOURS,
        storage_path,
        captured_display_count: 0,
        newest_frame_at: None,
        last_error: if !feature_enabled && config_enabled {
            Some(SCREEN_RECORDING_FEATURE_DISABLED_MESSAGE@)
        } else {
            None
        },
    }
}

/// The status of a recorder that has just been switched on or off. A configuration that asks
/// for it while the feature is off is told so.
pub fn status_for_availability(
    feature_enabled: bool,
    config_enabled: bool,
    platform: ScreenRecordingPlatform,
    backend: ScreenRecordingBackend,
    storage_path: String,
) -> (status: ScreenRecordingStatus)
    ensures
        status@ == availability(
            feature_enabled,
            config_enabled,
            platform,
            backend,
            storage_path@,
        ),
{
    ScreenRecordingStatus {
        state: if feature_enabled && config_enabled {
            ScreenRecordingState::Starting
        } else {
            ScreenRecordingState::Disabled
        },
        paused: false,
        platform,
        backend,
        permission: ScreenRecordingPermission::Unknown,
        capture_fps: CAPTURE_FPS,
        retention_hours: RETENTION_HOURS,
        storage_path,
        captured_display_count: 0,
        newest_frame_at: None,
        last_error: if !feature_enabled && config_enabled {
            Some(owned(SCREEN_RECORDING_FEATURE_DISABLED_MESSAGE))
        } else {
            None
        },
    }
}

/// The part of a status whose change clients are told of.
#[derive(Debug)]
pub struct StatusFingerprint {
    pub state: ScreenRecordingState,
    pub paused: bool,
    pub permission: ScreenRecordingPermission,
    pub captured_display_count: u32,
    pub last_error: Option<String>,
}

/// A fingerprint with its text as characters.
#[verifier::ext_equal]
pub struct FingerprintView {
    pub state: ScreenRecordingState,
    pub paused: bool,
    pub permission: ScreenRecordingPermission,
    pub captured_display_count: u32,
    pub last_error: Option<Seq<char>>,
}

impl View for StatusFingerprint {
    type V = FingerprintView;

    open spec fn view(&self) -> FingerprintView {
        FingerprintView {
            state: self.state,
            paused: self.paused,
            permission: self.permission,
            captured_display_count: self.captured_display_count,
            last_error: opt_text(self.last_error),
        }
    }
}

/// The fingerprint of a status.
pub open spec fn fingerprint_of(status: StatusView) -> FingerprintView {
    FingerprintView {
        state: status.state,
        paused: status.paused,
        permission: status.permission,
        captured_display_count: status.captured_display_count,
        last_error: status.last_error,
    }
}

pub fn fingerprint(status: &ScreenRecordingStatus) -> (print: StatusFingerprint)
    ensures
        print@ == fingerprint_of(status@),
{
    StatusFingerprint {
        state: status.state,
        paused: status.paused,
        permission: status.permission,
        captured_display_count: status.captured_display_count,
        last_error: copy_opt_text(&status.last_error),
    }
}

impl StatusFingerprint {
    /// Whether two fingerprints are equal.
    pub fn same(&self, other: &StatusFingerprint) -> (same: bool)
        ensures
            same == (self@ == other@),
    {
        self.state == other.state && self.paused == other.paused && self.permission
            == other.permission && self.captured_display_count == other.captured_display_count
            && same_opt_text(&self.last_error, &other.last_error)
    }
}

/// The status after a tick.
pub open spec fn running(status: StatusView, outcome: CaptureTickOutcome) -> StatusView {
    StatusView {
        state: ScreenRecordingState::Running,
        paused: false,
        permission: ScreenRecordingPermission::Granted,
        captured_display_count: outcome.captured_display_count,
        newest_frame_at: match outcome.newest_frame_at {
            Some(seconds) => Some(seconds),
            None => status.newest_frame_at,
        },
        last_error: None,
        ..status
    }
}

/// Brings a status up to date after a tick.
pub fn apply_tick_outcome(status: &mut ScreenRecordingStatus, outcome: &CaptureTickOutcome)
    ensures
        final(status)@ == running(old(status)@, *outcome),
        outcome.newest_frame_at is Some ==> final(status)@.newest_frame_at
            == outcome.newest_frame_at,
        outcome.newest_frame_at is None ==> final(status)@.newest_frame_at
            == old(status)@.newest_frame_at,
{
    status.state = ScreenRecordingState::Running;
    status.paused = false;
    status.permission = ScreenRecordingPermission::Granted;
    status.captured_display_count = outcome.captured_display_count;
    if outcome.newest_frame_at.is_some() {
        status.newest_frame_at = outcome.newest_frame_at;
    }
    status.last_error = None;
}

/// The status after a tick that failed.
pub open spec fn capture_failed(status: StatusView, failure: FailureView) -> StatusView {
    StatusView {
        state: if failure.kind == CaptureBackendFailureKind::Unsupported {
            ScreenRecordingState::Unsupported
        } else {
            ScreenRecordingState::Error
        },
        permission: failure.permission,
        captured_display_count: 0,
        last_error: Some(failure.message),
        ..status
    }
}

/// Brings a status up to date after a tick that failed.
pub fn apply_backend_error_status(
    status: &mut ScreenRecordingStatus,
    error: &CaptureBackendFailure,
)
    ensures
        final(status)@ == capture_failed(old(status)@, error@),
{
    status.captured_display_count = 0;
    status.last_error = Some(owned(error.message.as_str()));
    status.permission = error.permission;
    status.state = match error.kind {
        CaptureBackendFailureKind::Unsupported => ScreenRecordingState::Unsupported,
        CaptureBackendFailureKind::PermissionRequired => ScreenRecordingState::Error,
        CaptureBackendFailureKind::Other => ScreenRecordingState::Error,
    };
}

/// The status after an error that says nothing about displays or permissions.
pub open spec fn in_error(status: StatusView, message: Seq<char>) -> StatusView {
    StatusView { state: ScreenRecordingState::Error, last_error: Some(message), ..status }
}

/// Brings a status up to date after an error with the message `prefix` and `detail`.
pub fn apply_error(status: &mut ScreenRecordingStatus, prefix: &str, detail: &str)
    ensures
        final(status)@ == in_error(old(status)@, prefix@ + detail@),
{
    status.state = ScreenRecordingState::Error;
    status.last_error = Some(owned(prefix).concat(detail));
}

/// What is said of another process that records.
pub open spec fn owner_message(owner: Option<u32>) -> Seq<char> {
    match owner {
        Some(pid) => SCREEN_RECORDING_OWNED_BY_ANOTHER_PROCESS_MESSAGE@ + " (pid "@ + decimal(
            pid as nat,
        ) + ")"@,
        None => SCREEN_RECORDING_OWNED_BY_ANOTHER_PROCESS_MESSAGE@,
    }
}

/// The status while another process records.
pub open spec fn contended(status: StatusView, owner: Option<u32>) -> StatusView {
    StatusView { captured_display_count: 0, ..in_error(status, owner_message(owner)) }
}

/// Brings a status up to date while another process records; `owner` is its id where known.
pub fn apply_contention(status: &mut ScreenRecordingStatus, owner: Option<u32>)
    ensures
        final(status)@ == contended(old(status)@, owner),
{
    status.state = ScreenRecordingState::Error;
    status.last_error = Some(
        match owner {
            Some(pid) => owned(SCREEN_RECORDING_OWNED_BY_ANOTHER_PROCESS_MESSAGE).concat(
                " (pid ",
            ).concat(to_decimal(pid as u64).as_str()).concat(")"),
            None => owned(SCREEN_RECORDING_OWNED_BY_ANOTHER_PROCESS_MESSAGE),
        },
    );
    status.captured_display_count = 0;
}

/// The error blames another process that records.
pub open spec fn blames_owner(error: Option<Seq<char>>) -> bool {
    match error {
        Some(error) => starts_with(error, SCREEN_RECORDING_OWNED_BY_ANOTHER_PROCESS_MESSAGE@),
        None => false,
    }
}

pub fn blames_another_process(error: &Option<String>) -> (blames: bool)
    ensures
        blames == blames_owner(opt_text(*error)),
{
    match error {
        Some(error) => text_starts_with(
            error.as_str(),
            SCREEN_RECORDING_OWNED_BY_ANOTHER_PROCESS_MESSAGE,
        ),
        None => false,
    }
}

// ---------------------------------------------------------------------------------------
// Laws
// ---------------------------------------------------------------------------------------

/// After a tick the recorder runs: it is permitted, not paused and without error, and shows the
/// tick's displays. Its newest frame is the tick's own, where it has one; a tick without frames
/// leaves the newest frame as it was. All else stays.
pub proof fn tick_brings_the_status_up_to_date(status: StatusView, outcome: CaptureTickOutcome)
    ensures
        ({
            let after = running(status, outcome);
            &&& after.state == ScreenRecordingState::Running
            &&& after.permission == ScreenRecordingPermission::Granted
            &&& !after.paused
            &&& after.last_error is None
            &&& after.captured_display_count == outcome.captured_display_count
            &&& outcome.newest_frame_at is Some ==> after.newest_frame_at
                == outcome.newest_frame_at
            &&& outcome.newest_frame_at is None ==> after.newest_frame_at
                == status.newest_frame_at
            &&& after.platform == status.platform
            &&& after.backend == status.backend
            &&& after.capture_fps == status.capture_fps
            &&& after.retention_hours == status.retention_hours
            &&& after.storage_path == status.storage_path
        }),
{
}

/// Of two ticks, the status shows the displays of the later one, and its newest frame where it
/// captured any.
pub proof fn later_tick_prevails(
    status: StatusView,
    first: CaptureTickOutcome,
    second: CaptureTickOutcome,
)
    ensures
        ({
            let after = running(running(status, first), second);
            &&& after.captured_display_count == second.captured_display_count
            &&& second.newest_frame_at is Some ==> after == running(status, second)
            &&& second.newest_frame_at is None ==> after.newest_frame_at == running(
                status,
                first,
            ).newest_frame_at
        }),
{
}

/// After a failed tick the recorder shows no displays, and the failure's message and permission
/// as they are. It is unsupported exactly where the failure says so, and in error otherwise. All
/// else stays, the newest frame among it.
pub proof fn failure_is_shown(status: StatusView, failure: FailureView)
    ensures
        ({
            let after = capture_failed(status, failure);
            &&& failure.kind is Unsupported ==> after.state == ScreenRecordingState::Unsupported
            &&& !(failure.kind is Unsupported) ==> after.state == ScreenRecordingState::Error
            &&& after.permission == failure.permission
            &&& after.captured_display_count == 0
            &&& after.last_error == Some(failure.message)
            &&& after.newest_frame_at == status.newest_frame_at
            &&& after.paused == status.paused
            &&& after.platform == status.platform
            &&& after.backend == status.backend
            &&& after.capture_fps == status.capture_fps
            &&& after.retention_hours == status.retention_hours
            &&& after.storage_path == status.storage_path
        }),
{
}

/// After any other error the status is in error, with the error's message, and as it was in all
/// else. Where the error is that another process records, no displays are shown any more.
pub proof fn error_is_shown(status: StatusView, message: Seq<char>, owner: Option<u32>)
    ensures
        in_error(status, message).state == ScreenRecordingState::Error,
        in_error(status, message).last_error == Some(message),
        in_error(status, message) == (StatusView {
            state: in_error(status, message).state,
            last_error: in_error(status, message).last_error,
            ..status
        }),
        contended(status, owner).state == ScreenRecordingState::Error,
        contended(status, owner).last_error is Some,
        contended(status, owner).captured_display_count == 0,
        contended(status, owner) == (StatusView {
            state: contended(status, owner).state,
            last_error: contended(status, owner).last_error,
            captured_display_count: contended(status, owner).captured_display_count,
            ..status
        }),
{
}

/// Who finds another process recording says so, and names that process where it is known.
pub proof fn owner_is_named(status: StatusView, pid: u32)
    ensures
        contended(status, None).last_error == Some(
            "screen recording is owned by another app-server process"@,
        ),
        contended(status, Some(pid)).last_error == Some(
            "screen recording is owned by another app-server process"@ + " (pid "@ + decimal(
                pid as nat,
            ) + ")"@,
        ),
{
}

/// An error blames another process exactly where its message begins with the words for that.
pub proof fn blame_is_recognized_by_its_beginning(error: Seq<char>, rest: Seq<char>)
    ensures
        !blames_owner(None),
        blames_owner(Some("screen recording is owned by another app-server process"@ + rest)),
        blames_owner(Some(error)) ==> exists|tail: Seq<char>|
            error == "screen recording is owned by another app-server process"@ + tail,
{
    let blame = "screen recording is owned by another app-server process"@;
    assert((blame + rest).take(blame.len() as int) =~= blame);
    if blames_owner(Some(error)) {
        assert(error =~= blame + error.skip(blame.len() as int));
    }
}

/// Two statuses have one fingerprint exactly where they agree in state, pause, permission,
/// number of displays and error: when the newest frame was captured is no news.
pub proof fn fingerprint_tells_what_is_news(a: StatusView, b: StatusView)
    ensures
        fingerprint_of(a) == fingerprint_of(b) <==> {
            &&& a.state == b.state
            &&& a.paused == b.paused
            &&& a.permission == b.permission
            &&& a.captured_display_count == b.captured_display_count
            &&& a.last_error == b.last_error
        },
{
}

/// A recorder that is switched on or off begins anew: with no displays, no frames, no pause and
/// no known permission. It is starting where both the feature and the configuration are on, and
/// says that the feature is off where only the configuration asks for it.
pub proof fn availability_begins_anew(
    feature_enabled: bool,
    config_enabled: bool,
    platform: ScreenRecordingPlatform,
    backend: ScreenRecordingBackend,
    storage_path: Seq<char>,
)
    ensures
        ({
            let status = availability(
                feature_enabled,
                config_enabled,
                platform,
                backend,
                storage_path,
            );
            &&& feature_enabled && config_enabled ==> status.state
                == ScreenRecordingState::Starting
            &&& !feature_enabled || !config_enabled ==> status.state
                == ScreenRecordingState::Disabled
            &&& !status.paused
            &&& status.permission == ScreenRecordingPermission::Unknown
            &&& status.captured_display_count == 0
            &&& status.newest_frame_at is None
            &&& status.platform == platform
            &&& status.backend == backend
            &&& status.storage_path == storage_path
            &&& status.capture_fps == 1
            &&& status.retention_hours == 6
            &&& config_enabled && !feature_enabled ==> status.last_error == Some(
                "screen recording feature is disabled"@,
            )
            &&& feature_enabled || !config_enabled ==> status.last_error is None
        }),
{
}

/// The message about another process that records is recognized again, with and without its
/// id.
pub proof fn owner_message_blames_owner(owner: Option<u32>)
    ensures
        blames_owner(Some(owner_message(owner))),
{
    let message = owner_message(owner);
    let blame = SCREEN_RECORDING_OWNED_BY_ANOTHER_PROCESS_MESSAGE@;
    assert(message.take(blame.len() as int) == blame);
}

/// A recorder that is switched off says that the feature is, exactly where it is and was asked
/// for.
pub proof fn disabled_feature_is_reported_when_asked_for(
    feature_enabled: bool,
    config_enabled: bool,
    platform: ScreenRecordingPlatform,
    backend: ScreenRecordingBackend,
    storage_path: Seq<char>,
)
    ensures
        ({
            let status = availability(
                feature_enabled,
                config_enabled,
                platform,
                backend,
                storage_path,
            );
            &&& status.state is Disabled <==> !feature_enabled || !config_enabled
            &&& status.last_error is Some <==> config_enabled && !feature_enabled
        }),
{
}

/// The view of a fingerprint shows every field of it.
pub proof fn fingerprint_view_shows_every_field(print: StatusFingerprint)
    ensures
        print@.state == print.state,
        print@.paused == print.paused,
        print@.permission == print.permission,
        print@.captured_display_count == print.captured_display_count,
        print.last_error matches Some(error) ==> print@.last_error == Some(error@),
        print.last_error is None ==> print@.last_error is None,
{
}

} // verus!
