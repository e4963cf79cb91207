//! What clients are told about the recorder.
use crate::text::{copy_opt_text, opt_text, owned};
use vstd::prelude::*;

verus! {

#[derive(Debug, Clone, Copy, PartialEq, Eq, Structural)]
pub enum ScreenRecordingState {
    Disabled,
    Starting,
    Running,
    Paused,
    Unsupported,
    Error,
}

#[derive(Debug, Clone, Copy, PartialEq, Eq, Structural)]
pub enum ScreenRecordingPermission {
    Unknown,
    Granted,
    Required,
}

#[derive(Debug, Clone, Copy, PartialEq, Eq, Structural)]
pub enum ScreenRecordingPlatform {
    Macos,
    Windows,
    Linux,
}

#[derive(Debug, Clone, Copy, PartialEq, Eq, Structural)]
pub enum ScreenRecordingBackend {
    Xcap,
}

/// The recorder's status as clients see it.
#[derive(Debug)]
pub struct ScreenRecordingStatus {
    pub state: ScreenRecordingState,
    pub paused: bool,
    pub platform: ScreenRecordingPlatform,
    pub backend: ScreenRecordingBackend,
    pub permission: ScreenRecordingPermission,
    pub capture_fps: u32,
    pub retention_hours: u32,
    pub storage_path: String,
    pub captured_display_count: u32,
    pub newest_frame_at: Option<i64>,
    pub last_error: Option<String>,
}

/// A status with its texts as characters.
#[verifier::ext_equal]
pub struct StatusView {
    pub state: ScreenRecordingState,
    pub paused: bool,
    pub platform: ScreenRecordingPlatform,
    pub backend: ScreenRecordingBackend,
    pub permission: ScreenRecordingPermission,
    pub capture_fps: u32,
    pub retention_hours: u32,
    pub storage_path: Seq<char>,
    pub captured_display_count: u32,
    pub newest_frame_at: Option<i64>,
    pub last_error: Option<Seq<char>>,
}

impl View for ScreenRecordingStatus {
    type V = StatusView;

    open spec fn view(&self) -> StatusView {
        StatusView {
            state: self.state,
            paused: self.paused,
            platform: self.platform,
            backend: self.backend,
            permission: self.permission,
            capture_fps: self.capture_fps,
            retention_hours: self.retention_hours,
            storage_path: self.storage_path@,
            captured_display_count: self.captured_display_count,
            newest_frame_at: self.newest_frame_at,
            last_error: opt_text(self.last_error),
        }
    }
}

impl Clone for ScreenRecordingStatus {
    fn clone(&self) -> (copy: Self)
        ensures
            copy@ == self@,
    {
        ScreenRecordingStatus {
            state: self.state,
            paused: self.paused,
            platform: self.platform,
            backend: self.backend,
            permission: self.permission,
            capture_fps: self.capture_fps,
            retention_hours: self.retention_hours,
            storage_path: owned(self.storage_path.as_str()),
            captured_display_count: self.captured_display_count,
            newest_frame_at: self.newest_frame_at,
            last_error: copy_opt_text(&self.last_error),
        }
    }
}

/// The view of a status shows every field of it.
pub proof fn status_view_shows_every_field(status: ScreenRecordingStatus)
    ensures
        status@.state == status.state,
        status@.paused == status.paused,
        status@.platform == status.platform,
        status@.backend == status.backend,
        status@.permission == status.permission,
        status@.capture_fps == status.capture_fps,
        status@.retention_hours == status.retention_hours,
        status@.storage_path == status.storage_path@,
        status@.captured_display_count == status.captured_display_count,
        status@.newest_frame_at == status.newest_frame_at,
        status.last_error matches Some(error) ==> status@.last_error == Some(error@),
        status.last_error is None ==> status@.last_error is None,
{
}

} // verus!
