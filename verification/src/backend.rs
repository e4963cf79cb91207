//! Where captured displays come from, and how a failed capture is reported.
use crate::decimal::{decimal, to_decimal};
use crate::frame::{byte_count, pattern_pixel, pixel_at, Frame};
use crate::protocol::{
    ScreenRecordingBackend, ScreenRecordingPermission, ScreenRecordingPlatform,
};
use crate::text::{ascii_lowercase, contains, owned, text_contains, to_ascii_lowercase};
use vstd::prelude::*;

verus! {

/// The environment variable that asks for the fake backend.
pub const FAKE_BACKEND_ENV_VAR: &'static str = "CODEX_SCREEN_RECORDING_FAKE";

/// What a host without screen capture is told.
pub const HOST_UNSUPPORTED_MESSAGE: &'static str = "screen capture is not supported on this host";

/// What every platform but macOS is told.
pub const PLATFORM_UNSUPPORTED_MESSAGE: &'static str =
    "screen capture is currently supported only on macOS";

#[derive(Debug, Clone, Copy, PartialEq, Eq, Structural)]
pub struct DisplayGeometry {
    pub width: u32,
    pub height: u32,
    pub rotation_millidegrees: i32,
    pub scale_factor_milli: u32,
}

/// A display together with what it shows.
#[derive(Debug)]
pub struct CapturedDisplay {
    pub id: String,
    pub name: String,
    pub geometry: DisplayGeometry,
    pub frame: Frame,
}

/// A captured display with its texts as characters and its frame as bytes.
#[verifier::ext_equal]
pub struct DisplayView {
    pub id: Seq<char>,
    pub name: Seq<char>,
    pub geometry: DisplayGeometry,
    pub frame_width: u32,
    pub frame_height: u32,
    pub pixels: Seq<u8>,
}

impl View for CapturedDisplay {
    type V = DisplayView;

    open spec fn view(&self) -> DisplayView {
        DisplayView {
            id: self.id@,
            name: self.name@,
            geometry: self.geometry,
            frame_width: self.frame.spec_width(),
            frame_height: self.frame.spec_height(),
            pixels: self.frame.pixels(),
        }
    }
}

impl Clone for CapturedDisplay {
    fn clone(&self) -> (copy: Self)
        ensures
            copy@ == self@,
    {
        CapturedDisplay {
            id: owned(self.id.as_str()),
            name: owned(self.name.as_str()),
            geometry: self.geometry,
            frame: self.frame.clone(),
        }
    }
}

#[derive(Debug, Clone, Copy, PartialEq, Eq, Structural)]
pub enum CaptureBackendFailureKind {
    Unsupported,
    PermissionRequired,
    Other,
}

#[derive(Debug)]
pub struct CaptureBackendFailure {
    pub kind: CaptureBackendFailureKind,
    pub permission: ScreenRecordingPermission,
    pub message: String,
}

/// A failure with its message as characters.
#[verifier::ext_equal]
pub struct FailureView {
    pub kind: CaptureBackendFailureKind,
    pub permission: ScreenRecordingPermission,
    pub message: Seq<char>,
}

impl View for CaptureBackendFailure {
    type V = FailureView;

    open spec fn view(&self) -> FailureView {
        FailureView { kind: self.kind, permission: self.permission, message: self.message@ }
    }
}

impl Clone for CaptureBackendFailure {
    fn clone(&self) -> (copy: Self)
        ensures
            copy@ == self@,
    {
        CaptureBackendFailure {
            kind: self.kind,
            permission: self.permission,
            message: owned(self.message.as_str()),
        }
    }
}

pub open spec fn unsupported_failure(message: Seq<char>) -> FailureView {
    FailureView {
        kind: CaptureBackendFailureKind::Unsupported,
        permission: ScreenRecordingPermission::Unknown,
        message,
    }
}

pub open spec fn permission_failure(message: Seq<char>) -> FailureView {
    FailureView {
        kind: CaptureBackendFailureKind::PermissionRequired,
        permission: ScreenRecordingPermission::Required,
        message,
    }
}

pub open spec fn other_failure(message: Seq<char>) -> FailureView {
    FailureView {
        kind: CaptureBackendFailureKind::Other,
        permission: ScreenRecordingPermission::Unknown,
        message,
    }
}

impl CaptureBackendFailure {
    pub fn unsupported(message: String) -> (failure: Self)
        ensures
            failure@ == unsupported_failure(message@),
    {
        CaptureBackendFailure {
            kind: CaptureBackendFailureKind::Unsupported,
            permission: ScreenRecordingPermission::Unknown,
            message,
        }
    }

    pub fn permission_required(message: String) -> (failure: Self)
        ensures
            failure@ == permission_failure(message@),
    {
        CaptureBackendFailure {
            kind: CaptureBackendFailureKind::PermissionRequired,
            permission: ScreenRecordingPermission::Required,
            message,
        }
    }

    pub fn other(message: String) -> (failure: Self)
        ensures
            failure@ == other_failure(message@),
    {
        CaptureBackendFailure {
            kind: CaptureBackendFailureKind::Other,
            permission: ScreenRecordingPermission::Unknown,
            message,
        }
    }
}

/// A source of captured displays.
pub trait CaptureBackend {
    fn kind(&self) -> ScreenRecordingBackend;

    fn platform(&self) -> ScreenRecordingPlatform;

    fn capture_displays(&self) -> Result<Vec<CapturedDisplay>, CaptureBackendFailure>;
}

/// Which backend captures displays.
#[derive(Debug, Clone, Copy, PartialEq, Eq, Structural)]
pub enum BackendChoice {
    Fake,
    Xcap,
    Unsupported,
}

/// The backend of a platform, unless the fake one is asked for: macOS alone can be captured.
pub fn default_capture_backend(fake_requested: bool, platform: ScreenRecordingPlatform) -> (choice:
    BackendChoice)
    ensures
        choice == (if fake_requested {
            BackendChoice::Fake
        } else if platform == ScreenRecordingPlatform::Macos {
            BackendChoice::Xcap
        } else {
            BackendChoice::Unsupported
        }),
{
    if fake_requested {
        return BackendChoice::Fake;
    }
    match platform {
        ScreenRecordingPlatform::Macos => BackendChoice::Xcap,
        _ => BackendChoice::Unsupported,
    }
}

/// The backend of a platform on which screens cannot be captured.
pub struct UnsupportedCaptureBackend {
    pub platform: ScreenRecordingPlatform,
}

impl CaptureBackend for UnsupportedCaptureBackend {
    fn kind(&self) -> (kind: ScreenRecordingBackend)
        ensures
            kind == ScreenRecordingBackend::Xcap,
    {
        ScreenRecordingBackend::Xcap
    }

    fn platform(&self) -> (platform: ScreenRecordingPlatform)
        ensures
            platform == self.platform,
    {
        self.platform
    }

    fn capture_displays(&self) -> (result: Result<Vec<CapturedDisplay>, CaptureBackendFailure>)
        ensures
            result matches Err(failure) && failure@ == unsupported_failure(
                PLATFORM_UNSUPPORTED_MESSAGE@,
            ),
    {
        Err(CaptureBackendFailure::unsupported(owned(PLATFORM_UNSUPPORTED_MESSAGE)))
    }
}

/// A backend with one display that shows a fixed pattern.
pub struct FakeCaptureBackend {
    pub platform: ScreenRecordingPlatform,
}

/// What the fake display is and shows.
pub open spec fn is_fake_display(display: CapturedDisplay) -> bool {
    &&& display.id@ == "fake-display-1"@
    &&& display.name@ == "Fake Display"@
    &&& display.geometry == (DisplayGeometry {
        width: 64,
        height: 48,
        rotation_millidegrees: 0,
        scale_factor_milli: 1000,
    })
    &&& display.frame.spec_width() == 64
    &&& display.frame.spec_height() == 48
    &&& display.frame.pixels().len() == byte_count(64, 48, 4)
    &&& forall|x: int, y: int|
        #![trigger pixel_at(display.frame.pixels(), 64, x, y)]
        0 <= x < 64 && 0 <= y < 48 ==> pixel_at(display.frame.pixels(), 64, x, y) == pattern_pixel(
            x,
            y,
        )
}

impl CaptureBackend for FakeCaptureBackend {
    fn kind(&self) -> (kind: ScreenRecordingBackend)
        ensures
            kind == ScreenRecordingBackend::Xcap,
    {
        ScreenRecordingBackend::Xcap
    }

    fn platform(&self) -> (platform: ScreenRecordingPlatform)
        ensures
            platform == self.platform,
    {
        self.platform
    }

    fn capture_displays(&self) -> (result: Result<Vec<CapturedDisplay>, CaptureBackendFailure>)
        ensures
            result matches Ok(displays) && displays@.len() == 1 && is_fake_display(displays@[0]),
    {
        let display: CapturedDisplay = CapturedDisplay {
            id: owned("fake-display-1"),
            name: owned("Fake Display"),
            geometry: DisplayGeometry {
                width: 64,
                height: 48,
                rotation_millidegrees: 0,
                scale_factor_milli: 1000,
            },
            frame: Frame::test_pattern(64, 48),
        };
        let mut displays: Vec<CapturedDisplay> = Vec::new();
        displays.push(display);
        Ok(displays)
    }
}

/// What the platform's capture call reports when it fails.
#[derive(Debug)]
pub enum XcapFailure {
    NotSupported,
    Other(String),
}

/// Whether a message, whatever the case of its letters, blames a missing permission.
pub open spec fn blames_permission(message: Seq<char>) -> bool {
    let lower = ascii_lowercase(message);
    ||| contains(lower, "permission"@)
    ||| contains(lower, "denied"@)
    ||| contains(lower, "not authorized"@)
    ||| contains(lower, "not permitted"@)
    ||| contains(lower, "access"@)
}

/// The failure that a capture error stands for.
pub open spec fn xcap_failure(error: XcapFailure) -> FailureView {
    match error {
        XcapFailure::NotSupported => unsupported_failure(HOST_UNSUPPORTED_MESSAGE@),
        XcapFailure::Other(message) => if blames_permission(message@) {
            permission_failure(message@)
        } else {
            other_failure(message@)
        },
    }
}

/// Sorts a capture error by whether screens cannot be captured at all, a permission is
/// missing, or something else went wrong.
pub fn map_xcap_error(error: XcapFailure) -> (failure: CaptureBackendFailure)
    ensures
        failure@ == xcap_failure(error),
{
    match error {
        XcapFailure::NotSupported => CaptureBackendFailure::unsupported(
            owned(HOST_UNSUPPORTED_MESSAGE),
        ),
        XcapFailure::Other(message) => {
            let lower: String = to_ascii_lowercase(message.as_str());
            let lower: &str = lower.as_str();
            if text_contains(lower, "permission") || text_contains(lower, "denied")
                || text_contains(lower, "not authorized") || text_contains(lower, "not permitted")
                || text_contains(lower, "access") {
                CaptureBackendFailure::permission_required(message)
            } else {
                CaptureBackendFailure::other(message)
            }
        },
    }
}

/// What was read of one monitor: each property, or the error of reading it.
pub struct MonitorReading {
    pub id: Result<u32, XcapFailure>,
    pub friendly_name: Result<String, XcapFailure>,
    pub name: Result<String, XcapFailure>,
    pub width: Result<u32, XcapFailure>,
    pub height: Result<u32, XcapFailure>,
    pub rotation_millidegrees: Result<i32, XcapFailure>,
    pub scale_factor_milli: Result<u32, XcapFailure>,
    pub frame: Result<Frame, XcapFailure>,
}

impl MonitorReading {
    /// The error that stands in the way of a captured display: the first one, in the order of
    /// the fields, where a missing friendly name is made up for by the plain one.
    pub open spec fn first_error(self) -> Option<XcapFailure> {
        if let Err(error) = self.id {
            Some(error)
        } else if self.friendly_name is Err && self.name is Err {
            Some(self.name->Err_0)
        } else if let Err(error) = self.width {
            Some(error)
        } else if let Err(error) = self.height {
            Some(error)
        } else if let Err(error) = self.rotation_millidegrees {
            Some(error)
        } else if let Err(error) = self.scale_factor_milli {
            Some(error)
        } else if let Err(error) = self.frame {
            Some(error)
        } else {
            None
        }
    }

    /// The display that a complete reading describes.
    pub open spec fn describes(self, display: CapturedDisplay) -> bool {
        &&& display.id@ == decimal(self.id->Ok_0 as nat)
        &&& display.name@ == (match self.friendly_name {
            Ok(name) => name@,
            Err(_) => self.name->Ok_0@,
        })
        &&& display.geometry == (DisplayGeometry {
            width: self.width->Ok_0,
            height: self.height->Ok_0,
            rotation_millidegrees: self.rotation_millidegrees->Ok_0,
            scale_factor_milli: self.scale_factor_milli->Ok_0,
        })
        &&& display.frame == self.frame->Ok_0
    }

    /// The captured display, or the failure that the first error stands for.
    pub fn into_display(self) -> (result: Result<CapturedDisplay, CaptureBackendFailure>)
        ensures
            match result {
                Ok(display) => self.first_error() is None && self.describes(display),
                Err(failure) => self.first_error() matches Some(error) && failure@ == xcap_failure(
                    error,
                ),
            },
    {
        let id: u32 = match self.id {
            Ok(id) => id,
            Err(error) => return Err(map_xcap_error(error)),
        };
        let name: String = match self.friendly_name {
            Ok(name) => name,
            Err(_) => match self.name {
                Ok(name) => name,
                Err(error) => return Err(map_xcap_error(error)),
            },
        };
        let width: u32 = match self.width {
            Ok(width) => width,
            Err(error) => return Err(map_xcap_error(error)),
        };
        let height: u32 = match self.height {
            Ok(height) => height,
            Err(error) => return Err(map_xcap_error(error)),
        };
        let rotation_millidegrees: i32 = match self.rotation_millidegrees {
            Ok(rotation) => rotation,
            Err(error) => return Err(map_xcap_error(error)),
        };
        let scale_factor_milli: u32 = match self.scale_factor_milli {
            Ok(scale) => scale,
            Err(error) => return Err(map_xcap_error(error)),
        };
        let frame: Frame = match self.frame {
            Ok(frame) => frame,
            Err(error) => return Err(map_xcap_error(error)),
        };
        Ok(
            CapturedDisplay {
                id: to_decimal(id as u64),
                name,
                geometry: DisplayGeometry {
                    width,
                    height,
                    rotation_millidegrees,
                    scale_factor_milli,
                },
                frame,
            },
        )
    }
}

/// A permission is reported as required exactly when a capture error blames one.
pub proof fn permission_is_required_only_when_blamed(error: XcapFailure)
    ensures
        xcap_failure(error).permission == ScreenRecordingPermission::Required <==> (error matches
            XcapFailure::Other(message) && blames_permission(message@)),
{
}

/// A failure keeps its message. Its kind and what it says of a permission go together: a
/// permission is required where one is missing, and unknown otherwise.
pub proof fn failures_keep_their_message(message: Seq<char>)
    ensures
        unsupported_failure(message).kind == CaptureBackendFailureKind::Unsupported,
        unsupported_failure(message).permission == ScreenRecordingPermission::Unknown,
        unsupported_failure(message).message == message,
        permission_failure(message).kind == CaptureBackendFailureKind::PermissionRequired,
        permission_failure(message).permission == ScreenRecordingPermission::Required,
        permission_failure(message).message == message,
        other_failure(message).kind == CaptureBackendFailureKind::Other,
        other_failure(message).permission == ScreenRecordingPermission::Unknown,
        other_failure(message).message == message,
{
}

/// A host that cannot capture screens is told so; any other capture error keeps its message.
pub proof fn capture_error_keeps_its_message(error: XcapFailure)
    ensures
        error is NotSupported ==> {
            &&& xcap_failure(error).kind == CaptureBackendFailureKind::Unsupported
            &&& xcap_failure(error).permission == ScreenRecordingPermission::Unknown
            &&& xcap_failure(error).message == "screen capture is not supported on this host"@
        },
        error matches XcapFailure::Other(message) ==> {
            &&& xcap_failure(error).message == message@
            &&& xcap_failure(error).kind == CaptureBackendFailureKind::PermissionRequired
                || xcap_failure(error).kind == CaptureBackendFailureKind::Other
            &&& xcap_failure(error).kind == CaptureBackendFailureKind::PermissionRequired
                <==> xcap_failure(error).permission == ScreenRecordingPermission::Required
            &&& xcap_failure(error).kind == CaptureBackendFailureKind::Other
                <==> xcap_failure(error).permission == ScreenRecordingPermission::Unknown
        },
{
}

/// A message blames a missing permission where, in small letters, one of five words stands
/// anywhere in it.
pub proof fn permission_words_are_recognized(
    message: Seq<char>,
    before: Seq<char>,
    word: Seq<char>,
    behind: Seq<char>,
)
    requires
        ascii_lowercase(message) == before + word + behind,
        word == "permission"@ || word == "denied"@ || word == "not authorized"@ || word
            == "not permitted"@ || word == "access"@,
    ensures
        blames_permission(message),
{
    crate::text::searches_find_what_is_there(before, word, behind);
}

/// A message that blames a missing permission has, in small letters, one of five words in it.
pub proof fn no_other_words_blame_a_permission(message: Seq<char>)
    requires
        blames_permission(message),
    ensures
        exists|before: Seq<char>, word: Seq<char>, behind: Seq<char>|
            {
                &&& ascii_lowercase(message) == #[trigger] (before + word + behind)
                &&& word == "permission"@ || word == "denied"@ || word == "not authorized"@ || word
                    == "not permitted"@ || word == "access"@
            },
{
    let lower = ascii_lowercase(message);
    let word = if contains(lower, "permission"@) {
        "permission"@
    } else if contains(lower, "denied"@) {
        "denied"@
    } else if contains(lower, "not authorized"@) {
        "not authorized"@
    } else if contains(lower, "not permitted"@) {
        "not permitted"@
    } else {
        "access"@
    };
    crate::text::searches_find_nothing_else(lower, word);
    let (before, behind) = choose|before: Seq<char>, behind: Seq<char>|
        lower == #[trigger] (before + word + behind);
    assert(lower == before + word + behind);
}

/// Whether a message blames a permission does not depend on the case of its letters.
pub proof fn case_of_a_message_does_not_matter(a: Seq<char>, b: Seq<char>)
    requires
        ascii_lowercase(a) == ascii_lowercase(b),
    ensures
        blames_permission(a) == blames_permission(b),
{
}

/// A monitor is captured exactly where its id, one of its names, its size, rotation and scale and
/// its frame could all be read.
pub proof fn complete_reading_has_no_error(reading: MonitorReading)
    ensures
        reading.first_error() is None <==> {
            &&& reading.id is Ok
            &&& reading.friendly_name is Ok || reading.name is Ok
            &&& reading.width is Ok
            &&& reading.height is Ok
            &&& reading.rotation_millidegrees is Ok
            &&& reading.scale_factor_milli is Ok
            &&& reading.frame is Ok
        },
{
}

/// The error of a monitor is that of the first property, in the order of reading, that could not
/// be read.
pub proof fn first_error_is_reported(reading: MonitorReading)
    ensures
        ({
            let named = reading.friendly_name is Ok || reading.name is Ok;
            let error = reading.first_error();
            &&& reading.id is Err ==> error == Some(reading.id->Err_0)
            &&& reading.id is Ok && !named ==> error == Some(reading.name->Err_0)
            &&& reading.id is Ok && named ==> {
                &&& reading.width is Err ==> error == Some(reading.width->Err_0)
                &&& reading.width is Ok ==> {
                    &&& reading.height is Err ==> error == Some(reading.height->Err_0)
                    &&& reading.height is Ok ==> {
                        &&& reading.rotation_millidegrees is Err ==> error == Some(
                            reading.rotation_millidegrees->Err_0,
                        )
                        &&& reading.rotation_millidegrees is Ok ==> {
                            &&& reading.scale_factor_milli is Err ==> error == Some(
                                reading.scale_factor_milli->Err_0,
                            )
                            &&& reading.scale_factor_milli is Ok && reading.frame is Err ==> error
                                == Some(reading.frame->Err_0)
                        }
                    }
                }
            }
        }),
{
}

/// A captured monitor keeps what was read of it; its friendly name comes before its plain one.
pub proof fn display_is_what_was_read(reading: MonitorReading, display: CapturedDisplay)
    requires
        reading.first_error() is None,
        reading.describes(display),
    ensures
        display.id@ == decimal(reading.id->Ok_0 as nat),
        reading.friendly_name matches Ok(name) ==> display.name@ == name@,
        reading.friendly_name is Err ==> display.name@ == reading.name->Ok_0@,
        display.geometry.width == reading.width->Ok_0,
        display.geometry.height == reading.height->Ok_0,
        display.geometry.rotation_millidegrees == reading.rotation_millidegrees->Ok_0,
        display.geometry.scale_factor_milli == reading.scale_factor_milli->Ok_0,
        display.frame == reading.frame->Ok_0,
{
}

/// The fake display is 64 pixels wide and 48 high; its red grows with the column, its green with
/// the row, its blue is fixed, and it is opaque.
pub proof fn fake_display_shows_a_gradient(display: CapturedDisplay, x: int, y: int)
    requires
        is_fake_display(display),
        0 <= x < 64,
        0 <= y < 48,
    ensures
        display.id@ == "fake-display-1"@,
        display.name@ == "Fake Display"@,
        display.geometry.width == 64 && display.geometry.height == 48,
        display.geometry.rotation_millidegrees == 0,
        display.geometry.scale_factor_milli == 1000,
        display.frame.spec_width() == 64 && display.frame.spec_height() == 48,
        display.frame.pixels().len() == 64 * 48 * 4,
        ({
            let at = (y * 64 + x) * 4;
            let pixels = display.frame.pixels();
            &&& pixels[at] == 4 * x % 255
            &&& pixels[at + 1] == 5 * y % 255
            &&& pixels[at + 2] == 180
            &&& pixels[at + 3] == 255
        }),
{
    let pixels = display.frame.pixels();
    assert(pixel_at(pixels, 64, x, y) == pattern_pixel(x, y));
}

/// The views of displays and failures show every field of them.
pub proof fn views_show_every_field(display: CapturedDisplay, failure: CaptureBackendFailure)
    ensures
        display@.id == display.id@,
        display@.name == display.name@,
        display@.geometry == display.geometry,
        display@.frame_width == display.frame.spec_width(),
        display@.frame_height == display.frame.spec_height(),
        display@.pixels == display.frame.pixels(),
        failure@.kind == failure.kind,
        failure@.permission == failure.permission,
        failure@.message == failure.message@,
{
}

} // verus!
