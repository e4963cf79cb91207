use screen_recording::backend::{
    default_capture_backend, map_xcap_error, BackendChoice, CaptureBackend,
    CaptureBackendFailureKind, FakeCaptureBackend, MonitorReading, UnsupportedCaptureBackend,
    XcapFailure, FAKE_BACKEND_ENV_VAR,
};
use screen_recording::frame::Frame;
use screen_recording::protocol::{
    ScreenRecordingBackend, ScreenRecordingPermission, ScreenRecordingPlatform,
};

#[test]
fn fake_backend_returns_one_display() {
    let backend = FakeCaptureBackend {
        platform: ScreenRecordingPlatform::Linux,
    };
    let displays = backend
        .capture_displays()
        .expect("fake backend should succeed");
    assert_eq!(displays.len(), 1);
    assert_eq!(displays[0].id, "fake-display-1");
    assert_eq!(displays[0].geometry.width, 64);
    assert_eq!(displays[0].geometry.height, 48);
}

#[test]
fn platform_backend_reports_macos_only_support() {
    assert_eq!(
        default_capture_backend(false, ScreenRecordingPlatform::Linux),
        BackendChoice::Unsupported
    );
    let backend = UnsupportedCaptureBackend {
        platform: ScreenRecordingPlatform::Linux,
    };
    let err = backend
        .capture_displays()
        .expect_err("non-macOS backend should be unsupported");
    assert_eq!(err.kind, CaptureBackendFailureKind::Unsupported);
    assert_eq!(
        err.message,
        "screen capture is currently supported only on macOS"
    );
}

#[test]
fn fake_display_shows_a_pattern() {
    let backend = FakeCaptureBackend {
        platform: ScreenRecordingPlatform::Macos,
    };
    assert_eq!(backend.kind(), ScreenRecordingBackend::Xcap);
    assert_eq!(backend.platform(), ScreenRecordingPlatform::Macos);
    let displays = backend.capture_displays().expect("fake backend");
    let pixels = displays[0].frame.as_raw();
    assert_eq!(pixels.len(), 64 * 48 * 4);
    let at = (3 * 64 + 7) * 4;
    assert_eq!(pixels[at..at + 4], [28, 15, 180, 255]);
    let copy = displays[0].clone();
    assert_eq!(copy.frame.as_raw(), pixels);
}

#[test]
fn backend_is_chosen_by_request_and_platform() {
    assert_eq!(FAKE_BACKEND_ENV_VAR, "CODEX_SCREEN_RECORDING_FAKE");
    assert_eq!(
        default_capture_backend(true, ScreenRecordingPlatform::Macos),
        BackendChoice::Fake
    );
    assert_eq!(
        default_capture_backend(false, ScreenRecordingPlatform::Macos),
        BackendChoice::Xcap
    );
    assert_eq!(
        default_capture_backend(true, ScreenRecordingPlatform::Windows),
        BackendChoice::Fake
    );
}

#[test]
fn capture_errors_are_sorted() {
    let unsupported = map_xcap_error(XcapFailure::NotSupported);
    assert_eq!(unsupported.kind, CaptureBackendFailureKind::Unsupported);
    assert_eq!(
        unsupported.message,
        "screen capture is not supported on this host"
    );
    for message in [
        "Permission missing",
        "request DENIED",
        "app is Not Authorized",
        "not permitted",
        "no ACCESS",
    ] {
        let failure = map_xcap_error(XcapFailure::Other(message.to_string()));
        assert_eq!(failure.kind, CaptureBackendFailureKind::PermissionRequired);
        assert_eq!(failure.permission, ScreenRecordingPermission::Required);
        assert_eq!(failure.message, message);
    }
    let other = map_xcap_error(XcapFailure::Other("display went away".to_string()));
    assert_eq!(other.kind, CaptureBackendFailureKind::Other);
    assert_eq!(other.permission, ScreenRecordingPermission::Unknown);
}

fn reading() -> MonitorReading {
    MonitorReading {
        id: Ok(17),
        friendly_name: Ok("Built-in".to_string()),
        name: Err(XcapFailure::NotSupported),
        width: Ok(2),
        height: Ok(1),
        rotation_millidegrees: Ok(90_000),
        scale_factor_milli: Ok(2000),
        frame: Ok(Frame::from_raw(2, 1, vec![1, 2, 3, 4, 5, 6, 7, 8]).expect("frame")),
    }
}

#[test]
fn monitor_reading_becomes_a_display() {
    let display = reading().into_display().expect("display");
    assert_eq!(display.id, "17");
    assert_eq!(display.name, "Built-in");
    assert_eq!(display.geometry.rotation_millidegrees, 90_000);
    assert_eq!(display.geometry.scale_factor_milli, 2000);
    assert_eq!(display.frame.width(), 2);
}

#[test]
fn plain_name_makes_up_for_the_friendly_one() {
    let mut reading = reading();
    reading.friendly_name = Err(XcapFailure::Other("none".to_string()));
    reading.name = Ok("DP-1".to_string());
    assert_eq!(reading.into_display().expect("display").name, "DP-1");
}

#[test]
fn first_monitor_error_is_reported() {
    let mut reading = reading();
    reading.height = Err(XcapFailure::Other("height".to_string()));
    reading.frame = Err(XcapFailure::Other("access denied".to_string()));
    let failure = reading.into_display().expect_err("incomplete");
    assert_eq!(failure.message, "height");
    assert_eq!(failure.kind, CaptureBackendFailureKind::Other);
}
