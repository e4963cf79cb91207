use screen_recording::decimal::{parse_u32, to_decimal, to_signed_decimal};
use screen_recording::ocr::{
    default_ocr_backend, image_layout, normalize_ocr_text, recognized_text, vision_result,
    NoopOcrBackend, OcrBackend, OcrChoice, OcrFrameResult, VisionReading,
};
use screen_recording::frame::Frame;
use screen_recording::path::{
    join_path, path_file_stem, path_is_absolute, path_with_extension, path_with_file_name,
};
use screen_recording::protocol::ScreenRecordingPlatform;
use screen_recording::text::{
    is_white_space, normalize_text, text_contains, text_ends_with, text_starts_with,
    to_ascii_lowercase, trimmed,
};
use std::path::Path;

#[test]
fn white_space_is_that_of_the_standard_library() {
    for code in 0..=0x10ffffu32 {
        if let Some(ch) = char::from_u32(code) {
            assert_eq!(is_white_space(ch), ch.is_whitespace(), "{code:x}");
        }
    }
}

#[test]
fn normal_text_is_made_of_trimmed_lines() {
    for text in [
        "",
        "\n\n",
        "  a  \r\n\r\n\tb c \n",
        "one",
        "\u{a0}x\u{3000}\n y",
        "Terminal\ncargo test",
    ] {
        let expected = text
            .lines()
            .map(str::trim)
            .filter(|line| !line.is_empty())
            .collect::<Vec<_>>()
            .join("\n");
        assert_eq!(normalize_text(text), expected);
        let result = OcrFrameResult {
            full_text: text.to_string(),
        };
        assert_eq!(normalize_ocr_text(&result), expected);
        assert_eq!(normalize_text(&expected), expected);
        assert_eq!(trimmed(text), text.trim());
    }
}

#[test]
fn texts_are_searched() {
    assert!(text_starts_with("owned (pid 4)", "owned"));
    assert!(!text_starts_with("own", "owned"));
    assert!(text_ends_with("a.mp4.json", ".mp4.json"));
    assert!(!text_ends_with("json", ".json"));
    assert!(text_contains("access denied", "denied"));
    assert!(text_contains("x", ""));
    assert!(!text_contains("deni", "denied"));
    assert_eq!(to_ascii_lowercase("ÄBc"), "Äbc");
}

#[test]
fn numbers_are_written_and_read() {
    for number in [0u64, 7, 10, 4242, u64::MAX] {
        assert_eq!(to_decimal(number), number.to_string());
    }
    for number in [0i32, -1, 12, i32::MIN, i32::MAX] {
        assert_eq!(to_signed_decimal(number), number.to_string());
    }
    for text in ["", "+", "+7", "-7", "4242", "4294967295", "4294967296", "1 2", "00012"] {
        assert_eq!(parse_u32(text), text.parse::<u32>().ok(), "{text}");
    }
}

#[test]
fn paths_are_those_of_the_standard_library() {
    let paths = [
        "/a/b.mp4", "a.b.c", "/", "", ".hidden", "/x/.hidden", "/x/..", "/x/.", "/x/y/", "x//y//",
        "a/./", "/x/name.", "plain",
    ];
    for path in paths {
        assert_eq!(
            path_file_stem(path).as_deref(),
            Path::new(path).file_stem().and_then(|stem| stem.to_str()),
            "{path}"
        );
        assert_eq!(
            path_with_extension(path, "mp4.json"),
            Path::new(path).with_extension("mp4.json").to_str().expect("utf8"),
            "{path}"
        );
        assert_eq!(
            path_with_file_name(path, "other.jpg"),
            Path::new(path).with_file_name("other.jpg").to_str().expect("utf8"),
            "{path}"
        );
        assert_eq!(path_is_absolute(path), path.starts_with('/'));
        for tail in ["n.mp4", "/abs", "d/e"] {
            assert_eq!(
                join_path(path, tail),
                Path::new(path).join(tail).to_str().expect("utf8")
            );
        }
    }
}

#[test]
fn candidates_become_lines() {
    let candidates = vec![
        Some("  Terminal ".to_string()),
        None,
        Some("   ".to_string()),
        Some("cargo test".to_string()),
    ];
    let result = recognized_text(&candidates).expect("text");
    assert_eq!(result.full_text, "Terminal\ncargo test");
    assert!(recognized_text(&vec![None, Some("\t".to_string())]).is_none());
}

#[test]
fn vision_readings_are_answered() {
    let error = |reading| vision_result(reading).expect_err("failure");
    assert_eq!(
        error(VisionReading::NoDataProvider),
        "failed to create OCR data provider"
    );
    assert_eq!(
        error(VisionReading::NoColorSpace),
        "failed to create OCR color space"
    );
    assert_eq!(error(VisionReading::NoImage), "failed to create OCR image");
    assert_eq!(
        error(VisionReading::Failed("code 3".to_string())),
        "vision OCR failed: code 3"
    );
    assert!(vision_result(VisionReading::NoResults).expect("ok").is_none());
    let found = vision_result(VisionReading::Candidates(vec![Some("hi".to_string())]));
    assert_eq!(found.expect("ok").expect("text").full_text, "hi");
}

#[test]
fn recognizer_is_chosen_by_platform() {
    assert_eq!(
        default_ocr_backend(false, ScreenRecordingPlatform::Macos),
        OcrChoice::Vision
    );
    assert_eq!(
        default_ocr_backend(true, ScreenRecordingPlatform::Macos),
        OcrChoice::Noop
    );
    assert_eq!(
        default_ocr_backend(false, ScreenRecordingPlatform::Linux),
        OcrChoice::Noop
    );
    let frame = Frame::test_pattern(4, 2);
    assert!(NoopOcrBackend {}.recognize(&frame).expect("ok").is_none());
    let layout = image_layout(&frame);
    assert_eq!(layout.bytes_per_row, 16);
    assert_eq!((layout.width, layout.height), (4, 2));
    assert_eq!((layout.bits_per_component, layout.bits_per_pixel), (8, 32));
}
