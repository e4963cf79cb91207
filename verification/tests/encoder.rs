use screen_recording::encoder::{
    check_allocated, check_block, check_callback, check_filled, check_status, os_status_error,
    sample_is_sync, session_settings, EncoderError, FinishStep, OpenStep, SegmentEncoder,
    LOCK_BUFFER_CONTEXT,
};
use screen_recording::fragments::{
    h264_parameter_sets, FragmentWriter, ParameterSetReading,
    FRAGMENT_TICKS_PER_FRAME,
};
use screen_recording::frame::Frame;
use screen_recording::pixels::{copy_rgba_as_bgra, placeholder_frame, PLACEHOLDER_HEADER};

const SPS: [u8; 10] = [0x67, 0x42, 0x00, 0x1e, 0xda, 0x02, 0x80, 0x2d, 0x8b, 0x11];
const PPS: [u8; 4] = [0x68, 0xce, 0x38, 0x80];

fn open_writer() -> (FragmentWriter, Vec<u8>) {
    let mut writer = FragmentWriter::new(2, 2);
    assert!(writer.needs_parameter_sets());
    let (muxer, init) = writer.declare_stream(SPS.to_vec(), PPS.to_vec());
    writer.stream_declared(muxer);
    assert!(!writer.needs_parameter_sets());
    (writer, init)
}

fn mux(writer: &mut FragmentWriter, data: &[u8], is_sync: bool) -> Vec<u8> {
    assert!(writer.has_room());
    match writer.mux_sample(&data.to_vec(), is_sync) {
        Ok(segment) => {
            writer.sample_written();
            segment
        }
        Err(_) => panic!("sample was refused"),
    }
}

fn finish_frame(
    encoder: &mut SegmentEncoder,
    writer: &mut FragmentWriter,
    encode_status: i32,
    flush_status: i32,
) -> Result<(), String> {
    encoder.frame_encoded(encode_status)?;
    encoder.frame_flushed(flush_status)?;
    writer.take_callback_error()
}

#[test]
fn writes_fragmented_mp4() {
    let mut encoder = SegmentEncoder::opened(2, 2, 1);
    let frame = [
        255, 0, 0, 255, 0, 255, 0, 255, 0, 0, 255, 255, 255, 255, 255, 255,
    ];
    let (mut writer, mut file) = open_writer();

    assert!(encoder.begin_frame(frame.len()).is_ok());
    file.extend(mux(&mut writer, &frame, true));
    finish_frame(&mut encoder, &mut writer, 0, 0).expect("write first frame");
    let len_after_first_frame = file.len();
    assert!(len_after_first_frame > 0);

    assert!(encoder.begin_frame(frame.len()).is_ok());
    file.extend(mux(&mut writer, &frame, false));
    finish_frame(&mut encoder, &mut writer, 0, 0).expect("write second frame");
    assert_eq!(encoder.finish(), FinishStep::CompleteFrames);
    assert_eq!(encoder.pending_flushed(0), Ok(()));
    assert_eq!(
        encoder.frames_completed(&mut writer),
        Ok(FinishStep::ReleaseState)
    );
    encoder
        .state_released(writer, Ok(()))
        .expect("finish encoder");
    assert!(encoder.finished);
    assert!(file.len() >= len_after_first_frame);
    assert_eq!(file[4..8], *b"ftyp");
}

#[test]
fn fragments_hold_their_sample() {
    let (mut writer, init) = open_writer();
    assert_eq!(init[4..8], *b"ftyp");
    assert!(init.windows(SPS.len()).any(|window| window == SPS));
    let first = mux(&mut writer, &[1, 2, 3, 4, 5], true);
    assert_eq!(first[4..8], *b"moof");
    assert_eq!(first[first.len() - 5..], [1, 2, 3, 4, 5]);
    let second = mux(&mut writer, &[9, 9], false);
    assert_eq!(second[second.len() - 2..], [9, 9]);
    assert_ne!(first[..first.len() - 5], second[..second.len() - 2]);
}

#[test]
fn sample_needs_a_declared_stream() {
    let mut writer = FragmentWriter::new(2, 2);
    match writer.mux_sample(&vec![1], true) {
        Err(EncoderError::Other(message)) => assert_eq!(
            message,
            "fragmented muxer was not initialized before writing a sample"
        ),
        _ => panic!("sample was muxed"),
    }
    assert_eq!(FRAGMENT_TICKS_PER_FRAME, 3_000);
}

#[test]
fn first_callback_error_is_reported_once() {
    let mut writer = FragmentWriter::new(1, 1);
    writer.record_callback_error("first".to_string());
    writer.record_callback_error("second".to_string());
    assert_eq!(writer.take_callback_error(), Err("first".to_string()));
    assert_eq!(writer.take_callback_error(), Ok(()));
}

#[test]
fn callback_error_fails_the_frame() {
    let mut writer = FragmentWriter::new(1, 1);
    let mut encoder = SegmentEncoder::opened(1, 1, 1);
    writer.record_callback_error("lost".to_string());
    assert_eq!(
        finish_frame(&mut encoder, &mut writer, -5, 0),
        Err("failed to encode VideoToolbox frame (OSStatus -5)".to_string())
    );
    assert_eq!(
        finish_frame(&mut encoder, &mut writer, 0, 6),
        Err("failed to flush VideoToolbox encoded frame (OSStatus 6)".to_string())
    );
    assert_eq!(encoder.next_pts, 0);
    assert_eq!(
        finish_frame(&mut encoder, &mut writer, 0, 0),
        Err("lost".to_string())
    );
    assert_eq!(encoder.next_pts, 1);
}

#[test]
fn frames_are_checked() {
    let encoder = SegmentEncoder::opened(2, 2, 1);
    let timing = match encoder.begin_frame(16) {
        Ok(timing) => timing,
        Err(_) => panic!("frame was refused"),
    };
    assert_eq!((timing.presentation, timing.duration, timing.timescale), (0, 1, 1));
    match encoder.begin_frame(15) {
        Err(EncoderError::InvalidInput(message)) => {
            assert_eq!(message, "rgba frame length 15 did not match expected 16");
        }
        _ => panic!("short frame was accepted"),
    }
    let mut finished = encoder;
    finished.session_open = false;
    match finished.begin_frame(16) {
        Err(EncoderError::Other(message)) => {
            assert_eq!(message, "encoder session already finished");
        }
        _ => panic!("finished encoder took a frame"),
    }
    finished.session_open = true;
    finished.pool_open = false;
    match finished.begin_frame(16) {
        Err(EncoderError::Other(message)) => {
            assert_eq!(message, "encoder pixel buffer pool already finished");
        }
        _ => panic!("finished encoder took a frame"),
    }
}

#[test]
fn failed_finish_can_be_repeated() {
    let writer = FragmentWriter::new(1, 1);
    let mut encoder = SegmentEncoder::opened(1, 1, 1);
    assert_eq!(encoder.finish(), FinishStep::CompleteFrames);
    assert_eq!(
        encoder.pending_flushed(3),
        Err("failed to flush pending VideoToolbox frames (OSStatus 3)".to_string())
    );
    assert_eq!(encoder.finish(), FinishStep::ReleaseState);
    assert_eq!(
        encoder.state_released(writer, Err("disk".to_string())),
        Err("disk".to_string())
    );
    assert!(!encoder.finished);
    assert_eq!(encoder.finish(), FinishStep::Done);
    assert!(encoder.finished);
    assert_eq!(encoder.finish(), FinishStep::Done);
}

#[test]
fn session_is_opened_step_by_step() {
    let mut step = OpenStep::CreateSession;
    let mut steps = 0;
    while step != OpenStep::Ready {
        step = match step.advance(0, true, "RealTime") {
            Ok(next) => next,
            Err(_) => panic!("step failed"),
        };
        steps += 1;
    }
    assert_eq!(steps, 7);
    let expect = |step: OpenStep, status: i32, present: bool| match step
        .advance(status, present, "RealTime")
    {
        Err(failure) => (
            failure.message,
            failure.release_state,
            failure.invalidate_session,
        ),
        Ok(_) => panic!("step went well"),
    };
    assert_eq!(
        expect(OpenStep::CreateSession, 1, true),
        (
            "failed to create VideoToolbox compression session (OSStatus 1)".to_string(),
            true,
            false
        )
    );
    assert_eq!(
        expect(OpenStep::CreateSession, 0, false),
        (
            "VideoToolbox returned a null compression session".to_string(),
            true,
            false
        )
    );
    assert_eq!(
        expect(OpenStep::SetRealTime, 2, true),
        (
            "failed to set VideoToolbox property RealTime (OSStatus 2)".to_string(),
            false,
            false
        )
    );
    assert_eq!(
        expect(OpenStep::Prepare, 2, true),
        (
            "failed to prepare VideoToolbox compression session (OSStatus 2)".to_string(),
            true,
            true
        )
    );
    assert_eq!(
        expect(OpenStep::FetchPool, 0, false),
        (
            "VideoToolbox did not expose a source pixel buffer pool".to_string(),
            true,
            true
        )
    );
}

#[test]
fn settings_follow_the_frame_rate() {
    let settings = session_settings(64, 48, 1);
    assert!(settings.real_time);
    assert!(!settings.allow_frame_reordering);
    assert_eq!((settings.width, settings.height), (64, 48));
    assert_eq!(settings.expected_frame_rate, 1);
    assert_eq!(settings.max_key_frame_interval, 10);
    assert_eq!(session_settings(1, 1, u32::MAX).max_key_frame_interval, -1);
    assert_eq!(session_settings(1, 1, 0x8000_0000).expected_frame_rate, i32::MIN);
}

#[test]
fn pixels_are_swapped_into_padded_rows() {
    let rgba = [1, 2, 3, 4, 5, 6, 7, 8];
    let mut buffer = [99u8; 13];
    copy_rgba_as_bgra(&rgba, 1, 2, 6, &mut buffer);
    assert_eq!(buffer, [3, 2, 1, 4, 99, 99, 7, 6, 5, 8, 99, 99, 99]);
    let mut packed = [0u8; 8];
    copy_rgba_as_bgra(&rgba, 2, 1, 8, &mut packed);
    let mut restored = [0u8; 8];
    copy_rgba_as_bgra(&packed, 2, 1, 8, &mut restored);
    assert_eq!(restored, rgba);
}

#[test]
fn placeholder_keeps_size_and_beginning() {
    assert_eq!(PLACEHOLDER_HEADER, "placeholder mp4 segment\n");
    let record = placeholder_frame(&[7, 8, 9]);
    assert_eq!(record, [3, 0, 0, 0, 0, 0, 0, 0, 7, 8, 9]);
    let long = placeholder_frame(&vec![5; 5000]);
    assert_eq!(long.len(), 8 + 4096);
    assert_eq!(long[..8], 5000u64.to_le_bytes());
}

fn set(bytes: &[u8]) -> ParameterSetReading {
    ParameterSetReading {
        status: 0,
        bytes: Some(bytes.to_vec()),
    }
}

#[test]
fn last_parameter_sets_win() {
    let readings = vec![
        set(&[0x67, 1]),
        set(&[]),
        set(&[0x68, 2]),
        set(&[0x27, 3]),
        set(&[0x06]),
    ];
    assert_eq!(
        h264_parameter_sets(0, &readings),
        Ok((vec![0x27, 3], vec![0x68, 2]))
    );
}

#[test]
fn parameter_set_failures_are_reported() {
    let null = || ParameterSetReading {
        status: 0,
        bytes: None,
    };
    let failed = || ParameterSetReading {
        status: 9,
        bytes: None,
    };
    assert_eq!(
        h264_parameter_sets(4, &vec![]),
        Err("failed to inspect H.264 parameter set count (OSStatus 4)".to_string())
    );
    assert_eq!(
        h264_parameter_sets(0, &vec![set(&[0x67]), failed(), null()]),
        Err("failed to read H.264 parameter set (OSStatus 9)".to_string())
    );
    assert_eq!(
        h264_parameter_sets(0, &vec![null(), failed()]),
        Err("parameter set pointer was null".to_string())
    );
    assert_eq!(
        h264_parameter_sets(0, &vec![set(&[0x67])]),
        Err("encoded sample buffer did not expose SPS/PPS parameter sets".to_string())
    );
}

#[test]
fn system_calls_are_checked() {
    assert_eq!(os_status_error(-12, "broken"), "broken (OSStatus -12)");
    assert_eq!(check_status(0, "fine"), Ok(()));
    assert_eq!(
        check_status(3, LOCK_BUFFER_CONTEXT),
        Err("failed to lock CoreVideo pixel buffer (OSStatus 3)".to_string())
    );
    assert_eq!(
        check_allocated(1, true),
        Err("failed to allocate CoreVideo pixel buffer (OSStatus 1)".to_string())
    );
    assert_eq!(
        check_allocated(0, false),
        Err("CoreVideo returned a null pixel buffer".to_string())
    );
    assert_eq!(check_allocated(0, true), Ok(()));
    assert_eq!(
        check_filled(false, 2),
        Err("failed to unlock CoreVideo pixel buffer (OSStatus 2)".to_string())
    );
    assert_eq!(
        check_filled(false, 0),
        Err("pixel buffer base address was null".to_string())
    );
    assert_eq!(check_filled(true, 0), Ok(()));
}

#[test]
fn samples_are_checked() {
    assert_eq!(check_callback(0, false, true), Ok(()));
    assert_eq!(
        check_callback(1, true, false),
        Err("VideoToolbox encode callback failed (OSStatus 1)".to_string())
    );
    assert_eq!(
        check_callback(0, true, false),
        Err("VideoToolbox dropped a recording frame".to_string())
    );
    assert_eq!(
        check_callback(0, false, false),
        Err("VideoToolbox callback returned a null sample buffer".to_string())
    );
    assert_eq!(check_block(true, 0, 8, 8, true), Ok(()));
    assert_eq!(
        check_block(false, 1, 0, 8, false),
        Err("encoded sample buffer was missing a data buffer".to_string())
    );
    assert_eq!(
        check_block(true, 1, 0, 8, false),
        Err("failed to access encoded block buffer bytes (OSStatus 1)".to_string())
    );
    assert_eq!(
        check_block(true, 0, 7, 8, false),
        Err("encoded block buffer was not stored contiguously".to_string())
    );
    assert_eq!(
        check_block(true, 0, 8, 8, false),
        Err("encoded block buffer pointer was null".to_string())
    );
    assert!(sample_is_sync(None));
    assert!(sample_is_sync(Some(false)));
    assert!(!sample_is_sync(Some(true)));
}

#[test]
fn latest_frame_becomes_a_jpeg() {
    let frame = Frame::test_pattern(64, 48);
    let file = match frame.to_jpeg() {
        Ok(file) => file,
        Err(_) => panic!("no picture"),
    };
    assert_eq!(file[..2], [0xff, 0xd8]);
    let picture = image::load_from_memory(&file).expect("decode").to_rgb8();
    assert_eq!(picture.dimensions(), (64, 48));
    let pixel = picture.get_pixel(32, 24);
    assert!((pixel[2] as i32 - 180).abs() < 16);
    let empty = Frame::from_raw(0, 0, vec![]).expect("empty frame");
    assert!(empty.to_jpeg().is_err());
    assert!(Frame::from_raw(2, 2, vec![0; 15]).is_none());
}

#[test]
fn callback_error_fails_the_finish() {
    let mut writer = FragmentWriter::new(1, 1);
    let mut encoder = SegmentEncoder::opened(1, 1, 1);
    writer.record_callback_error("lost".to_string());
    assert_eq!(encoder.finish(), FinishStep::CompleteFrames);
    assert_eq!(
        encoder.frames_completed(&mut writer),
        Err("lost".to_string())
    );
    assert!(encoder.pool_open);
    assert_eq!(encoder.finish(), FinishStep::ReleaseState);
}

#[test]
fn frames_follow_each_other_by_the_second() {
    fn sample_time(segment: &[u8]) -> u64 {
        let at = segment
            .windows(4)
            .position(|window| window == b"tfdt")
            .expect("decode time");
        let mut bytes = [0u8; 8];
        bytes.copy_from_slice(&segment[at + 8..at + 16]);
        u64::from_be_bytes(bytes)
    }
    let (mut writer, init) = open_writer();
    let mut file = init.clone();
    for k in 0..5u64 {
        let segment = mux(&mut writer, &[k as u8], k == 0);
        assert_eq!(sample_time(&segment), FRAGMENT_TICKS_PER_FRAME * k);
        file.extend(segment);
    }
    let beginnings = file.windows(4).filter(|window| *window == b"ftyp").count();
    assert_eq!(beginnings, 1);
    assert_eq!(file[..init.len()], init);
}
