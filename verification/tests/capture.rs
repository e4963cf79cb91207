use screen_recording::backend::{
    CaptureBackendFailure, CaptureBackendFailureKind, CapturedDisplay, DisplayGeometry,
};
use screen_recording::capture::{CaptureState, OCR_FRAME_INTERVAL};
use screen_recording::clock::{bucket_start_at, CaptureTime};
use screen_recording::frame::Frame;
use screen_recording::ocr::OcrFrameResult;
use screen_recording::protocol::ScreenRecordingPermission;
use screen_recording::segments::{
    is_manifest_path, latest_frame_path_for_segment, latest_frame_temp_path, ocr_path_for_segment,
    plan_segment, prune_old_segments, segment_path_for_manifest, ManifestFile, OcrFrameRecord,
    SegmentManifest, SegmentReason, MANIFEST_FILE_EXTENSION, RETENTION_SECONDS,
};
use screen_recording::tick::{CaptureTick, CaptureTickOutcome, TickAction, TickEvent};
use std::collections::BTreeMap;

#[derive(Debug, PartialEq)]
struct Encoder {
    path: String,
    frames: Vec<usize>,
}

#[derive(Default)]
struct Disk {
    videos: Vec<String>,
    sizes: Vec<(u32, u32, u32)>,
    manifests: BTreeMap<String, SegmentManifest>,
    records: Vec<(String, OcrFrameRecord)>,
}

struct Recorder {
    state: Option<CaptureState<Encoder>>,
    disk: Disk,
    texts: Vec<Option<OcrFrameResult>>,
    fail_at: Option<&'static str>,
}

impl Recorder {
    fn new() -> Recorder {
        Recorder {
            state: Some(CaptureState::new()),
            disk: Disk::default(),
            texts: Vec::new(),
            fail_at: None,
        }
    }

    fn state(&self) -> &CaptureState<Encoder> {
        self.state.as_ref().expect("state")
    }

    fn perform(&mut self, tick: &mut CaptureTick<Encoder>, action: TickAction) -> TickEvent<Encoder> {
        match action {
            TickAction::CreateStorageRoot => TickEvent::StorageRootCreated,
            TickAction::WriteManifest { path, manifest } => {
                self.disk.manifests.insert(path, manifest);
                TickEvent::ManifestWritten
            }
            TickAction::OpenEncoder {
                path,
                width,
                height,
                fps,
            } => {
                if self.fail_at == Some("open") {
                    return TickEvent::Failed("cannot open".to_string());
                }
                self.disk.videos.push(path.clone());
                self.disk.sizes.push((width, height, fps));
                TickEvent::EncoderOpened(Encoder {
                    path,
                    frames: Vec::new(),
                })
            }
            TickAction::EncodeFrame => {
                if self.fail_at == Some("encode") {
                    return TickEvent::Failed("cannot encode".to_string());
                }
                let (encoder, frame) = tick.encoder_and_frame();
                encoder.frames.push(frame.as_raw().len());
                TickEvent::FrameEncoded
            }
            TickAction::RecognizeText => {
                assert!(tick.frame().width() > 0);
                if self.texts.is_empty() {
                    TickEvent::TextRecognized(None)
                } else {
                    TickEvent::TextRecognized(self.texts.remove(0))
                }
            }
            TickAction::AppendRecord { path, record } => {
                self.disk.records.push((path, record));
                TickEvent::RecordAppended
            }
            TickAction::ReadManifest { path } => {
                TickEvent::ManifestRead(self.disk.manifests[&path].clone())
            }
            _ => panic!("the tick is over"),
        }
    }

    fn tick(
        &mut self,
        captured: Result<Vec<CapturedDisplay>, CaptureBackendFailure>,
        seconds: i64,
    ) -> Result<CaptureTickOutcome, CaptureBackendFailure> {
        let at = CaptureTime::from_timestamp(seconds).expect("timestamp");
        let state = self.state.take().expect("state");
        let mut tick = CaptureTick::new(state, at);
        let mut event = match captured {
            Ok(displays) => TickEvent::DisplaysCaptured(displays),
            Err(failure) => TickEvent::CaptureFailed(failure),
        };
        let result = loop {
            match tick.step(event) {
                TickAction::Finish(outcome) => break Ok(outcome),
                TickAction::Fail(failure) => break Err(failure),
                action => event = self.perform(&mut tick, action),
            }
        };
        self.state = Some(tick.into_state());
        result
    }
}

fn display(id: &str, width: u32, height: u32) -> CapturedDisplay {
    let mut pixels = Vec::new();
    for _ in 0..width * height {
        pixels.extend_from_slice(&[10, 20, 30, 255]);
    }
    CapturedDisplay {
        id: id.to_string(),
        name: format!("Display {id}"),
        geometry: DisplayGeometry {
            width,
            height,
            rotation_millidegrees: 0,
            scale_factor_milli: 1000,
        },
        frame: Frame::from_raw(width, height, pixels).expect("frame"),
    }
}

fn hidpi_display(id: &str, logical_width: u32, logical_height: u32, scale: u32) -> CapturedDisplay {
    let mut display = display(id, logical_width * scale, logical_height * scale);
    display.geometry.width = logical_width;
    display.geometry.height = logical_height;
    display.geometry.scale_factor_milli = scale * 1000;
    display
}

fn text(full_text: &str) -> Option<OcrFrameResult> {
    Some(OcrFrameResult {
        full_text: full_text.to_string(),
    })
}

#[test]
fn hotplug_misses_are_debounced_for_three_ticks() {
    let mut recorder = Recorder::new();
    let captures = vec![
        vec![display("1", 64, 48)],
        vec![],
        vec![],
        vec![display("1", 64, 48)],
    ];
    for (second, displays) in captures.into_iter().enumerate() {
        recorder
            .tick(Ok(displays), 1_700_000_000 + second as i64)
            .expect("capture tick");
    }

    assert_eq!(recorder.state().len(), 1);
    assert_eq!(
        recorder.state().stream("1").expect("stream").missed_ticks,
        0
    );
}

#[test]
fn geometry_change_rotates_segments() {
    let mut recorder = Recorder::new();
    recorder
        .tick(Ok(vec![display("1", 64, 48)]), 1_700_000_000)
        .expect("first capture");
    recorder
        .tick(Ok(vec![display("1", 80, 60)]), 1_700_000_001)
        .expect("second capture");

    let segment_count = recorder
        .disk
        .videos
        .iter()
        .filter(|path| path.ends_with(".mp4"))
        .count();
    assert_eq!(segment_count, 2);
    let reasons: Vec<SegmentReason> = recorder
        .disk
        .manifests
        .values()
        .map(|manifest| manifest.started_reason)
        .collect();
    assert_eq!(
        reasons,
        vec![SegmentReason::Started, SegmentReason::GeometryChanged]
    );
}

#[test]
fn writes_mp4_segments_without_latest_jpeg_sidecar() {
    let mut recorder = Recorder::new();
    recorder
        .tick(Ok(vec![display("1", 64, 48)]), 1_700_000_000)
        .expect("capture tick");

    assert_eq!(recorder.disk.videos.len(), 1);
    assert_eq!(
        recorder.disk.videos[0],
        "2023-11-14T22-13-20Z-display-1.mp4"
    );
    let segment = &recorder.state().stream("1").expect("stream").segment;
    assert_eq!(segment.encoder.path, recorder.disk.videos[0]);
    assert_eq!(segment.encoder.frames, vec![64 * 48 * 4]);
    assert_eq!(
        segment.latest_frame_path,
        "2023-11-14T22-13-20Z-display-1-latest.jpg"
    );
}

#[test]
fn encodes_physical_frame_dimensions_on_hidpi_displays() {
    let mut recorder = Recorder::new();
    recorder
        .tick(Ok(vec![hidpi_display("1", 64, 48, 2)]), 1_700_000_000)
        .expect("capture tick");

    let (path, manifest) = recorder.disk.manifests.iter().next().expect("manifest");
    assert!(path.ends_with(".mp4.json"));
    assert_eq!(manifest.width, 128);
    assert_eq!(manifest.height, 96);
    assert_eq!(manifest.scale_factor_milli, 2000);
    assert_eq!(recorder.disk.sizes, vec![(128, 96, 1)]);
}

#[test]
fn segment_files_are_flat_utc_timestamped_files() {
    let mut recorder = Recorder::new();
    let first = chrono::DateTime::parse_from_rfc3339("2026-03-23T23:59:59Z").expect("parse");
    let second = chrono::DateTime::parse_from_rfc3339("2026-03-24T00:00:01Z").expect("parse");
    recorder
        .tick(Ok(vec![display("1", 64, 48)]), first.timestamp())
        .expect("first capture");
    recorder
        .tick(Ok(vec![display("1", 64, 48)]), second.timestamp())
        .expect("second capture");

    let mut segment_files: Vec<String> = recorder
        .disk
        .videos
        .iter()
        .cloned()
        .collect();
    segment_files.sort();
    assert_eq!(
        segment_files,
        vec![
            "2026-03-23T23-59-59Z-display-1.mp4".to_string(),
            "2026-03-24T00-00-01Z-display-1.mp4".to_string(),
        ]
    );
}

fn old_manifest() -> SegmentManifest {
    SegmentManifest {
        version: 1,
        display_id: "1".to_string(),
        display_name: "Display 1".to_string(),
        width: 64,
        height: 48,
        rotation_millidegrees: 0,
        scale_factor_milli: 1000,
        segment_started_at: 1_700_000_000,
        started_reason: SegmentReason::Started,
        frame_count: 1,
        newest_frame_at: Some(1_700_000_000),
    }
}

#[test]
fn prune_removes_old_segments() {
    let old_segment = "/tmp/x/2026-03-20T00-00-00Z-display-1.mp4";
    let old_manifest_path = format!(
        "{}.{MANIFEST_FILE_EXTENSION}",
        old_segment.strip_suffix(".mp4").expect("video")
    );
    let files = vec![ManifestFile {
        path: old_manifest_path.clone(),
        manifest: Some(old_manifest()),
    }];

    let late = CaptureTime::from_timestamp(1_700_000_000 + RETENTION_SECONDS + 1).expect("time");
    let removed = prune_old_segments(&files, &late);

    assert!(removed.contains(&old_segment.to_string()));
    assert!(removed.contains(&old_manifest_path));
    assert_eq!(
        removed,
        vec![
            old_segment.to_string(),
            "/tmp/x/2026-03-20T00-00-00Z-display-1-latest.jpg".to_string(),
            "/tmp/x/2026-03-20T00-00-00Z-display-1.ocr.jsonl".to_string(),
            old_manifest_path,
        ]
    );
    let in_time = CaptureTime::from_timestamp(1_700_000_000 + RETENTION_SECONDS).expect("time");
    assert!(prune_old_segments(&files, &in_time).is_empty());
}

#[test]
fn prune_skips_what_it_cannot_read() {
    let late = CaptureTime::from_timestamp(1_800_000_000).expect("time");
    let mut unwritten = old_manifest();
    unwritten.newest_frame_at = None;
    let files = vec![
        ManifestFile {
            path: "/r/a.mp4.json".to_string(),
            manifest: None,
        },
        ManifestFile {
            path: "/r/notes.json".to_string(),
            manifest: Some(old_manifest()),
        },
        ManifestFile {
            path: "/r/.mp4.json".to_string(),
            manifest: Some(unwritten),
        },
    ];
    assert_eq!(
        prune_old_segments(&files, &late),
        vec!["/r/.mp4", "/r/.mp4-latest.jpg", "/r/.mp4.ocr.jsonl", "/r/.mp4.json"]
    );
}

#[test]
fn writes_deduped_ocr_history_per_segment() {
    let final_second = (OCR_FRAME_INTERVAL * 2) as i64;
    let mut recorder = Recorder::new();
    recorder.texts = vec![
        text("Terminal\ncargo test"),
        text("Terminal\ncargo test"),
        text("Terminal\ncargo test -p codex-app-server"),
    ];
    for second in 0..=final_second {
        recorder
            .tick(Ok(vec![display("1", 64, 48)]), 1_700_000_000 + second)
            .expect("capture tick");
    }

    for (path, _) in &recorder.disk.records {
        assert_eq!(path, "2023-11-14T22-13-20Z-display-1.ocr.jsonl");
    }
    let ocr_records: Vec<OcrFrameRecord> = recorder
        .disk
        .records
        .into_iter()
        .map(|(_, record)| record)
        .collect();
    assert_eq!(
        ocr_records,
        vec![
            OcrFrameRecord {
                version: 1,
                display_id: "1".to_string(),
                segment_started_at: 1_700_000_000,
                captured_at: 1_700_000_000,
                frame_index: 0,
                full_text: "Terminal\ncargo test".to_string(),
            },
            OcrFrameRecord {
                version: 1,
                display_id: "1".to_string(),
                segment_started_at: 1_700_000_000,
                captured_at: 1_700_000_000 + final_second,
                frame_index: OCR_FRAME_INTERVAL * 2,
                full_text: "Terminal\ncargo test -p codex-app-server".to_string(),
            },
        ]
    );
}

#[test]
fn backend_errors_propagate() {
    let mut recorder = Recorder::new();
    let error = recorder
        .tick(
            Err(CaptureBackendFailure {
                kind: CaptureBackendFailureKind::PermissionRequired,
                permission: ScreenRecordingPermission::Required,
                message: "permission required".to_string(),
            }),
            1_700_000_000,
        )
        .expect_err("capture should fail");
    assert_eq!(error.message, "permission required");
    assert_eq!(error.kind, CaptureBackendFailureKind::PermissionRequired);
}

#[test]
fn third_missed_tick_ends_a_stream() {
    let mut recorder = Recorder::new();
    let at = 1_700_000_000;
    let first = recorder
        .tick(Ok(vec![display("1", 4, 4), display("2", 4, 4)]), at)
        .expect("tick");
    assert_eq!(
        first,
        CaptureTickOutcome {
            captured_display_count: 2,
            newest_frame_at: Some(at),
        }
    );
    for missed in 1..=2 {
        let outcome = recorder
            .tick(Ok(vec![display("2", 4, 4)]), at + missed as i64)
            .expect("tick");
        assert_eq!(outcome.captured_display_count, 1);
        assert_eq!(
            recorder.state().stream("1").expect("stream").missed_ticks,
            missed
        );
    }
    let empty = recorder.tick(Ok(vec![]), at + 3).expect("tick");
    assert_eq!(
        empty,
        CaptureTickOutcome {
            captured_display_count: 0,
            newest_frame_at: None,
        }
    );
    assert!(recorder.state().stream("1").is_none());
    assert!(recorder.state().is_known("1"));
    assert_eq!(recorder.state().len(), 1);

    recorder
        .tick(Ok(vec![display("1", 4, 4)]), at + 4)
        .expect("tick");
    let back = &recorder.disk.manifests["2023-11-14T22-13-24Z-display-1.mp4.json"];
    assert_eq!(back.started_reason, SegmentReason::Hotplugged);
}

#[test]
fn manifests_count_frames() {
    let mut recorder = Recorder::new();
    for second in 0..3 {
        recorder
            .tick(Ok(vec![display("1", 4, 4)]), 1_700_000_000 + second)
            .expect("tick");
    }
    let manifest = recorder.disk.manifests.values().next().expect("manifest");
    assert_eq!(recorder.disk.manifests.len(), 1);
    assert_eq!(manifest.frame_count, 3);
    assert_eq!(manifest.newest_frame_at, Some(1_700_000_002));
    assert_eq!(manifest.segment_started_at, 1_700_000_000);
}

#[test]
fn half_hours_rotate_segments() {
    let mut recorder = Recorder::new();
    let bucket = 1_699_999_200;
    for seconds in [bucket + 1798, bucket + 1799, bucket + 1800] {
        recorder
            .tick(Ok(vec![display("1", 4, 4)]), seconds)
            .expect("tick");
    }
    let reasons: Vec<SegmentReason> = recorder
        .disk
        .manifests
        .values()
        .map(|manifest| manifest.started_reason)
        .collect();
    assert_eq!(reasons, vec![SegmentReason::Started, SegmentReason::Rotated]);
}

#[test]
fn failed_open_keeps_the_sighting() {
    let mut recorder = Recorder::new();
    recorder.fail_at = Some("open");
    let failure = recorder
        .tick(Ok(vec![display("1", 4, 4)]), 1_700_000_000)
        .expect_err("failure");
    assert_eq!(failure.kind, CaptureBackendFailureKind::Other);
    assert_eq!(failure.message, "cannot open");
    assert!(recorder.state().is_known("1"));
    assert!(recorder.state().stream("1").is_none());

    recorder.fail_at = None;
    recorder
        .tick(Ok(vec![display("1", 4, 4)]), 1_700_000_001)
        .expect("tick");
    recorder.fail_at = Some("encode");
    assert!(recorder
        .tick(Ok(vec![display("1", 4, 4)]), 1_700_000_002)
        .is_err());
    let stream = recorder.state().stream("1").expect("stream");
    assert_eq!(stream.segment.frame_index, 1);
}

#[test]
fn empty_and_repeated_text_is_not_recorded() {
    let mut recorder = Recorder::new();
    recorder.texts = vec![text(" \n\t"), text(" a \n\n b"), text("a\nb  "), None, text("b")];
    for second in 0..5 {
        recorder
            .tick(Ok(vec![display("1", 4, 4)]), 1_700_000_000 + second)
            .expect("tick");
    }
    let texts: Vec<&str> = recorder
        .disk
        .records
        .iter()
        .map(|(_, record)| record.full_text.as_str())
        .collect();
    assert_eq!(texts, vec!["a\nb", "b"]);
}

#[test]
fn files_beside_a_manifest_are_the_planned_ones() {
    let at = CaptureTime::from_timestamp(1_774_310_399).expect("time");
    let plan = plan_segment(&display("7.5", 4, 4), &at, SegmentReason::Rotated);
    assert_eq!(
        plan.manifest_path,
        "2026-03-23T23-59-59Z-display-7.5.mp4.json"
    );
    let below = |path: &String| format!("/home/recording/{path}");
    let manifest_path = below(&plan.manifest_path);
    assert!(is_manifest_path(&manifest_path));
    assert_eq!(
        segment_path_for_manifest(&manifest_path),
        Some(below(&plan.segment_path))
    );
    assert_eq!(
        latest_frame_path_for_segment(&manifest_path),
        below(&plan.latest_frame_path)
    );
    assert_eq!(ocr_path_for_segment(&manifest_path), below(&plan.ocr_path));
    assert_eq!(
        latest_frame_temp_path(&below(&plan.latest_frame_path)),
        "/home/recording/2026-03-23T23-59-59Z-display-7.5-latest.jpg.tmp"
    );
    assert_eq!(segment_path_for_manifest("/x/notes.txt"), None);
}

#[test]
fn instants_have_dates_and_buckets() {
    let at = CaptureTime::from_timestamp(1_774_310_399).expect("time");
    assert_eq!(at.utc(), "2026-03-23T23-59-59Z");
    assert_eq!(at.timestamp(), 1_774_310_399);
    assert_eq!(bucket_start_at(&at), 1_774_308_600);
    let before = CaptureTime::from_timestamp(-1).expect("time");
    assert_eq!(before.utc(), "1969-12-31T23-59-59Z");
    assert_eq!(bucket_start_at(&before), 0);
    assert!(CaptureTime::from_timestamp(i64::MAX).is_none());
}

#[test]
fn display_that_appears_twice_counts_once() {
    let mut recorder = Recorder::new();
    let outcome = recorder
        .tick(
            Ok(vec![display("1", 4, 4), display("1", 4, 4), display("2", 4, 4)]),
            1_700_000_000,
        )
        .expect("tick");
    assert_eq!(outcome.captured_display_count, 2);
    assert_eq!(recorder.state().len(), 2);
    let stream = recorder.state().stream("1").expect("stream");
    assert_eq!(stream.segment.frame_index, 2);
    assert_eq!(stream.segment.encoder.frames.len(), 2);
}

#[test]
fn failed_tick_leaves_other_displays_alone() {
    let mut recorder = Recorder::new();
    recorder
        .tick(
            Ok(vec![display("1", 4, 4), display("2", 4, 4)]),
            1_700_000_000,
        )
        .expect("tick");
    recorder.fail_at = Some("encode");
    assert!(recorder
        .tick(Ok(vec![display("2", 4, 4)]), 1_700_000_001)
        .is_err());
    let other = recorder.state().stream("1").expect("stream");
    assert_eq!(other.missed_ticks, 0);
    assert_eq!(other.segment.frame_index, 1);
    assert!(recorder.state().is_known("1") && recorder.state().is_known("2"));
}

#[test]
fn prune_leaves_young_segments_whole() {
    let mut young = old_manifest();
    young.newest_frame_at = Some(1_700_030_000);
    let files = vec![
        ManifestFile {
            path: "/r/a.mp4.json".to_string(),
            manifest: Some(old_manifest()),
        },
        ManifestFile {
            path: "/r/a.mp4.mp4.json".to_string(),
            manifest: Some(young),
        },
    ];
    let at = CaptureTime::from_timestamp(1_700_030_001).expect("time");
    let removed = prune_old_segments(&files, &at);
    assert_eq!(removed.len(), 4);
    assert!(!removed.contains(&"/r/a.mp4.mp4.json".to_string()));
    assert!(!removed.contains(&"/r/a.mp4.mp4".to_string()));
}
