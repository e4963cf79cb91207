//! One tick of the recorder, as a machine: it says what is to be done next, and is told what
//! came of it.
use crate::backend::{
    other_failure, CaptureBackendFailure, CapturedDisplay, DisplayView, FailureView,
};
use crate::capture::{
    after_tick, ids_of, is_news, next_u64, opened_segment, present_displays_are_the_captured_ones,
    present_ids, record_of, recorded_displays_are_known, rotation, sighted, switched, views_of,
    with_segment, CaptureState, CaptureView, SegmentState, SegmentView, OCR_FRAME_INTERVAL,
};
use crate::clock::{bucket_of, bucket_start_at, CaptureTime};
use crate::frame::Frame;
use crate::ocr::{normalize_ocr_text, OcrFrameResult};
use crate::segments::{
    plan_segment, planned, with_frame, ManifestView, OcrFrameRecord, PlanView, RecordView,
    SegmentManifest, SegmentPlan, SegmentReason, CAPTURE_FPS,
};
use crate::text::{normalized, normalized_is_idempotent, owned, same_text};
use vstd::prelude::*;

verus! {

/// What a tick came to.
#[derive(Debug, Clone, Copy, PartialEq, Eq, Structural)]
pub struct CaptureTickOutcome {
    pub captured_display_count: u32,
    pub newest_frame_at: Option<i64>,
}

/// What is to be done next. Paths lead from the storage directory on.
#[derive(Debug)]
pub enum TickAction {
    /// Capture all displays.
    CaptureDisplays,
    /// Create the storage directory, with those above it.
    CreateStorageRoot,
    /// Write a manifest.
    WriteManifest { path: String, manifest: SegmentManifest },
    /// Open an encoder that writes to a file.
    OpenEncoder { path: String, width: u32, height: u32, fps: u32 },
    /// Hand the current display's frame to its encoder.
    EncodeFrame,
    /// Look for text on the current display's frame.
    RecognizeText,
    /// Append an entry to a text history.
    AppendRecord { path: String, record: OcrFrameRecord },
    /// Read a manifest.
    ReadManifest { path: String },
    /// Nothing: the tick is over.
    Finish(CaptureTickOutcome),
    /// Nothing: the tick has failed.
    Fail(CaptureBackendFailure),
}

/// An action with its texts as characters.
#[verifier::ext_equal]
pub enum ActionView {
    CaptureDisplays,
    CreateStorageRoot,
    WriteManifest { path: Seq<char>, manifest: ManifestView },
    OpenEncoder { path: Seq<char>, width: u32, height: u32, fps: u32 },
    EncodeFrame,
    RecognizeText,
    AppendRecord { path: Seq<char>, record: RecordView },
    ReadManifest { path: Seq<char> },
    Finish(CaptureTickOutcome),
    Fail(FailureView),
}

impl View for TickAction {
    type V = ActionView;

    open spec fn view(&self) -> ActionView {
        match *self {
            TickAction::CaptureDisplays => ActionView::CaptureDisplays,
            TickAction::CreateStorageRoot => ActionView::CreateStorageRoot,
            TickAction::WriteManifest { path, manifest } => ActionView::WriteManifest {
                path: path@,
                manifest: manifest@,
            },
            TickAction::OpenEncoder { path, width, height, fps } => ActionView::OpenEncoder {
                path: path@,
                width,
                height,
                fps,
            },
            TickAction::EncodeFrame => ActionView::EncodeFrame,
            TickAction::RecognizeText => ActionView::RecognizeText,
            TickAction::AppendRecord { path, record } => ActionView::AppendRecord {
                path: path@,
                record: record@,
            },
            TickAction::ReadManifest { path } => ActionView::ReadManifest { path: path@ },
            TickAction::Finish(outcome) => ActionView::Finish(outcome),
            TickAction::Fail(failure) => ActionView::Fail(failure@),
        }
    }
}

/// What came of an action.
#[derive(Debug)]
pub enum TickEvent<E> {
    DisplaysCaptured(Vec<CapturedDisplay>),
    CaptureFailed(CaptureBackendFailure),
    StorageRootCreated,
    ManifestWritten,
    EncoderOpened(E),
    FrameEncoded,
    TextRecognized(Option<OcrFrameResult>),
    RecordAppended,
    ManifestRead(SegmentManifest),
    /// Anything but a capture failed, with this message.
    Failed(String),
}

/// An event with its texts as characters.
#[verifier::ext_equal]
#[verifier::reject_recursive_types(E)]
pub enum EventView<E> {
    DisplaysCaptured(Seq<DisplayView>),
    CaptureFailed(FailureView),
    StorageRootCreated,
    ManifestWritten,
    EncoderOpened(E),
    FrameEncoded,
    TextRecognized(Option<Seq<char>>),
    RecordAppended,
    ManifestRead(ManifestView),
    Failed(Seq<char>),
}

impl<E> View for TickEvent<E> {
    type V = EventView<E>;

    open spec fn view(&self) -> EventView<E> {
        match *self {
            TickEvent::DisplaysCaptured(displays) => EventView::DisplaysCaptured(
                views_of(displays@),
            ),
            TickEvent::CaptureFailed(failure) => EventView::CaptureFailed(failure@),
            TickEvent::StorageRootCreated => EventView::StorageRootCreated,
            TickEvent::ManifestWritten => EventView::ManifestWritten,
            TickEvent::EncoderOpened(encoder) => EventView::EncoderOpened(encoder),
            TickEvent::FrameEncoded => EventView::FrameEncoded,
            TickEvent::TextRecognized(text) => EventView::TextRecognized(
                match text {
                    Some(result) => Some(result.full_text@),
                    None => None,
                },
            ),
            TickEvent::RecordAppended => EventView::RecordAppended,
            TickEvent::ManifestRead(manifest) => EventView::ManifestRead(manifest@),
            TickEvent::Failed(message) => EventView::Failed(message@),
        }
    }
}

/// Which action a tick is waiting for.
#[derive(Debug)]
pub enum TickPhase {
    Capturing,
    CreatingRoot,
    /// The first manifest of a new segment is being written.
    BeginningSegment(SegmentPlan),
    OpeningEncoder(SegmentPlan),
    Encoding,
    Recognizing,
    /// An entry with this text is being appended.
    Appending(String),
    ReadingManifest,
    WritingManifest,
    Over,
}

/// A phase with its texts as characters.
#[verifier::ext_equal]
pub enum PhaseView {
    Capturing,
    CreatingRoot,
    BeginningSegment(PlanView),
    OpeningEncoder(PlanView),
    Encoding,
    Recognizing,
    Appending(Seq<char>),
    ReadingManifest,
    WritingManifest,
    Over,
}

impl View for TickPhase {
    type V = PhaseView;

    open spec fn view(&self) -> PhaseView {
        match *self {
            TickPhase::Capturing => PhaseView::Capturing,
            TickPhase::CreatingRoot => PhaseView::CreatingRoot,
            TickPhase::BeginningSegment(plan) => PhaseView::BeginningSegment(plan@),
            TickPhase::OpeningEncoder(plan) => PhaseView::OpeningEncoder(plan@),
            TickPhase::Encoding => PhaseView::Encoding,
            TickPhase::Recognizing => PhaseView::Recognizing,
            TickPhase::Appending(text) => PhaseView::Appending(text@),
            TickPhase::ReadingManifest => PhaseView::ReadingManifest,
            TickPhase::WritingManifest => PhaseView::WritingManifest,
            TickPhase::Over => PhaseView::Over,
        }
    }
}

/// A tick: what is being recorded and when, the captured displays, which of them is
/// being recorded, and how far that has come.
#[verifier::ext_equal]
#[verifier::reject_recursive_types(E)]
pub struct TickView<E> {
    pub state: CaptureView<E>,
    pub seconds: i64,
    pub stamp: Seq<char>,
    pub displays: Seq<DisplayView>,
    pub next: int,
    pub phase: PhaseView,
}

// ---------------------------------------------------------------------------------------
// The machine
// ---------------------------------------------------------------------------------------

impl<E> TickView<E> {
    /// The display that is being recorded.
    pub open spec fn display(self) -> DisplayView {
        self.displays[self.next]
    }

    /// The segment that it is recorded into.
    pub open spec fn segment(self) -> SegmentView<E> {
        self.state.streams[self.display().id].segment
    }

    /// The start of the half hour that the tick falls into.
    pub open spec fn bucket(self) -> i64 {
        bucket_of(self.seconds as int) as i64
    }

    /// The tick is over, with nothing left to be done but to report.
    pub open spec fn closed(self, action: ActionView) -> (TickView<E>, ActionView) {
        (TickView { phase: PhaseView::Over, ..self }, action)
    }

    /// All displays are recorded: streams whose display was not captured miss a tick.
    pub open spec fn finished(self) -> (TickView<E>, ActionView) {
        let streams = after_tick(self.state.streams, ids_of(self.displays));
        TickView { state: CaptureView { streams, ..self.state }, ..self }.closed(
            ActionView::Finish(
                CaptureTickOutcome {
                    captured_display_count: (present_ids(streams).len() % 0x1_0000_0000) as u32,
                    newest_frame_at: if self.displays.len() > 0 {
                        Some(self.seconds)
                    } else {
                        None
                    },
                },
            ),
        )
    }

    /// Turns to the next display, which gets a new segment where it needs one.
    pub open spec fn turned(self) -> (TickView<E>, ActionView) {
        if self.next >= self.displays.len() {
            self.finished()
        } else {
            let display = self.display();
            let state = sighted(self.state, display);
            match rotation(self.state, display.id, display.geometry, self.bucket()) {
                Some(reason) => {
                    let plan = planned(display, self.stamp, self.seconds, reason);
                    (
                        TickView { state, phase: PhaseView::BeginningSegment(plan), ..self },
                        ActionView::WriteManifest {
                            path: plan.manifest_path,
                            manifest: plan.manifest,
                        },
                    )
                },
                None => (
                    TickView { state, phase: PhaseView::Encoding, ..self },
                    ActionView::EncodeFrame,
                ),
            }
        }
    }

    /// The current display goes on with `segment`.
    pub open spec fn with(self, segment: SegmentView<E>) -> TickView<E> {
        TickView { state: with_segment(self.state, self.display().id, segment), ..self }
    }

    /// The frame is recorded and counted; the manifest is to be brought up to date.
    pub open spec fn counted(self) -> (TickView<E>, ActionView) {
        let segment = SegmentView {
            frame_index: next_u64(self.segment().frame_index),
            ..self.segment()
        };
        (
            TickView { phase: PhaseView::ReadingManifest, ..self.with(segment) },
            ActionView::ReadManifest { path: segment.manifest_path },
        )
    }

    /// The event is an answer to the action that the tick is waiting for.
    pub open spec fn expects(self, event: EventView<E>) -> bool {
        match self.phase {
            PhaseView::Capturing => event is DisplaysCaptured || event is CaptureFailed,
            PhaseView::CreatingRoot => event is StorageRootCreated || event is Failed,
            PhaseView::BeginningSegment(_) => event is ManifestWritten || event is Failed,
            PhaseView::OpeningEncoder(_) => event is EncoderOpened || event is Failed,
            PhaseView::Encoding => event is FrameEncoded || event is Failed,
            PhaseView::Recognizing => event is TextRecognized || event is Failed,
            PhaseView::Appending(_) => event is RecordAppended || event is Failed,
            PhaseView::ReadingManifest => event is ManifestRead || event is Failed,
            PhaseView::WritingManifest => event is ManifestWritten || event is Failed,
            PhaseView::Over => false,
        }
    }

    /// How the tick goes on after an event that it expects.
    pub open spec fn stepped(self, event: EventView<E>) -> (TickView<E>, ActionView) {
        match (self.phase, event) {
            (_, EventView::Failed(message)) => self.closed(
                ActionView::Fail(other_failure(message)),
            ),
            (_, EventView::CaptureFailed(failure)) => self.closed(ActionView::Fail(failure)),
            (PhaseView::Capturing, EventView::DisplaysCaptured(displays)) => (
                TickView { displays, next: 0, phase: PhaseView::CreatingRoot, ..self },
                ActionView::CreateStorageRoot,
            ),
            (PhaseView::CreatingRoot, _) => self.turned(),
            (PhaseView::BeginningSegment(plan), _) => (
                TickView { phase: PhaseView::OpeningEncoder(plan), ..self },
                ActionView::OpenEncoder {
                    path: plan.segment_path,
                    width: self.display().frame_width,
                    height: self.display().frame_height,
                    fps: CAPTURE_FPS,
                },
            ),
            (PhaseView::OpeningEncoder(plan), EventView::EncoderOpened(encoder)) => (
                TickView {
                    state: switched(
                        self.state,
                        self.display(),
                        opened_segment(plan, self.bucket(), encoder),
                    ),
                    phase: PhaseView::Encoding,
                    ..self
                },
                ActionView::EncodeFrame,
            ),
            (PhaseView::Encoding, _) => if self.segment().frame_index % OCR_FRAME_INTERVAL == 0 {
                (
                    TickView { phase: PhaseView::Recognizing, ..self },
                    ActionView::RecognizeText,
                )
            } else {
                self.counted()
            },
            (PhaseView::Recognizing, EventView::TextRecognized(text)) => match text {
                Some(text) => if is_news(self.segment(), normalized(text)) {
                    (
                        TickView { phase: PhaseView::Appending(normalized(text)), ..self },
                        ActionView::AppendRecord {
                            path: self.segment().ocr_path,
                            record: record_of(
                                self.segment(),
                                self.display().id,
                                self.seconds,
                                normalized(text),
                            ),
                        },
                    )
                } else {
                    self.counted()
                },
                None => self.counted(),
            },
            (PhaseView::Appending(text), _) => self.with(
                SegmentView { last_ocr_text: Some(text), ..self.segment() },
            ).counted(),
            (PhaseView::ReadingManifest, EventView::ManifestRead(manifest)) => (
                TickView { phase: PhaseView::WritingManifest, ..self },
                ActionView::WriteManifest {
                    path: self.segment().manifest_path,
                    manifest: with_frame(manifest, self.segment().frame_index, self.seconds),
                },
            ),
            (PhaseView::WritingManifest, _) => TickView { next: self.next + 1, ..self }.turned(),
            _ => (self, ActionView::CaptureDisplays),
        }
    }

    /// A display has a stream that missed no tick.
    pub open spec fn is_live(self, id: Seq<char>) -> bool {
        self.state.streams.contains_key(id) && self.state.streams[id].missed_ticks == 0
    }

    /// What holds of every tick: each display with a stream is known; the displays that were
    /// already turned to have streams that missed no tick, and so has the current one once its
    /// segment is there.
    pub open spec fn consistent(self) -> bool {
        &&& 0 <= self.next <= self.displays.len()
        &&& forall|id: Seq<char>| #[trigger]
            self.state.streams.contains_key(id) ==> self.state.known.contains(id)
        &&& forall|i: int|
            0 <= i < self.next ==> self.phase is Over || self.is_live(
                (#[trigger] self.displays[i]).id,
            )
        &&& match self.phase {
            PhaseView::Capturing => self.displays.len() == 0,
            PhaseView::CreatingRoot => self.next == 0,
            PhaseView::BeginningSegment(_) | PhaseView::OpeningEncoder(_) => {
                &&& self.next < self.displays.len()
                &&& self.state.known.contains(self.display().id)
            },
            PhaseView::Over => true,
            _ => self.next < self.displays.len() && self.is_live(self.display().id),
        }
    }
}

/// A tick of the recorder. Encoders are `E`s.
#[derive(Debug)]
pub struct CaptureTick<E> {
    state: CaptureState<E>,
    captured_at: CaptureTime,
    displays: Vec<CapturedDisplay>,
    next: usize,
    phase: TickPhase,
}

impl<E> CaptureTick<E> {
    pub closed spec fn model(&self) -> TickView<E> {
        TickView {
            state: self.state@,
            seconds: self.captured_at.seconds(),
            stamp: self.captured_at.stamp(),
            displays: views_of(self.displays@),
            next: self.next as int,
            phase: self.phase@,
        }
    }

    pub closed spec fn wf(&self) -> bool {
        &&& self.state.wf()
        &&& self@.consistent()
    }

    /// The tick at `captured_at`, which begins by capturing all displays.
    pub fn new(state: CaptureState<E>, captured_at: CaptureTime) -> (tick: CaptureTick<E>)
        requires
            state.wf(),
        ensures
            tick.wf(),
            tick@ == (TickView {
                state: state@,
                seconds: captured_at.seconds(),
                stamp: captured_at.stamp(),
                displays: Seq::empty(),
                next: 0,
                phase: PhaseView::Capturing,
            }),
    {
        let tick: CaptureTick<E> = CaptureTick {
            state,
            captured_at,
            displays: Vec::new(),
            next: 0,
            phase: TickPhase::Capturing,
        };
        proof {
            assert(tick@.displays =~= Seq::empty());
            recorded_displays_are_known(state);
        }
        tick
    }

    /// What is being recorded, once the tick is over.
    pub fn into_state(self) -> (state: CaptureState<E>)
        requires
            self.wf(),
        ensures
            state.wf(),
            state@ == self@.state,
    {
        self.state
    }

    /// The current display's frame, while it is being recorded.
    pub fn frame(&self) -> (frame: &Frame)
        requires
            self.wf(),
            self@.next < self@.displays.len(),
        ensures
            frame.spec_width() == self@.display().frame_width,
            frame.spec_height() == self@.display().frame_height,
            frame.pixels() == self@.display().pixels,
    {
        &self.displays[self.next].frame
    }

    /// The current display's frame, and the encoder that it is for.
    pub fn encoder_and_frame(&mut self) -> (parts: (&mut E, &Frame))
        requires
            old(self).wf(),
            old(self)@.phase is Encoding,
        ensures
            *parts.0 == old(self)@.segment().encoder,
            parts.1.spec_width() == old(self)@.display().frame_width,
            parts.1.spec_height() == old(self)@.display().frame_height,
            parts.1.pixels() == old(self)@.display().pixels,
            final(self).wf(),
            final(self)@ == old(self)@.with(
                SegmentView { encoder: *final(parts.0), ..old(self)@.segment() },
            ),
    {
        let display: &CapturedDisplay = &self.displays[self.next];
        (self.state.encoder_mut(display.id.as_str()), &display.frame)
    }
}

impl<E> CaptureTick<E> {
    fn turn(&mut self) -> (action: TickAction)
        requires
            old(self).state.wf(),
            0 <= old(self)@.next <= old(self)@.displays.len(),
            forall|i: int|
                0 <= i < old(self)@.next ==> old(self)@.is_live(
                    (#[trigger] old(self)@.displays[i]).id,
                ),
        ensures
            final(self).wf(),
            (final(self)@, action@) == old(self)@.turned(),
    {
        let ghost before = self@;
        if self.next == self.displays.len() {
            let present: u32 = self.state.end_tick(&self.displays);
            proof {
                recorded_displays_are_known(self.state);
            }
            self.phase = TickPhase::Over;
            let newest_frame_at: Option<i64> = if self.displays.len() > 0 {
                Some(self.captured_at.timestamp())
            } else {
                None
            };
            return TickAction::Finish(
                CaptureTickOutcome { captured_display_count: present, newest_frame_at },
            );
        }
        let display: &CapturedDisplay = &self.displays[self.next];
        let reason: Option<SegmentReason> = self.state.rotate_reason(display, &self.captured_at);
        self.state.sight(display);
        proof {
            let id = before.display().id;
            assert(display@ == before.display());
            recorded_displays_are_known(self.state);
            assert(before.state.streams.contains_key(id) ==> self.state@.streams.contains_key(id));
            assert forall|i: int| 0 <= i < before.next implies self@.is_live(
                (#[trigger] before.displays[i]).id,
            ) by {
                assert(before.is_live(before.displays[i].id));
            }
        }
        match reason {
            Some(reason) => {
                let plan: SegmentPlan = plan_segment(display, &self.captured_at, reason);
                let path: String = owned(plan.manifest_path.as_str());
                let manifest: SegmentManifest = plan.manifest.clone();
                self.phase = TickPhase::BeginningSegment(plan);
                TickAction::WriteManifest { path, manifest }
            },
            None => {
                self.phase = TickPhase::Encoding;
                TickAction::EncodeFrame
            },
        }
    }

    fn count(&mut self) -> (action: TickAction)
        requires
            old(self).state.wf(),
            0 <= old(self)@.next < old(self)@.displays.len(),
            forall|i: int|
                0 <= i <= old(self)@.next ==> old(self)@.is_live(
                    (#[trigger] old(self)@.displays[i]).id,
                ),
        ensures
            final(self).wf(),
            (final(self)@, action@) == old(self)@.counted(),
    {
        let ghost before = self@;
        let id: &str = self.displays[self.next].id.as_str();
        proof {
            assert(id@ == before.display().id);
            assert(before.is_live(before.displays[before.next].id));
        }
        self.state.count_frame(id);
        proof {
            recorded_displays_are_known(self.state);
        }
        let path: String = owned(self.state.stream(id).unwrap().segment.manifest_path.as_str());
        self.phase = TickPhase::ReadingManifest;
        TickAction::ReadManifest { path }
    }

    /// Goes on after an event. Where the tick is over, the action says what it came to.
    pub fn step(&mut self, event: TickEvent<E>) -> (action: TickAction)
        requires
            old(self).wf(),
            old(self)@.expects(event@),
        ensures
            final(self).wf(),
            (final(self)@, action@) == old(self)@.stepped(event@),
    {
        let ghost before = self@;
        let mut phase: TickPhase = TickPhase::Over;
        std::mem::swap(&mut phase, &mut self.phase);
        let failure: Option<CaptureBackendFailure> = match &event {
            TickEvent::Failed(message) => Some(
                CaptureBackendFailure::other(owned(message.as_str())),
            ),
            TickEvent::CaptureFailed(failure) => Some(failure.clone()),
            _ => None,
        };
        if let Some(failure) = failure {
            return TickAction::Fail(failure);
        }
        match (phase, event) {
            (TickPhase::Capturing, TickEvent::DisplaysCaptured(displays)) => {
                self.displays = displays;
                self.next = 0;
                self.phase = TickPhase::CreatingRoot;
                TickAction::CreateStorageRoot
            },
            (TickPhase::CreatingRoot, _) => self.turn(),
            (TickPhase::BeginningSegment(plan), _) => {
                let display: &CapturedDisplay = &self.displays[self.next];
                let path: String = owned(plan.segment_path.as_str());
                let width: u32 = display.frame.width();
                let height: u32 = display.frame.height();
                self.phase = TickPhase::OpeningEncoder(plan);
                TickAction::OpenEncoder { path, width, height, fps: CAPTURE_FPS }
            },
            (TickPhase::OpeningEncoder(plan), TickEvent::EncoderOpened(encoder)) => {
                let segment: SegmentState<E> = SegmentState {
                    manifest_path: plan.manifest_path,
                    latest_frame_path: plan.latest_frame_path,
                    ocr_path: plan.ocr_path,
                    bucket_start_at: bucket_start_at(&self.captured_at),
                    segment_started_at: plan.manifest.segment_started_at,
                    frame_index: 0,
                    last_ocr_text: None,
                    encoder,
                };
                self.state.switch_segment(&self.displays[self.next], segment);
                self.phase = TickPhase::Encoding;
                TickAction::EncodeFrame
            },
            (TickPhase::Encoding, _) => {
                let id: &str = self.displays[self.next].id.as_str();
                let frame_index: u64 = self.state.stream(id).unwrap().segment.frame_index;
                if frame_index % OCR_FRAME_INTERVAL == 0 {
                    self.phase = TickPhase::Recognizing;
                    TickAction::RecognizeText
                } else {
                    self.count()
                }
            },
            (TickPhase::Recognizing, TickEvent::TextRecognized(Some(result))) => {
                let text: String = normalize_ocr_text(&result);
                let display: &CapturedDisplay = &self.displays[self.next];
                let segment: &SegmentState<E> = &self.state.stream(
                    display.id.as_str(),
                ).unwrap().segment;
                let repeated: bool = match &segment.last_ocr_text {
                    Some(last) => same_text(last.as_str(), text.as_str()),
                    None => false,
                };
                if text.as_str().is_empty() || repeated {
                    return self.count();
                }
                let path: String = owned(segment.ocr_path.as_str());
                let record: OcrFrameRecord = OcrFrameRecord {
                    version: 1,
                    display_id: owned(display.id.as_str()),
                    segment_started_at: segment.segment_started_at,
                    captured_at: self.captured_at.timestamp(),
                    frame_index: segment.frame_index,
                    full_text: owned(text.as_str()),
                };
                self.phase = TickPhase::Appending(text);
                TickAction::AppendRecord { path, record }
            },
            (TickPhase::Recognizing, _) => self.count(),
            (TickPhase::Appending(text), _) => {
                self.state.note_text(self.displays[self.next].id.as_str(), text);
                self.count()
            },
            (TickPhase::ReadingManifest, TickEvent::ManifestRead(read)) => {
                let id: &str = self.displays[self.next].id.as_str();
                let segment: &SegmentState<E> = &self.state.stream(id).unwrap().segment;
                let mut manifest: SegmentManifest = read;
                manifest.frame_count = segment.frame_index;
                manifest.newest_frame_at = Some(self.captured_at.timestamp());
                let path: String = owned(segment.manifest_path.as_str());
                self.phase = TickPhase::WritingManifest;
                TickAction::WriteManifest { path, manifest }
            },
            (TickPhase::WritingManifest, _) => {
                proof {
                    assert(self.next < self.displays.len());
                }
                self.next += 1;
                self.turn()
            },
            (_, _) => TickAction::CaptureDisplays,
        }
    }
}

impl<E> View for CaptureTick<E> {
    type V = TickView<E>;

    open spec fn view(&self) -> TickView<E> {
        self.model()
    }
}

// ---------------------------------------------------------------------------------------
// Laws
// ---------------------------------------------------------------------------------------

impl<E> TickView<E> {
    /// An upper bound on the steps that are left once the displays are captured.
    pub open spec fn steps_left(self) -> int {
        let displays = 7 * (self.displays.len() - self.next);
        match self.phase {
            PhaseView::Capturing | PhaseView::CreatingRoot => displays + 1,
            PhaseView::BeginningSegment(_) => displays,
            PhaseView::OpeningEncoder(_) => displays - 1,
            PhaseView::Encoding => displays - 2,
            PhaseView::Recognizing => displays - 3,
            PhaseView::Appending(_) => displays - 4,
            PhaseView::ReadingManifest => displays - 5,
            PhaseView::WritingManifest => displays - 6,
            PhaseView::Over => 0,
        }
    }
}

/// A tick stays consistent with each step.
pub proof fn steps_keep_consistency<E>(tick: TickView<E>, event: EventView<E>)
    requires
        tick.consistent(),
        tick.expects(event),
    ensures
        tick.stepped(event).0.consistent(),
{
    let after = tick.stepped(event).0;
    assert forall|i: int| 0 <= i < after.next implies after.phase is Over || after.is_live(
        (#[trigger] after.displays[i]).id,
    ) by {
        if i < tick.next {
            assert(tick.is_live(tick.displays[i].id));
        }
    }
    assert forall|id: Seq<char>| #[trigger]
        after.state.streams.contains_key(id) implies after.state.known.contains(id) by {
        assert(tick.state.streams.contains_key(id) ==> tick.state.known.contains(id));
    }
}

/// Every tick is consistent.
pub proof fn ticks_are_consistent<E>(tick: CaptureTick<E>)
    requires
        tick.wf(),
    ensures
        tick@.consistent(),
{
}

/// Each action says which answer the tick waits for.
pub proof fn action_tells_the_phase<E>(tick: TickView<E>, event: EventView<E>)
    requires
        tick.consistent(),
        tick.expects(event),
    ensures
        ({
            let (after, action) = tick.stepped(event);
            match action {
                ActionView::CaptureDisplays => false,
                ActionView::CreateStorageRoot => after.phase is CreatingRoot,
                ActionView::WriteManifest { .. } => after.phase is BeginningSegment || after.phase
                    is WritingManifest,
                ActionView::OpenEncoder { .. } => after.phase is OpeningEncoder,
                ActionView::EncodeFrame => after.phase is Encoding,
                ActionView::RecognizeText => after.phase is Recognizing,
                ActionView::AppendRecord { .. } => after.phase is Appending,
                ActionView::ReadManifest { .. } => after.phase is ReadingManifest,
                ActionView::Finish(_) | ActionView::Fail(_) => after.phase is Over,
            }
        }),
{
}

/// Once the displays are captured, every step brings the tick closer to its end.
pub proof fn tick_comes_to_an_end<E>(tick: TickView<E>, event: EventView<E>)
    requires
        tick.consistent(),
        tick.expects(event),
        !(tick.phase is Capturing),
    ensures
        0 <= tick.stepped(event).0.steps_left() < tick.steps_left(),
{
}

/// Until a tick finishes, it leaves the streams of displays alone that were not captured, and
/// it never forgets a display.
pub proof fn other_displays_are_left_alone<E>(
    tick: TickView<E>,
    event: EventView<E>,
    id: Seq<char>,
)
    requires
        tick.consistent(),
        tick.expects(event),
        !ids_of(tick.displays).contains(id),
    ensures
        ({
            let (after, action) = tick.stepped(event);
            &&& tick.state.known.subset_of(after.state.known)
            &&& !(action is Finish) ==> {
                &&& after.state.streams.contains_key(id) == tick.state.streams.contains_key(id)
                &&& tick.state.streams.contains_key(id) ==> after.state.streams[id]
                    == tick.state.streams[id]
            }
        }),
{
    if tick.next < tick.displays.len() {
        assert(tick.displays[tick.next].id != id);
    }
    if tick.next + 1 < tick.displays.len() {
        assert(tick.displays[tick.next + 1].id != id);
    }
}

/// What went wrong is all that a failure changes.
pub proof fn failure_keeps_what_is_recorded<E>(tick: TickView<E>, event: EventView<E>)
    requires
        tick.expects(event),
        event is Failed || event is CaptureFailed,
    ensures
        tick.stepped(event).0 == (TickView { phase: PhaseView::Over, ..tick }),
        event matches EventView::Failed(message) ==> tick.stepped(event).1 == ActionView::Fail(
            other_failure(message),
        ),
        event matches EventView::CaptureFailed(failure) ==> tick.stepped(event).1
            == ActionView::Fail(failure),
{
}

/// A tick that finishes reports as many displays as it captured, modulo what 32 bits can hold,
/// and its own time where it captured any.
pub proof fn finished_tick_counts_captured_displays<E>(tick: TickView<E>, event: EventView<E>)
    requires
        tick.consistent(),
        tick.expects(event),
        tick.stepped(event).1 is Finish,
    ensures
        tick.stepped(event).1 == ActionView::Finish(
            CaptureTickOutcome {
                captured_display_count: (ids_of(tick.displays).len() % 0x1_0000_0000) as u32,
                newest_frame_at: if tick.displays.len() > 0 {
                    Some(tick.seconds)
                } else {
                    None
                },
            },
        ),
{
    let seen = ids_of(tick.displays);
    assert forall|id: Seq<char>| #[trigger] seen.contains(id) implies tick.is_live(id) by {
        let i = choose|i: int|
            0 <= i < tick.displays.len() && (#[trigger] tick.displays[i]).id == id;
        if i < tick.next {
            assert(tick.is_live(tick.displays[i].id));
        } else {
            assert(i == tick.next);
        }
    }
    present_displays_are_the_captured_ones(tick.state.streams, seen);
}

/// A frame that is encoded is counted, and the manifest then says so: it gets the new count and
/// the tick's time, and keeps all else.
pub proof fn recorded_frame_is_counted<E>(tick: TickView<E>, manifest: ManifestView)
    requires
        tick.consistent(),
        tick.phase is ReadingManifest,
    ensures
        tick.stepped(EventView::ManifestRead(manifest)).1 == (ActionView::WriteManifest {
            path: tick.segment().manifest_path,
            manifest: ManifestView {
                frame_count: tick.segment().frame_index,
                newest_frame_at: Some(tick.seconds),
                ..manifest
            },
        }),
        forall|before: TickView<E>, event: EventView<E>|
            #![trigger before.stepped(event)]
            before.consistent() && before.expects(event) && !(before.phase is ReadingManifest)
                && before.stepped(event).0 == tick ==> tick.segment().frame_index == next_u64(
                before.segment().frame_index,
            ),
{
}

/// Where all goes well and no text is found, recording a display's frame counts it, writes the
/// count down and turns to the next display; nothing else changes.
pub proof fn display_is_recorded_once<E>(tick: TickView<E>, manifest: ManifestView)
    requires
        tick.consistent(),
        tick.phase is Encoding,
    ensures
        ({
            let (recognizing, _) = tick.stepped(EventView::FrameEncoded);
            let (reading, _) = recognizing.stepped(EventView::TextRecognized(None));
            let (writing, action) = reading.stepped(EventView::ManifestRead(manifest));
            let segment = SegmentView {
                frame_index: next_u64(tick.segment().frame_index),
                ..tick.segment()
            };
            &&& action == (ActionView::WriteManifest {
                path: tick.segment().manifest_path,
                manifest: with_frame(manifest, segment.frame_index, tick.seconds),
            })
            &&& writing.state == with_segment(tick.state, tick.display().id, segment)
            &&& writing.stepped(EventView::ManifestWritten) == (TickView {
                next: tick.next + 1,
                ..writing
            }).turned()
        }),
{
    let (recognizing, _) = tick.stepped(EventView::FrameEncoded);
    assert(recognizing.phase is Recognizing);
}

/// An entry that is appended to a segment's history says something, in normal form, and not
/// what the entry before says; the segment remembers it.
pub proof fn history_never_repeats<E>(tick: TickView<E>, text: Seq<char>)
    requires
        tick.consistent(),
        tick.phase is Recognizing,
        tick.stepped(EventView::TextRecognized(Some(text))).1 is AppendRecord,
    ensures
        ({
            let (appending, action) = tick.stepped(EventView::TextRecognized(Some(text)));
            let record = action->AppendRecord_record;
            let (counted, _) = appending.stepped(EventView::RecordAppended);
            &&& action->AppendRecord_path == tick.segment().ocr_path
            &&& record.full_text == normalized(text)
            &&& normalized(record.full_text) == record.full_text
            &&& record.full_text.len() > 0
            &&& tick.segment().last_ocr_text != Some(record.full_text)
            &&& counted.segment().last_ocr_text == Some(record.full_text)
        }),
{
    normalized_is_idempotent(text);
}

/// A stream's segment remembers the last entry of its history until another is appended, or a
/// new segment takes its place.
pub proof fn last_entry_is_remembered<E>(tick: TickView<E>, event: EventView<E>, id: Seq<char>)
    requires
        tick.consistent(),
        tick.expects(event),
        tick.state.streams.contains_key(id),
        tick.stepped(event).0.state.streams.contains_key(id),
    ensures
        ({
            let before = tick.state.streams[id].segment.last_ocr_text;
            let after = tick.stepped(event).0.state.streams[id].segment.last_ocr_text;
            ||| after == before
            ||| {
                &&& tick.phase matches PhaseView::Appending(text)
                &&& event is RecordAppended
                &&& id == tick.display().id
                &&& after == Some(text)
            }
            ||| {
                &&& tick.phase is OpeningEncoder
                &&& event is EncoderOpened
                &&& id == tick.display().id
                &&& after is None
            }
        }),
{
}

/// A new segment begins without frames and without history.
pub proof fn new_segment_begins_empty<E>(tick: TickView<E>, encoder: E)
    requires
        tick.consistent(),
        tick.phase is OpeningEncoder,
    ensures
        ({
            let (after, action) = tick.stepped(EventView::EncoderOpened(encoder));
            &&& action is EncodeFrame
            &&& after.segment().encoder == encoder
            &&& after.segment().frame_index == 0
            &&& after.segment().last_ocr_text is None
            &&& after.segment().bucket_start_at == tick.bucket()
            &&& after.is_live(tick.display().id)
        }),
{
}

/// A text that says something, and is not letter for letter the last entry of the segment's
/// history, is appended to the history: in normal form, with the display, the segment's start,
/// the tick's time and the frame's number. Where there is no entry yet, any such text is.
pub proof fn new_text_is_appended<E>(tick: TickView<E>, text: Seq<char>)
    requires
        tick.consistent(),
        tick.phase is Recognizing,
        normalized(text).len() > 0,
        ({
            let id = tick.displays[tick.next].id;
            tick.state.streams[id].segment.last_ocr_text matches Some(last) ==> last != normalized(
                text,
            )
        }),
    ensures
        ({
            let id = tick.displays[tick.next].id;
            let segment = tick.state.streams[id].segment;
            let (after, action) = tick.stepped(EventView::TextRecognized(Some(text)));
            &&& action == (ActionView::AppendRecord {
                path: segment.ocr_path,
                record: RecordView {
                    version: 1,
                    display_id: id,
                    segment_started_at: segment.segment_started_at,
                    captured_at: tick.seconds,
                    frame_index: segment.frame_index,
                    full_text: normalized(text),
                },
            })
            &&& after == (TickView { phase: PhaseView::Appending(normalized(text)), ..tick })
        }),
{
}

/// Where no text is found, or one that says nothing or just what the history ends with, nothing
/// is appended: the frame is counted, and the history's last entry stays.
pub proof fn stale_text_is_not_appended<E>(tick: TickView<E>, text: Option<Seq<char>>)
    requires
        tick.consistent(),
        tick.phase is Recognizing,
        text matches Some(text) ==> normalized(text).len() == 0
            || tick.state.streams[tick.displays[tick.next].id].segment.last_ocr_text == Some(
            normalized(text),
        ),
    ensures
        ({
            let id = tick.displays[tick.next].id;
            let segment = tick.state.streams[id].segment;
            let (after, action) = tick.stepped(EventView::TextRecognized(text));
            &&& action == (ActionView::ReadManifest { path: segment.manifest_path })
            &&& after.phase is ReadingManifest
            &&& after.state.streams[id].segment == (SegmentView {
                frame_index: after.state.streams[id].segment.frame_index,
                ..segment
            })
            &&& segment.frame_index < u64::MAX ==> after.state.streams[id].segment.frame_index
                == segment.frame_index + 1
            &&& segment.frame_index == u64::MAX ==> after.state.streams[id].segment.frame_index
                == u64::MAX
        }),
{
}

/// Once an entry is appended, the segment remembers its text, and the frame is counted.
pub proof fn appended_text_is_remembered<E>(tick: TickView<E>, text: Seq<char>)
    requires
        tick.consistent(),
        tick.phase == PhaseView::Appending(text),
    ensures
        ({
            let id = tick.displays[tick.next].id;
            let segment = tick.state.streams[id].segment;
            let (after, action) = tick.stepped(EventView::RecordAppended);
            &&& action == (ActionView::ReadManifest { path: segment.manifest_path })
            &&& after.phase is ReadingManifest
            &&& after.state.streams[id].segment == (SegmentView {
                frame_index: after.state.streams[id].segment.frame_index,
                last_ocr_text: Some(text),
                ..segment
            })
            &&& segment.frame_index < u64::MAX ==> after.state.streams[id].segment.frame_index
                == segment.frame_index + 1
            &&& segment.frame_index == u64::MAX ==> after.state.streams[id].segment.frame_index
                == u64::MAX
        }),
{
}

/// Two frames with different texts, one after the other in a segment, give two entries; two with
/// the same text give one.
pub proof fn history_follows_the_text<E>(
    tick: TickView<E>,
    later: TickView<E>,
    first: Seq<char>,
    second: Seq<char>,
)
    requires
        tick.consistent(),
        tick.phase == PhaseView::Appending(normalized(first)),
        later.consistent(),
        later.phase is Recognizing,
        normalized(second).len() > 0,
        later.state.streams[later.displays[later.next].id].segment.last_ocr_text
            == tick.stepped(EventView::RecordAppended).0.state.streams[tick.displays[tick.next].id].segment.last_ocr_text,
    ensures
        later.stepped(EventView::TextRecognized(Some(second))).1 is AppendRecord <==> normalized(
            first,
        ) != normalized(second),
{
    appended_text_is_remembered(tick, normalized(first));
}

/// Every frame that was encoded is searched for text; nothing else changes meanwhile.
pub proof fn every_frame_is_searched_for_text<E>(tick: TickView<E>)
    requires
        tick.consistent(),
        tick.phase is Encoding,
    ensures
        tick.stepped(EventView::FrameEncoded) == (
            TickView { phase: PhaseView::Recognizing, ..tick },
            ActionView::RecognizeText,
        ),
{
}

/// A capture hands the tick its displays, in their order; the storage directory comes first, and
/// the first display next.
pub proof fn capture_begins_with_the_first_display<E>(
    tick: TickView<E>,
    displays: Seq<DisplayView>,
)
    requires
        tick.phase is Capturing,
    ensures
        tick.stepped(EventView::DisplaysCaptured(displays)) == (
            TickView { displays, next: 0, phase: PhaseView::CreatingRoot, ..tick },
            ActionView::CreateStorageRoot,
        ),
{
}

/// The tick turns to its displays one by one, in the order in which they were captured: to the
/// first once the directory is there, and to the next one once a manifest is brought up to date.
/// After the last one it finishes.
pub proof fn displays_come_in_their_order<E>(tick: TickView<E>, event: EventView<E>)
    requires
        tick.consistent(),
        tick.expects(event),
        tick.phase is CreatingRoot && event is StorageRootCreated || tick.phase is WritingManifest
            && event is ManifestWritten,
    ensures
        ({
            let (after, action) = tick.stepped(event);
            let next = if tick.phase is CreatingRoot {
                0
            } else {
                tick.next + 1
            };
            &&& after.displays == tick.displays
            &&& after.seconds == tick.seconds
            &&& after.stamp == tick.stamp
            &&& after.next == next
            &&& action is Finish <==> next == tick.displays.len()
            &&& action is Finish || action is EncodeFrame || action is WriteManifest
        }),
{
}

/// A display that has a stream with the geometry it is captured with, begun in this half hour,
/// goes on in its segment: its frame is encoded at once.
pub proof fn recorded_display_goes_on<E>(tick: TickView<E>, event: EventView<E>, next: int)
    requires
        tick.consistent(),
        tick.phase is CreatingRoot && event is StorageRootCreated && next == 0 || tick.phase
            is WritingManifest && event is ManifestWritten && next == tick.next + 1,
        next < tick.displays.len(),
        tick.state.streams.contains_key(tick.displays[next].id),
        tick.state.streams[tick.displays[next].id].geometry == tick.displays[next].geometry,
        tick.state.streams[tick.displays[next].id].segment.bucket_start_at == bucket_of(
            tick.seconds as int,
        ),
    ensures
        ({
            let id = tick.displays[next].id;
            let (after, action) = tick.stepped(event);
            &&& action is EncodeFrame
            &&& after.phase is Encoding
            &&& after.state.streams.contains_key(id)
            &&& after.state.streams[id].segment == tick.state.streams[id].segment
            &&& after.state.streams[id].missed_ticks == 0
            &&& after.state.streams[id].name == tick.displays[next].name
            &&& after.state.streams.dom() == tick.state.streams.dom()
        }),
{
    let after = tick.stepped(event).0;
    assert(after.state.streams.dom() =~= tick.state.streams.dom());
}

/// Any other display gets a segment of its own: first its manifest is written, under the
/// segment's name and without frames. The segment that the display had, where it had one, is
/// kept until the new one's encoder is open.
pub proof fn other_display_gets_a_segment<E>(tick: TickView<E>, event: EventView<E>, next: int)
    requires
        tick.consistent(),
        tick.phase is CreatingRoot && event is StorageRootCreated && next == 0 || tick.phase
            is WritingManifest && event is ManifestWritten && next == tick.next + 1,
        next < tick.displays.len(),
        ({
            let id = tick.displays[next].id;
            let stream = tick.state.streams[id];
            ||| !tick.state.streams.contains_key(id)
            ||| stream.geometry != tick.displays[next].geometry
            ||| stream.segment.bucket_start_at != bucket_of(tick.seconds as int)
        }),
        !tick.displays[next].id.contains('/'),
        !tick.stamp.contains('/'),
    ensures
        ({
            let display = tick.displays[next];
            let name = tick.stamp + "-display-"@ + display.id;
            let (after, action) = tick.stepped(event);
            &&& action matches ActionView::WriteManifest { path, manifest }
            &&& path == name + ".mp4.json"@
            &&& manifest.version == 1
            &&& manifest.display_id == display.id
            &&& manifest.display_name == display.name
            &&& manifest.width == display.frame_width
            &&& manifest.height == display.frame_height
            &&& manifest.rotation_millidegrees == display.geometry.rotation_millidegrees
            &&& manifest.scale_factor_milli == display.geometry.scale_factor_milli
            &&& manifest.segment_started_at == tick.seconds
            &&& manifest.frame_count == 0
            &&& manifest.newest_frame_at is None
            &&& manifest.started_reason == (if tick.state.streams.contains_key(display.id) {
                if tick.state.streams[display.id].geometry != display.geometry {
                    SegmentReason::GeometryChanged
                } else {
                    SegmentReason::Rotated
                }
            } else if tick.state.known.contains(display.id) {
                SegmentReason::Hotplugged
            } else {
                SegmentReason::Started
            })
            &&& after.phase matches PhaseView::BeginningSegment(plan)
            &&& plan.segment_path == name + ".mp4"@
            &&& plan.manifest_path == path
            &&& plan.ocr_path == name + ".ocr.jsonl"@
            &&& plan.latest_frame_path == name + "-latest.jpg"@
            &&& plan.manifest == manifest
            &&& after.state.known.contains(display.id)
            &&& tick.state.streams.contains_key(display.id)
                ==> after.state.streams[display.id].segment
                == tick.state.streams[display.id].segment
        }),
{
    let display = tick.displays[next];
    let id = display.id;
    let reason = rotation(tick.state, id, display.geometry, tick.bucket());
    crate::clock::buckets_are_half_hours(
        if tick.seconds >= 0 {
            tick.seconds as int / 1800
        } else {
            (-tick.seconds) / 1800
        },
        if tick.seconds >= 0 {
            tick.seconds as int % 1800
        } else {
            (-tick.seconds) % 1800
        },
    );
    assert(bucket_of(tick.seconds as int) as i64 == bucket_of(tick.seconds as int));
    assert(reason is Some);
    crate::segments::planned_files_share_a_name(display, tick.stamp, tick.seconds, reason->0);
}

/// Once a segment's first manifest is written, an encoder is opened for its video: for frames of
/// the size that was captured, one a second.
pub proof fn encoder_fits_the_frames<E>(tick: TickView<E>, plan: PlanView)
    requires
        tick.consistent(),
        tick.phase == PhaseView::BeginningSegment(plan),
    ensures
        tick.stepped(EventView::ManifestWritten) == (
            TickView { phase: PhaseView::OpeningEncoder(plan), ..tick },
            ActionView::OpenEncoder {
                path: plan.segment_path,
                width: tick.displays[tick.next].frame_width,
                height: tick.displays[tick.next].frame_height,
                fps: 1,
            },
        ),
{
}

/// Once its encoder is open, a segment takes the place of the one before: its display is recorded
/// into the planned files, with the name and geometry it was captured with.
pub proof fn opened_segment_takes_over<E>(tick: TickView<E>, plan: PlanView, encoder: E)
    requires
        tick.consistent(),
        tick.phase == PhaseView::OpeningEncoder(plan),
    ensures
        ({
            let display = tick.displays[tick.next];
            let (after, action) = tick.stepped(EventView::EncoderOpened(encoder));
            let stream = after.state.streams[display.id];
            &&& action is EncodeFrame
            &&& after.phase is Encoding
            &&& after.next == tick.next
            &&& after.state.streams.contains_key(display.id)
            &&& stream.name == display.name
            &&& stream.geometry == display.geometry
            &&& stream.missed_ticks == 0
            &&& stream.segment.manifest_path == plan.manifest_path
            &&& stream.segment.latest_frame_path == plan.latest_frame_path
            &&& stream.segment.ocr_path == plan.ocr_path
            &&& stream.segment.segment_started_at == plan.manifest.segment_started_at
            &&& stream.segment.bucket_start_at == bucket_of(tick.seconds as int) as i64
            &&& stream.segment.encoder == encoder
            &&& stream.segment.frame_index == 0
            &&& stream.segment.last_ocr_text is None
        }),
{
}

/// A tick that finishes counts a missed tick for each stream whose display it did not capture,
/// and ends the stream at the third; all others stay, and so do the known displays. It reports
/// its own time exactly where it captured a display.
pub proof fn finished_tick_ends_missing_streams<E>(
    tick: TickView<E>,
    event: EventView<E>,
    id: Seq<char>,
)
    requires
        tick.consistent(),
        tick.expects(event),
        tick.stepped(event).1 is Finish,
    ensures
        ({
            let (after, action) = tick.stepped(event);
            let before = tick.state.streams;
            let captured = exists|i: int|
                0 <= i < tick.displays.len() && (#[trigger] tick.displays[i]).id == id;
            &&& after.state.known == tick.state.known
            &&& before.contains_key(id) && captured ==> after.state.streams.contains_key(id)
                && after.state.streams[id] == before[id]
            &&& before.contains_key(id) && !captured ==> {
                &&& after.state.streams.contains_key(id) <==> before[id].missed_ticks + 1 < 3
                &&& after.state.streams.contains_key(id) ==> after.state.streams[id]
                    == (crate::capture::StreamView {
                    missed_ticks: (before[id].missed_ticks + 1) as u32,
                    ..before[id]
                })
            }
            &&& !before.contains_key(id) ==> !after.state.streams.contains_key(id)
            &&& tick.displays.len() > 0 ==> action->Finish_0.newest_frame_at == Some(tick.seconds)
            &&& tick.displays.len() == 0 ==> action->Finish_0.newest_frame_at is None
        }),
{
    crate::capture::missed_ticks_are_counted(tick.state.streams, ids_of(tick.displays), id);
}

/// The views of actions and events show all that they hold.
pub proof fn views_show_every_field<E>(action: TickAction, event: TickEvent<E>)
    ensures
        action is CaptureDisplays <==> action@ is CaptureDisplays,
        action is CreateStorageRoot <==> action@ is CreateStorageRoot,
        action is EncodeFrame <==> action@ is EncodeFrame,
        action is RecognizeText <==> action@ is RecognizeText,
        action matches TickAction::WriteManifest { path, manifest } ==> action@ == (
        ActionView::WriteManifest { path: path@, manifest: manifest@ }),
        action matches TickAction::OpenEncoder { path, width, height, fps } ==> action@ == (
        ActionView::OpenEncoder { path: path@, width, height, fps }),
        action matches TickAction::AppendRecord { path, record } ==> action@ == (
        ActionView::AppendRecord { path: path@, record: record@ }),
        action matches TickAction::ReadManifest { path } ==> action@ == (
        ActionView::ReadManifest { path: path@ }),
        action matches TickAction::Finish(outcome) ==> action@ == ActionView::Finish(outcome),
        action matches TickAction::Fail(failure) ==> action@ == ActionView::Fail(failure@),
        event is StorageRootCreated <==> event@ is StorageRootCreated,
        event is ManifestWritten <==> event@ is ManifestWritten,
        event is FrameEncoded <==> event@ is FrameEncoded,
        event is RecordAppended <==> event@ is RecordAppended,
        event matches TickEvent::DisplaysCaptured(displays) ==> event@
            == EventView::<E>::DisplaysCaptured(views_of(displays@)),
        event matches TickEvent::CaptureFailed(failure) ==> event@ == EventView::<
            E,
        >::CaptureFailed(failure@),
        event matches TickEvent::EncoderOpened(encoder) ==> event@ == EventView::EncoderOpened(
            encoder,
        ),
        event matches TickEvent::TextRecognized(Some(result)) ==> event@ == EventView::<
            E,
        >::TextRecognized(Some(result.full_text@)),
        event matches TickEvent::TextRecognized(None) ==> event@ == EventView::<
            E,
        >::TextRecognized(None),
        event matches TickEvent::ManifestRead(manifest) ==> event@ == EventView::<
            E,
        >::ManifestRead(manifest@),
        event matches TickEvent::Failed(message) ==> event@ == EventView::<E>::Failed(message@),
{
}

/// Every action can be answered by its success, and all that follows a capture by a failure.
pub proof fn every_action_can_be_answered<E>(
    tick: TickView<E>,
    displays: Seq<DisplayView>,
    failure: FailureView,
    message: Seq<char>,
    encoder: E,
    text: Option<Seq<char>>,
    manifest: ManifestView,
)
    ensures
        tick.phase is Capturing ==> tick.expects(EventView::DisplaysCaptured(displays))
            && tick.expects(EventView::CaptureFailed(failure)),
        tick.phase is CreatingRoot ==> tick.expects(EventView::StorageRootCreated),
        tick.phase is BeginningSegment ==> tick.expects(EventView::ManifestWritten),
        tick.phase is OpeningEncoder ==> tick.expects(EventView::EncoderOpened(encoder)),
        tick.phase is Encoding ==> tick.expects(EventView::FrameEncoded),
        tick.phase is Recognizing ==> tick.expects(EventView::TextRecognized(text)),
        tick.phase is Appending ==> tick.expects(EventView::RecordAppended),
        tick.phase is ReadingManifest ==> tick.expects(EventView::ManifestRead(manifest)),
        tick.phase is WritingManifest ==> tick.expects(EventView::ManifestWritten),
        !(tick.phase is Capturing) && !(tick.phase is Over) ==> tick.expects(
            EventView::Failed(message),
        ),
{
}

} // verus!
