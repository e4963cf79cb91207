//! The streams of the displays that are being recorded.
use crate::backend::{CapturedDisplay, DisplayGeometry, DisplayView};
use crate::clock::{bucket_of, bucket_start_at, CaptureTime};
use crate::segments::{PlanView, RecordView, SegmentReason};
use crate::text::{opt_text, owned, same_text};
use vstd::prelude::*;

verus! {

/// After so many ticks without it a display's stream ends.
pub const DISPLAY_REMOVAL_MISSED_TICKS: u32 = 3;

/// Text is looked for on every frame whose number is a multiple of this.
pub const OCR_FRAME_INTERVAL: u64 = 1;

/// The segment that a display is being recorded into. Its paths lead from the storage directory
/// on; its encoder is an `E`.
#[derive(Debug)]
pub struct SegmentState<E> {
    pub manifest_path: String,
    pub latest_frame_path: String,
    pub ocr_path: String,
    pub bucket_start_at: i64,
    pub segment_started_at: i64,
    pub frame_index: u64,
    pub last_ocr_text: Option<String>,
    pub encoder: E,
}

/// A segment with its texts as characters.
#[verifier::ext_equal]
#[verifier::reject_recursive_types(E)]
pub struct SegmentView<E> {
    pub manifest_path: Seq<char>,
    pub latest_frame_path: Seq<char>,
    pub ocr_path: Seq<char>,
    pub bucket_start_at: i64,
    pub segment_started_at: i64,
    pub frame_index: u64,
    pub last_ocr_text: Option<Seq<char>>,
    pub encoder: E,
}

impl<E> View for SegmentState<E> {
    type V = SegmentView<E>;

    open spec fn view(&self) -> SegmentView<E> {
        SegmentView {
            manifest_path: self.manifest_path@,
            latest_frame_path: self.latest_frame_path@,
            ocr_path: self.ocr_path@,
            bucket_start_at: self.bucket_start_at,
            segment_started_at: self.segment_started_at,
            frame_index: self.frame_index,
            last_ocr_text: opt_text(self.last_ocr_text),
            encoder: self.encoder,
        }
    }
}

/// A display that is being recorded.
#[derive(Debug)]
pub struct DisplayStream<E> {
    pub name: String,
    pub geometry: DisplayGeometry,
    /// Ticks since the display was last captured.
    pub missed_ticks: u32,
    pub segment: SegmentState<E>,
}

/// A stream with its texts as characters.
#[verifier::ext_equal]
#[verifier::reject_recursive_types(E)]
pub struct StreamView<E> {
    pub name: Seq<char>,
    pub geometry: DisplayGeometry,
    pub missed_ticks: u32,
    pub segment: SegmentView<E>,
}

impl<E> View for DisplayStream<E> {
    type V = StreamView<E>;

    open spec fn view(&self) -> StreamView<E> {
        StreamView {
            name: self.name@,
            geometry: self.geometry,
            missed_ticks: self.missed_ticks,
            segment: self.segment@,
        }
    }
}

/// The streams by their displays' ids, and all ids ever seen.
#[verifier::ext_equal]
#[verifier::reject_recursive_types(E)]
pub struct CaptureView<E> {
    pub streams: Map<Seq<char>, StreamView<E>>,
    pub known: Set<Seq<char>>,
}

#[derive(Debug)]
struct StreamEntry<E> {
    id: String,
    stream: DisplayStream<E>,
}

/// What is being recorded: at most one stream for each display, and the ids of all displays
/// that were ever seen.
#[derive(Debug)]
pub struct CaptureState<E> {
    entries: Vec<StreamEntry<E>>,
    known: Vec<String>,
}

spec fn holds<E>(entries: Seq<StreamEntry<E>>, id: Seq<char>) -> bool {
    exists|i: int| 0 <= i < entries.len() && (#[trigger] entries[i]).id@ == id
}

spec fn position<E>(entries: Seq<StreamEntry<E>>, id: Seq<char>) -> int {
    choose|i: int| 0 <= i < entries.len() && (#[trigger] entries[i]).id@ == id
}

spec fn distinct<E>(entries: Seq<StreamEntry<E>>) -> bool {
    forall|i: int, j: int|
        0 <= i < j < entries.len() ==> (#[trigger] entries[i]).id@ != (#[trigger] entries[j]).id@
}

spec fn streams_of<E>(entries: Seq<StreamEntry<E>>) -> Map<Seq<char>, StreamView<E>> {
    Map::new(
        |id: Seq<char>| holds(entries, id),
        |id: Seq<char>| entries[position(entries, id)].stream@,
    )
}

proof fn lemma_entry<E>(entries: Seq<StreamEntry<E>>, i: int)
    requires
        distinct(entries),
        0 <= i < entries.len(),
    ensures
        streams_of(entries).contains_key(entries[i].id@),
        streams_of(entries)[entries[i].id@] == entries[i].stream@,
{
    let id = entries[i].id@;
    assert(holds(entries, id));
    let j = position(entries, id);
    assert(0 <= j < entries.len() && entries[j].id@ == id);
    assert(i == j);
}

/// Replacing an entry's stream replaces the stream of its id.
proof fn lemma_entry_update<E>(
    entries: Seq<StreamEntry<E>>,
    after: Seq<StreamEntry<E>>,
    i: int,
)
    requires
        distinct(entries),
        0 <= i < entries.len(),
        after.len() == entries.len(),
        after[i].id@ == entries[i].id@,
        forall|j: int| 0 <= j < entries.len() && j != i ==> after[j] == #[trigger] entries[j],
    ensures
        distinct(after),
        streams_of(after) == streams_of(entries).insert(entries[i].id@, after[i].stream@),
{
    let id = entries[i].id@;
    assert forall|j: int| 0 <= j < after.len() implies (#[trigger] after[j]).id@
        == entries[j].id@ by {
        assert(j != i ==> after[j] == entries[j]);
    }
    assert(distinct(after));
    let expected = streams_of(entries).insert(id, after[i].stream@);
    assert forall|key: Seq<char>| #[trigger]
        streams_of(after).contains_key(key) == expected.contains_key(key) by {
        if holds(after, key) {
            let j = position(after, key);
            assert(entries[j].id@ == key);
        }
        if holds(entries, key) {
            let j = position(entries, key);
            assert(after[j].id@ == key);
        }
        assert(after[i].id@ == id);
    }
    assert forall|key: Seq<char>| streams_of(after).contains_key(key) implies #[trigger] streams_of(
        after,
    )[key] == expected[key] by {
        let j = position(after, key);
        lemma_entry(after, j);
        lemma_entry(entries, j);
        assert(j != i ==> after[j] == entries[j]);
    }
    assert(streams_of(after) =~= expected);
}

proof fn lemma_entry_push<E>(entries: Seq<StreamEntry<E>>, entry: StreamEntry<E>)
    requires
        distinct(entries),
        !holds(entries, entry.id@),
    ensures
        distinct(entries.push(entry)),
        streams_of(entries.push(entry)) == streams_of(entries).insert(entry.id@, entry.stream@),
{
    let after = entries.push(entry);
    let expected = streams_of(entries).insert(entry.id@, entry.stream@);
    assert(distinct(after)) by {
        assert forall|i: int, j: int| 0 <= i < j < after.len() implies (#[trigger] after[i]).id@
            != (#[trigger] after[j]).id@ by {
            assert(after[i] == entries[i]);
            if j < entries.len() {
                assert(after[j] == entries[j]);
            }
        }
    }
    assert forall|key: Seq<char>| #[trigger]
        streams_of(after).contains_key(key) == expected.contains_key(key) by {
        if holds(after, key) {
            let j = position(after, key);
            if j < entries.len() {
                assert(entries[j].id@ == key);
            }
        }
        if holds(entries, key) {
            let j = position(entries, key);
            assert(after[j].id@ == key);
        }
        assert(after[entries.len() as int].id@ == entry.id@);
    }
    assert forall|key: Seq<char>| streams_of(after).contains_key(key) implies #[trigger] streams_of(
        after,
    )[key] == expected[key] by {
        let j = position(after, key);
        lemma_entry(after, j);
        if j < entries.len() {
            assert(after[j] == entries[j]);
            lemma_entry(entries, j);
        }
    }
    assert(streams_of(after) =~= expected);
}

// ---------------------------------------------------------------------------------------
// What happens to the streams
// ---------------------------------------------------------------------------------------

/// Why a display needs a new segment in the bucket that begins at `bucket`, where it does.
pub open spec fn rotation<E>(
    state: CaptureView<E>,
    id: Seq<char>,
    geometry: DisplayGeometry,
    bucket: i64,
) -> Option<SegmentReason> {
    if state.streams.contains_key(id) {
        let stream = state.streams[id];
        if stream.geometry != geometry {
            Some(SegmentReason::GeometryChanged)
        } else if stream.segment.bucket_start_at != bucket {
            Some(SegmentReason::Rotated)
        } else {
            None
        }
    } else if state.known.contains(id) {
        Some(SegmentReason::Hotplugged)
    } else {
        Some(SegmentReason::Started)
    }
}

/// The display has been seen: its stream, where it has one, takes over its name and geometry.
pub open spec fn sighted<E>(state: CaptureView<E>, display: DisplayView) -> CaptureView<E> {
    if state.streams.contains_key(display.id) {
        CaptureView {
            streams: state.streams.insert(
                display.id,
                StreamView {
                    name: display.name,
                    geometry: display.geometry,
                    missed_ticks: 0,
                    ..state.streams[display.id]
                },
            ),
            ..state
        }
    } else {
        CaptureView { known: state.known.insert(display.id), ..state }
    }
}

/// The segment of a plan, without frames.
pub open spec fn opened_segment<E>(plan: PlanView, bucket: i64, encoder: E) -> SegmentView<E> {
    SegmentView {
        manifest_path: plan.manifest_path,
        latest_frame_path: plan.latest_frame_path,
        ocr_path: plan.ocr_path,
        bucket_start_at: bucket,
        segment_started_at: plan.manifest.segment_started_at,
        frame_index: 0,
        last_ocr_text: None,
        encoder,
    }
}

/// The display is recorded into `segment` from now on.
pub open spec fn switched<E>(
    state: CaptureView<E>,
    display: DisplayView,
    segment: SegmentView<E>,
) -> CaptureView<E> {
    CaptureView {
        streams: state.streams.insert(
            display.id,
            StreamView {
                name: display.name,
                geometry: display.geometry,
                missed_ticks: 0,
                segment,
            },
        ),
        ..state
    }
}

/// The stream of `id` goes on with `segment`.
pub open spec fn with_segment<E>(
    state: CaptureView<E>,
    id: Seq<char>,
    segment: SegmentView<E>,
) -> CaptureView<E> {
    CaptureView {
        streams: state.streams.insert(id, StreamView { segment, ..state.streams[id] }),
        ..state
    }
}

/// One more than `number`, where there is such a number.
pub open spec fn next_u64(number: u64) -> u64 {
    if number == u64::MAX {
        u64::MAX
    } else {
        (number + 1) as u64
    }
}

/// A text is worth an entry in a segment's history: it says something, and not what the entry
/// before says.
pub open spec fn is_news<E>(segment: SegmentView<E>, text: Seq<char>) -> bool {
    text.len() > 0 && segment.last_ocr_text != Some(text)
}

/// The history entry for a text on the frame that is being recorded.
pub open spec fn record_of<E>(
    segment: SegmentView<E>,
    id: Seq<char>,
    seconds: i64,
    text: Seq<char>,
) -> RecordView {
    RecordView {
        version: 1,
        display_id: id,
        segment_started_at: segment.segment_started_at,
        captured_at: seconds,
        frame_index: segment.frame_index,
        full_text: text,
    }
}

/// How often in a row a display will have been missed, after one more tick without it.
pub open spec fn missed_again(missed_ticks: u32) -> u32 {
    if missed_ticks == u32::MAX {
        u32::MAX
    } else {
        (missed_ticks + 1) as u32
    }
}

/// A stream outlives a tick: its display was seen, or not missed too often.
pub open spec fn survives<E>(stream: StreamView<E>, seen: bool) -> bool {
    seen || missed_again(stream.missed_ticks) < DISPLAY_REMOVAL_MISSED_TICKS
}

/// The streams after a tick in which the displays of `seen` were captured.
pub open spec fn after_tick<E>(
    streams: Map<Seq<char>, StreamView<E>>,
    seen: Set<Seq<char>>,
) -> Map<Seq<char>, StreamView<E>> {
    Map::new(
        |id: Seq<char>| streams.contains_key(id) && survives(streams[id], seen.contains(id)),
        |id: Seq<char>|
            if seen.contains(id) {
                streams[id]
            } else {
                StreamView {
                    missed_ticks: missed_again(streams[id].missed_ticks),
                    ..streams[id]
                }
            },
    )
}

/// The displays whose stream has not missed a tick.
pub open spec fn present_ids<E>(streams: Map<Seq<char>, StreamView<E>>) -> Set<Seq<char>> {
    streams.dom().filter(|id: Seq<char>| streams[id].missed_ticks == 0)
}

/// Captured displays with their texts as characters.
pub open spec fn views_of(displays: Seq<CapturedDisplay>) -> Seq<DisplayView> {
    Seq::new(displays.len(), |i: int| displays[i]@)
}

/// The ids of displays.
pub open spec fn ids_of(displays: Seq<DisplayView>) -> Set<Seq<char>> {
    Set::new(
        |id: Seq<char>|
            exists|i: int| 0 <= i < displays.len() && (#[trigger] displays[i]).id == id,
    )
}

impl<E> CaptureState<E> {
    /// No display has two streams, and each display with a stream is known.
    pub closed spec fn wf(&self) -> bool {
        &&& distinct(self.entries@)
        &&& forall|id: Seq<char>| #[trigger]
            self@.streams.contains_key(id) ==> self@.known.contains(id)
    }

    pub closed spec fn model(&self) -> CaptureView<E> {
        CaptureView {
            streams: streams_of(self.entries@),
            known: Set::new(
                |id: Seq<char>|
                    exists|i: int| 0 <= i < self.known@.len() && #[trigger] self.known@[i]@ == id,
            ),
        }
    }

    /// Nothing is being recorded, and no display is known.
    pub fn new() -> (state: CaptureState<E>)
        ensures
            state.wf(),
            state@ == (CaptureView {
                streams: Map::<Seq<char>, StreamView<E>>::empty(),
                known: Set::<Seq<char>>::empty(),
            }),
    {
        let state: CaptureState<E> = CaptureState { entries: Vec::new(), known: Vec::new() };
        proof {
            assert(state@.streams =~= Map::empty());
            assert(state@.known =~= Set::empty());
        }
        state
    }

    /// How many streams there are.
    pub fn len(&self) -> (len: usize)
        requires
            self.wf(),
        ensures
            len == self@.streams.dom().len(),
            self@.streams.dom().finite(),
    {
        proof {
            lemma_len(self.entries@);
        }
        self.entries.len()
    }

    fn find(&self, id: &str) -> (found: Option<usize>)
        requires
            self.wf(),
        ensures
            match found {
                Some(i) => {
                    &&& i < self.entries@.len()
                    &&& self.entries@[i as int].id@ == id@
                    &&& self@.streams.contains_key(id@)
                    &&& self@.streams[id@] == self.entries@[i as int].stream@
                },
                None => {
                    &&& !holds(self.entries@, id@)
                    &&& !self@.streams.contains_key(id@)
                },
            },
    {
        for i in 0..self.entries.len()
            invariant
                self.wf(),
                forall|j: int| 0 <= j < i ==> (#[trigger] self.entries@[j]).id@ != id@,
        {
            if same_text(self.entries[i].id.as_str(), id) {
                proof {
                    lemma_entry(self.entries@, i as int);
                }
                return Some(i);
            }
        }
        None
    }

    /// The stream of a display.
    pub fn stream(&self, id: &str) -> (stream: Option<&DisplayStream<E>>)
        requires
            self.wf(),
        ensures
            match stream {
                Some(stream) => {
                    &&& self@.streams.contains_key(id@)
                    &&& self@.streams[id@] == stream@
                },
                None => !self@.streams.contains_key(id@),
            },
    {
        match self.find(id) {
            Some(i) => Some(&self.entries[i].stream),
            None => None,
        }
    }

    /// Whether a display was ever seen.
    pub fn is_known(&self, id: &str) -> (known: bool)
        ensures
            known == self@.known.contains(id@),
    {
        for i in 0..self.known.len()
            invariant
                forall|j: int| 0 <= j < i ==> #[trigger] self.known@[j]@ != id@,
        {
            if same_text(self.known[i].as_str(), id) {
                return true;
            }
        }
        false
    }

    /// Why a display needs a new segment, where it does.
    pub fn rotate_reason(&self, display: &CapturedDisplay, captured_at: &CaptureTime) -> (reason:
        Option<SegmentReason>)
        requires
            self.wf(),
        ensures
            reason == rotation(
                self@,
                display@.id,
                display@.geometry,
                bucket_of(captured_at.seconds() as int) as i64,
            ),
    {
        let bucket: i64 = bucket_start_at(captured_at);
        match self.stream(display.id.as_str()) {
            Some(stream) => {
                if stream.geometry != display.geometry {
                    Some(SegmentReason::GeometryChanged)
                } else if stream.segment.bucket_start_at != bucket {
                    Some(SegmentReason::Rotated)
                } else {
                    None
                }
            },
            None => {
                if self.is_known(display.id.as_str()) {
                    Some(SegmentReason::Hotplugged)
                } else {
                    Some(SegmentReason::Started)
                }
            },
        }
    }

    /// Takes note that a display was seen.
    pub fn sight(&mut self, display: &CapturedDisplay)
        requires
            old(self).wf(),
        ensures
            final(self).wf(),
            final(self)@ == sighted(old(self)@, display@),
    {
        let ghost before = *self;
        match self.find(display.id.as_str()) {
            Some(i) => {
                let ghost entries = self.entries@;
                let stream: &mut DisplayStream<E> = &mut self.entries[i].stream;
                stream.name = owned(display.name.as_str());
                stream.geometry = display.geometry;
                stream.missed_ticks = 0;
                proof {
                    lemma_entry_update(entries, self.entries@, i as int);
                }
            },
            None => {
                let known: bool = self.is_known(display.id.as_str());
                if !known {
                    let ghost ids = self.known@;
                    self.known.push(owned(display.id.as_str()));
                    proof {
                        assert forall|id: Seq<char>| #[trigger]
                            self@.known.contains(id) == before@.known.insert(display@.id).contains(
                                id,
                            ) by {
                            if before@.known.contains(id) {
                                let j = choose|j: int|
                                    0 <= j < ids.len() && #[trigger] ids[j]@ == id;
                                assert(self.known@[j]@ == id);
                            }
                            assert(self.known@[ids.len() as int]@ == display@.id);
                            if self@.known.contains(id) {
                                let j = choose|j: int|
                                    0 <= j < self.known@.len() && #[trigger] self.known@[j]@ == id;
                                if j < ids.len() {
                                    assert(ids[j]@ == id);
                                }
                            }
                        }
                    }
                }
                proof {
                    assert(self@.known =~= before@.known.insert(display@.id));
                    assert(self@.streams =~= before@.streams);
                }
            },
        }
    }

    /// Records a display into a new segment from now on.
    pub fn switch_segment(&mut self, display: &CapturedDisplay, segment: SegmentState<E>)
        requires
            old(self).wf(),
            old(self)@.known.contains(display@.id),
        ensures
            final(self).wf(),
            final(self)@ == switched(old(self)@, display@, segment@),
    {
        let stream: DisplayStream<E> = DisplayStream {
            name: owned(display.name.as_str()),
            geometry: display.geometry,
            missed_ticks: 0,
            segment,
        };
        let ghost entries = self.entries@;
        match self.find(display.id.as_str()) {
            Some(i) => {
                self.entries[i].stream = stream;
                proof {
                    lemma_entry_update(entries, self.entries@, i as int);
                }
            },
            None => {
                let entry: StreamEntry<E> = StreamEntry {
                    id: owned(display.id.as_str()),
                    stream,
                };
                proof {
                    lemma_entry_push(entries, entry);
                }
                self.entries.push(entry);
            },
        }
    }
}

impl<E> CaptureState<E> {
    /// The encoder of a display's segment.
    pub fn encoder_mut(&mut self, id: &str) -> (encoder: &mut E)
        requires
            old(self).wf(),
            old(self)@.streams.contains_key(id@),
        ensures
            *encoder == old(self)@.streams[id@].segment.encoder,
            final(self).wf(),
            final(self)@ == with_segment(
                old(self)@,
                id@,
                SegmentView { encoder: *final(encoder), ..old(self)@.streams[id@].segment },
            ),
    {
        let i: usize = self.find(id).unwrap();
        let ghost entries = self.entries@;
        let encoder: &mut E = &mut self.entries[i].stream.segment.encoder;
        proof {
            let entry = entries[i as int];
            let segment = SegmentState { encoder: *final(encoder), ..entry.stream.segment };
            let after = entries.update(
                i as int,
                StreamEntry { stream: DisplayStream { segment, ..entry.stream }, ..entry },
            );
            lemma_entry_update(entries, after, i as int);
        }
        encoder
    }

    /// Takes note of the text that a segment's history ends with.
    pub fn note_text(&mut self, id: &str, text: String)
        requires
            old(self).wf(),
            old(self)@.streams.contains_key(id@),
        ensures
            final(self).wf(),
            final(self)@ == with_segment(
                old(self)@,
                id@,
                SegmentView { last_ocr_text: Some(text@), ..old(self)@.streams[id@].segment },
            ),
    {
        let i: usize = self.find(id).unwrap();
        let ghost entries = self.entries@;
        self.entries[i].stream.segment.last_ocr_text = Some(text);
        proof {
            lemma_entry_update(entries, self.entries@, i as int);
        }
    }

    /// Counts a frame of a display's segment.
    pub fn count_frame(&mut self, id: &str)
        requires
            old(self).wf(),
            old(self)@.streams.contains_key(id@),
        ensures
            final(self).wf(),
            final(self)@ == with_segment(
                old(self)@,
                id@,
                SegmentView {
                    frame_index: next_u64(old(self)@.streams[id@].segment.frame_index),
                    ..old(self)@.streams[id@].segment
                },
            ),
    {
        let i: usize = self.find(id).unwrap();
        let ghost entries = self.entries@;
        let frame_index: u64 = self.entries[i].stream.segment.frame_index;
        self.entries[i].stream.segment.frame_index = frame_index.saturating_add(1);
        proof {
            lemma_entry_update(entries, self.entries@, i as int);
        }
    }

    /// Ends a tick in which `displays` were captured: a stream whose display was not misses a
    /// tick, and ends where it missed too many. Gives the number of displays that are present,
    /// modulo what 32 bits can hold.
    pub fn end_tick(&mut self, displays: &Vec<CapturedDisplay>) -> (present: u32)
        requires
            old(self).wf(),
        ensures
            final(self).wf(),
            final(self)@.streams == after_tick(old(self)@.streams, ids_of(views_of(displays@))),
            final(self)@.known == old(self)@.known,
            present_ids(final(self)@.streams).finite(),
            present == present_ids(final(self)@.streams).len() % 0x1_0000_0000,
    {
        let ghost before = *self;
        let ghost seen = ids_of(views_of(displays@));
        let ghost all = self.entries@;
        let ghost mut done: Seq<StreamEntry<E>> = Seq::empty();
        let mut entries: Vec<StreamEntry<E>> = Vec::new();
        std::mem::swap(&mut entries, &mut self.entries);
        let mut kept: Vec<StreamEntry<E>> = Vec::new();
        proof {
            assert(streams_of(done) =~= Map::empty());
            assert(streams_of(kept@) =~= after_tick(streams_of(done), seen));
        }
        while entries.len() > 0
            invariant
                distinct(all),
                seen == ids_of(views_of(displays@)),
                entries@ == all.take(entries@.len() as int),
                entries@.len() + done.len() == all.len(),
                forall|k: int| 0 <= k < done.len() ==> #[trigger] done[k] == all[all.len() - 1 - k],
                distinct(done),
                distinct(kept@),
                streams_of(kept@) == after_tick(streams_of(done), seen),
            decreases entries@.len(),
        {
            let ghost n = entries@.len() - 1;
            let ghost kept_before = kept@;
            let ghost done_before = done;
            let mut entry: StreamEntry<E> = entries.pop().unwrap();
            let ghost id = entry.id@;
            proof {
                assert(entry == all[n]);
                assert(entries@ == all.take(n));
                assert(!holds(done, id)) by {
                    if holds(done, id) {
                        let k = position(done, id);
                        assert(done[k] == all[all.len() - 1 - k]);
                        assert(all[n].id@ == all[all.len() - 1 - k].id@);
                    }
                }
                lemma_entry_push(done, entry);
                done = done.push(entry);
                assert(!streams_of(kept@).contains_key(id));
                assert(!holds(kept@, id));
            }
            let is_seen: bool = shows(displays, entry.id.as_str());
            let mut keep: bool = true;
            if !is_seen {
                entry.stream.missed_ticks = entry.stream.missed_ticks.saturating_add(1);
                keep = entry.stream.missed_ticks < DISPLAY_REMOVAL_MISSED_TICKS;
            }
            if keep {
                proof {
                    lemma_entry_push(kept@, entry);
                }
                kept.push(entry);
            }
            proof {
                let streams = streams_of(done_before);
                let stream = all[n].stream@;
                assert(streams_of(done) == streams.insert(id, stream));
                assert(streams_of(kept@) =~= after_tick(streams_of(done), seen));
            }
        }
        proof {
            lemma_reversed(all, done);
        }
        self.entries = kept;
        let mut present: usize = 0;
        proof {
            assert(self@.known =~= before@.known);
            assert(streams_of(self.entries@.take(0)) =~= Map::empty());
            assert(present_ids(streams_of(self.entries@.take(0))) =~= Set::empty());
        }
        for i in 0..self.entries.len()
            invariant
                distinct(self.entries@),
                present <= i,
                i <= self.entries.len(),
                present_ids(streams_of(self.entries@.take(i as int))).finite(),
                present == present_ids(streams_of(self.entries@.take(i as int))).len(),
        {
            proof {
                lemma_present_push(self.entries@, i as int);
            }
            if self.entries[i].stream.missed_ticks == 0 {
                present += 1;
            }
        }
        proof {
            assert(self.entries@.take(self.entries@.len() as int) == self.entries@);
            assert forall|id: Seq<char>| #[trigger]
                self@.streams.contains_key(id) implies self@.known.contains(id) by {
                assert(before@.streams.contains_key(id));
            }
        }
        ((present as u64) % 0x1_0000_0000) as u32
    }
}

/// Whether a display is among `displays`.
fn shows(displays: &Vec<CapturedDisplay>, id: &str) -> (shown: bool)
    ensures
        shown == ids_of(views_of(displays@)).contains(id@),
{
    for i in 0..displays.len()
        invariant
            forall|j: int| 0 <= j < i ==> (#[trigger] views_of(displays@)[j]).id != id@,
    {
        if same_text(displays[i].id.as_str(), id) {
            proof {
                assert(views_of(displays@)[i as int].id == id@);
            }
            return true;
        }
    }
    false
}

proof fn lemma_reversed<E>(entries: Seq<StreamEntry<E>>, reversed: Seq<StreamEntry<E>>)
    requires
        distinct(entries),
        distinct(reversed),
        reversed.len() == entries.len(),
        forall|k: int|
            0 <= k < entries.len() ==> #[trigger] reversed[k] == entries[entries.len() - 1 - k],
    ensures
        streams_of(reversed) == streams_of(entries),
{
    assert forall|id: Seq<char>| #[trigger]
        streams_of(reversed).contains_key(id) == streams_of(entries).contains_key(id) by {
        if holds(reversed, id) {
            let k = position(reversed, id);
            assert(entries[entries.len() - 1 - k].id@ == id);
        }
        if holds(entries, id) {
            let k = position(entries, id);
            assert(reversed[entries.len() - 1 - k].id@ == id);
        }
    }
    assert forall|id: Seq<char>| streams_of(reversed).contains_key(id) implies #[trigger] streams_of(
        reversed,
    )[id] == streams_of(entries)[id] by {
        let k = position(reversed, id);
        lemma_entry(reversed, k);
        lemma_entry(entries, entries.len() - 1 - k);
    }
    assert(streams_of(reversed) =~= streams_of(entries));
}

proof fn lemma_present_push<E>(entries: Seq<StreamEntry<E>>, i: int)
    requires
        distinct(entries),
        0 <= i < entries.len(),
        present_ids(streams_of(entries.take(i))).finite(),
    ensures
        present_ids(streams_of(entries.take(i + 1))).finite(),
        present_ids(streams_of(entries.take(i + 1))).len() == present_ids(
            streams_of(entries.take(i)),
        ).len() + (if entries[i].stream.missed_ticks == 0 {
            1int
        } else {
            0
        }),
{
    let before = entries.take(i);
    let entry = entries[i];
    assert(distinct(before)) by {
        assert forall|a: int, b: int| 0 <= a < b < before.len() implies (#[trigger] before[a]).id@
            != (#[trigger] before[b]).id@ by {
            assert(entries[a].id@ != entries[b].id@);
        }
    }
    assert(!holds(before, entry.id@)) by {
        if holds(before, entry.id@) {
            let j = position(before, entry.id@);
            assert(entries[j].id@ == entries[i].id@);
        }
    }
    lemma_entry_push(before, entry);
    assert(entries.take(i + 1) == before.push(entry));
    let old_ids = present_ids(streams_of(before));
    let new_ids = present_ids(streams_of(before.push(entry)));
    assert(!old_ids.contains(entry.id@));
    if entry.stream.missed_ticks == 0 {
        assert(new_ids =~= old_ids.insert(entry.id@));
    } else {
        assert(new_ids =~= old_ids);
    }
}

impl<E> View for CaptureState<E> {
    type V = CaptureView<E>;

    open spec fn view(&self) -> CaptureView<E> {
        self.model()
    }
}

/// The streams' ids are as many as the entries.
proof fn lemma_len<E>(entries: Seq<StreamEntry<E>>)
    requires
        distinct(entries),
    ensures
        streams_of(entries).dom().finite(),
        streams_of(entries).dom().len() == entries.len(),
    decreases entries.len(),
{
    if entries.len() == 0 {
        assert(streams_of(entries).dom() =~= Set::empty());
    } else {
        let before = entries.drop_last();
        let entry = entries.last();
        assert(distinct(before)) by {
            assert forall|i: int, j: int| 0 <= i < j < before.len() implies (#[trigger]
            before[i]).id@ != (#[trigger] before[j]).id@ by {
                assert(entries[i].id@ != entries[j].id@);
            }
        }
        lemma_len(before);
        assert(!holds(before, entry.id@)) by {
            if holds(before, entry.id@) {
                let j = position(before, entry.id@);
                assert(entries[j].id@ == entries[entries.len() - 1].id@);
            }
        }
        lemma_entry_push(before, entry);
        assert(before.push(entry) == entries);
        assert(streams_of(entries).dom() =~= streams_of(before).dom().insert(entry.id@));
    }
}

// ---------------------------------------------------------------------------------------
// Laws
// ---------------------------------------------------------------------------------------

/// The stream of a display that was just captured outlives two ticks without it, and is still
/// recorded into the same segment.
pub proof fn display_survives_two_missed_ticks<E>(
    streams: Map<Seq<char>, StreamView<E>>,
    id: Seq<char>,
    first: Set<Seq<char>>,
    second: Set<Seq<char>>,
)
    requires
        streams.contains_key(id),
        streams[id].missed_ticks == 0,
        !first.contains(id),
        !second.contains(id),
    ensures
        ({
            let later = after_tick(after_tick(streams, first), second);
            &&& later.contains_key(id)
            &&& later[id] == (StreamView { missed_ticks: 2, ..streams[id] })
        }),
{
}

/// No stream outlives three ticks without its display.
pub proof fn display_is_dropped_at_the_third_missed_tick<E>(
    streams: Map<Seq<char>, StreamView<E>>,
    id: Seq<char>,
    first: Set<Seq<char>>,
    second: Set<Seq<char>>,
    third: Set<Seq<char>>,
)
    requires
        !first.contains(id),
        !second.contains(id),
        !third.contains(id),
    ensures
        !after_tick(after_tick(after_tick(streams, first), second), third).contains_key(id),
{
}

/// A tick changes nothing for the displays that were captured, and begins no stream.
pub proof fn tick_keeps_captured_displays<E>(
    streams: Map<Seq<char>, StreamView<E>>,
    seen: Set<Seq<char>>,
    id: Seq<char>,
)
    ensures
        after_tick(streams, seen).contains_key(id) ==> streams.contains_key(id),
        seen.contains(id) && streams.contains_key(id) ==> after_tick(streams, seen).contains_key(id)
            && after_tick(streams, seen)[id] == streams[id],
{
}

/// Where each captured display has a stream that missed no tick, the displays present after
/// the tick are the captured ones.
pub proof fn present_displays_are_the_captured_ones<E>(
    streams: Map<Seq<char>, StreamView<E>>,
    seen: Set<Seq<char>>,
)
    requires
        forall|id: Seq<char>|
            #[trigger] seen.contains(id) ==> streams.contains_key(id) && streams[id].missed_ticks
                == 0,
    ensures
        present_ids(after_tick(streams, seen)) == seen,
{
    let ids = present_ids(after_tick(streams, seen));
    assert forall|id: Seq<char>| #[trigger] ids.contains(id) == seen.contains(id) by {
        if seen.contains(id) {
            assert(streams.contains_key(id));
        }
    }
    assert(ids =~= seen);
}

/// Each display with a stream is known.
pub proof fn recorded_displays_are_known<E>(state: CaptureState<E>)
    requires
        state.wf(),
    ensures
        forall|id: Seq<char>| #[trigger]
            state@.streams.contains_key(id) ==> state@.known.contains(id),
{
}

/// A display that is captured again after its stream ended counts as plugged in again.
pub proof fn returning_display_is_hotplugged<E>(
    state: CaptureView<E>,
    id: Seq<char>,
    geometry: DisplayGeometry,
    bucket: i64,
    first: Set<Seq<char>>,
    second: Set<Seq<char>>,
    third: Set<Seq<char>>,
)
    requires
        state.known.contains(id),
        !first.contains(id),
        !second.contains(id),
        !third.contains(id),
    ensures
        rotation(
            CaptureView {
                streams: after_tick(after_tick(after_tick(state.streams, first), second), third),
                known: state.known,
            },
            id,
            geometry,
            bucket,
        ) == Some(SegmentReason::Hotplugged),
{
    display_is_dropped_at_the_third_missed_tick(state.streams, id, first, second, third);
}

/// A display goes on in its segment exactly where it has a stream with the very size, rotation
/// and scale that it is captured with now, and the segment was begun in the present bucket:
/// however many ticks the stream has missed, and whatever else is so.
pub proof fn segment_goes_on_while_nothing_changed<E>(
    state: CaptureView<E>,
    id: Seq<char>,
    geometry: DisplayGeometry,
    bucket: i64,
)
    ensures
        rotation(state, id, geometry, bucket) is None <==> {
            &&& state.streams.contains_key(id)
            &&& state.streams[id].geometry.width == geometry.width
            &&& state.streams[id].geometry.height == geometry.height
            &&& state.streams[id].geometry.rotation_millidegrees == geometry.rotation_millidegrees
            &&& state.streams[id].geometry.scale_factor_milli == geometry.scale_factor_milli
            &&& state.streams[id].segment.bucket_start_at == bucket
        },
{
}

/// Why a new segment is begun: a display without a stream has started, or is back where it was
/// ever seen before; one with a stream has changed its geometry, or else its half hour is over.
pub proof fn new_segment_says_why<E>(
    state: CaptureView<E>,
    id: Seq<char>,
    geometry: DisplayGeometry,
    bucket: i64,
)
    ensures
        ({
            let reason = rotation(state, id, geometry, bucket);
            let recorded = state.streams.contains_key(id);
            let stream = state.streams[id];
            &&& !recorded && !state.known.contains(id) ==> reason == Some(SegmentReason::Started)
            &&& !recorded && state.known.contains(id) ==> reason == Some(
                SegmentReason::Hotplugged,
            )
            &&& recorded && stream.geometry != geometry ==> reason == Some(
                SegmentReason::GeometryChanged,
            )
            &&& recorded && stream.geometry == geometry && stream.segment.bucket_start_at != bucket
                ==> reason == Some(SegmentReason::Rotated)
        }),
{
}

/// A display that was captured, missed for one tick or two and is captured again in the same
/// half hour, with the geometry it had, goes on in the segment it had.
pub proof fn returning_display_goes_on<E>(
    state: CaptureView<E>,
    id: Seq<char>,
    first: Set<Seq<char>>,
    second: Set<Seq<char>>,
)
    requires
        state.streams.contains_key(id),
        state.streams[id].missed_ticks == 0,
        !first.contains(id),
        !second.contains(id),
    ensures
        ({
            let stream = state.streams[id];
            let bucket = stream.segment.bucket_start_at;
            let once = CaptureView { streams: after_tick(state.streams, first), ..state };
            let twice = CaptureView { streams: after_tick(once.streams, second), ..state };
            &&& rotation(once, id, stream.geometry, bucket) is None
            &&& rotation(twice, id, stream.geometry, bucket) is None
            &&& once.streams[id].segment == stream.segment
            &&& twice.streams[id].segment == stream.segment
        }),
{
}

/// From 1970 on, a segment that was begun in the half hour `then` goes on in the half hour `now`
/// exactly where they are the same, if the display keeps its geometry.
pub proof fn segment_lasts_for_its_half_hour<E>(
    state: CaptureView<E>,
    id: Seq<char>,
    then: i64,
    now: i64,
)
    requires
        0 <= then,
        0 <= now,
        state.streams.contains_key(id),
        state.streams[id].segment.bucket_start_at == bucket_of(then as int),
    ensures
        ({
            let reason = rotation(
                state,
                id,
                state.streams[id].geometry,
                bucket_of(now as int) as i64,
            );
            &&& then as int / 1800 == now as int / 1800 ==> reason is None
            &&& then as int / 1800 != now as int / 1800 ==> reason == Some(SegmentReason::Rotated)
        }),
{
    crate::clock::buckets_are_half_hours(then as int / 1800, then as int % 1800);
    crate::clock::buckets_are_half_hours(now as int / 1800, now as int % 1800);
}

/// A display that is seen is known from then on, and nothing else becomes known. Its stream,
/// where it has one, gets its name and geometry, has missed no tick, and keeps its segment; no
/// stream begins or ends, and every other one stays as it is.
pub proof fn sighting_updates_the_display<E>(
    state: CaptureView<E>,
    display: DisplayView,
    other: Seq<char>,
)
    requires
        state.streams.contains_key(display.id) ==> state.known.contains(display.id),
    ensures
        ({
            let after = sighted(state, display);
            &&& after.known.contains(other) <==> state.known.contains(other) || other
                == display.id
            &&& after.streams.contains_key(other) <==> state.streams.contains_key(other)
            &&& state.streams.contains_key(other) && other != display.id
                ==> after.streams[other] == state.streams[other]
            &&& state.streams.contains_key(display.id) ==> {
                let stream = after.streams[display.id];
                &&& stream.name == display.name
                &&& stream.geometry == display.geometry
                &&& stream.missed_ticks == 0
                &&& stream.segment == state.streams[display.id].segment
            }
        }),
{
}

/// A display that gets a segment has a stream with its name, its geometry and that segment, which
/// missed no tick; every other stream stays as it is, and so do the known displays.
pub proof fn switching_changes_one_stream<E>(
    state: CaptureView<E>,
    display: DisplayView,
    segment: SegmentView<E>,
    other: Seq<char>,
)
    ensures
        ({
            let after = switched(state, display, segment);
            let stream = after.streams[display.id];
            &&& after.streams.contains_key(display.id)
            &&& stream.name == display.name
            &&& stream.geometry == display.geometry
            &&& stream.missed_ticks == 0
            &&& stream.segment == segment
            &&& after.known == state.known
            &&& other != display.id ==> {
                &&& after.streams.contains_key(other) == state.streams.contains_key(other)
                &&& state.streams.contains_key(other) ==> after.streams[other]
                    == state.streams[other]
            }
        }),
{
}

/// Going on with a changed segment changes nothing else.
pub proof fn segment_changes_alone<E>(
    state: CaptureView<E>,
    id: Seq<char>,
    segment: SegmentView<E>,
    other: Seq<char>,
)
    requires
        state.streams.contains_key(id),
    ensures
        ({
            let after = with_segment(state, id, segment);
            &&& after.known == state.known
            &&& after.streams.contains_key(other) <==> state.streams.contains_key(other)
            &&& after.streams[id].segment == segment
            &&& after.streams[id].name == state.streams[id].name
            &&& after.streams[id].geometry == state.streams[id].geometry
            &&& after.streams[id].missed_ticks == state.streams[id].missed_ticks
            &&& state.streams.contains_key(other) && other != id ==> after.streams[other]
                == state.streams[other]
        }),
{
}

/// At the end of a tick a stream whose display was captured stays as it is. Any other has missed
/// one more tick: it ends where that is the third, and is as it was in all else where not.
pub proof fn missed_ticks_are_counted<E>(
    streams: Map<Seq<char>, StreamView<E>>,
    seen: Set<Seq<char>>,
    id: Seq<char>,
)
    ensures
        ({
            let after = after_tick(streams, seen);
            &&& !streams.contains_key(id) ==> !after.contains_key(id)
            &&& streams.contains_key(id) && seen.contains(id) ==> after.contains_key(id)
                && after[id] == streams[id]
            &&& streams.contains_key(id) && !seen.contains(id) ==> {
                &&& after.contains_key(id) <==> streams[id].missed_ticks + 1 < 3
                &&& after.contains_key(id) ==> {
                    &&& after[id].missed_ticks == streams[id].missed_ticks + 1
                    &&& after[id].name == streams[id].name
                    &&& after[id].geometry == streams[id].geometry
                    &&& after[id].segment == streams[id].segment
                }
            }
        }),
{
}

/// A display counts as present exactly where its stream has missed no tick.
pub proof fn present_displays_missed_no_tick<E>(
    streams: Map<Seq<char>, StreamView<E>>,
    id: Seq<char>,
)
    ensures
        present_ids(streams).contains(id) <==> streams.contains_key(id)
            && streams[id].missed_ticks == 0,
{
}

/// The ids of displays are those of each of them, and no others.
pub proof fn ids_are_those_of_the_displays(displays: Seq<DisplayView>, i: int, id: Seq<char>)
    ensures
        0 <= i < displays.len() ==> ids_of(displays).contains(displays[i].id),
        ids_of(displays).contains(id) ==> exists|k: int|
            0 <= k < displays.len() && (#[trigger] displays[k]).id == id,
{
}

/// A new segment has the plan's files and start, and neither frames nor history.
pub proof fn opened_segment_follows_the_plan<E>(plan: PlanView, bucket: i64, encoder: E)
    ensures
        ({
            let segment = opened_segment(plan, bucket, encoder);
            &&& segment.manifest_path == plan.manifest_path
            &&& segment.latest_frame_path == plan.latest_frame_path
            &&& segment.ocr_path == plan.ocr_path
            &&& segment.bucket_start_at == bucket
            &&& segment.segment_started_at == plan.manifest.segment_started_at
            &&& segment.frame_index == 0
            &&& segment.last_ocr_text is None
            &&& segment.encoder == encoder
        }),
{
}

/// The views of segments, streams and captured displays show every field of them, and displays
/// in their order.
pub proof fn views_show_every_field<E>(
    segment: SegmentState<E>,
    stream: DisplayStream<E>,
    displays: Seq<CapturedDisplay>,
    i: int,
)
    ensures
        segment@.manifest_path == segment.manifest_path@,
        segment@.latest_frame_path == segment.latest_frame_path@,
        segment@.ocr_path == segment.ocr_path@,
        segment@.bucket_start_at == segment.bucket_start_at,
        segment@.segment_started_at == segment.segment_started_at,
        segment@.frame_index == segment.frame_index,
        segment.last_ocr_text matches Some(text) ==> segment@.last_ocr_text == Some(text@),
        segment.last_ocr_text is None ==> segment@.last_ocr_text is None,
        segment@.encoder == segment.encoder,
        stream@.name == stream.name@,
        stream@.geometry == stream.geometry,
        stream@.missed_ticks == stream.missed_ticks,
        stream@.segment == stream.segment@,
        views_of(displays).len() == displays.len(),
        0 <= i < displays.len() ==> views_of(displays)[i] == displays[i]@,
{
}

} // verus!
