//! The fragmented MP4 stream that encoded samples go into.
use crate::encoder::{
    os_status_error, os_status_message, reports, EncoderError, COUNT_SETS_CONTEXT,
    NO_MUXER_MESSAGE, NO_PARAMETER_SETS_MESSAGE, NO_SEGMENT_MESSAGE, NULL_SET_MESSAGE,
    READ_SET_CONTEXT,
};
use crate::frame::copy_bytes;
use crate::text::{opt_text, owned};
use muxide::fragmented::{FragmentedError, FragmentedMuxer};
use vstd::prelude::*;

verus! {

/// Media ticks between two frames; also the stream's ticks per second.
pub const FRAGMENT_TICKS_PER_FRAME: u64 = 3_000;

/// Fragments are not collected for any time: each sample gets its own.
pub const FRAGMENT_DURATION_MS: u32 = 0;

// ---------------------------------------------------------------------------------------
// The fragmented MP4 muxer
// ---------------------------------------------------------------------------------------

/// The outside muxer.
#[verifier::external_type_specification]
#[verifier::external_body]
pub struct ExFragmentedMuxer(FragmentedMuxer);

/// The outside error of a refused sample.
#[verifier::external_type_specification]
#[verifier::external_body]
pub struct ExFragmentedError(FragmentedError);

/// Everything a muxer was given, fragment by fragment: each sample's presentation and decode
/// time, its bytes, and whether it is a sync sample. The last fragment is the one still
/// queued; the others have been flushed.
pub uninterp spec fn muxed(muxer: FragmentedMuxer) -> Seq<Seq<(u64, u64, Seq<u8>, bool)>>;

/// What a muxer's stream was declared to be: width, height, ticks per second, sequence and
/// picture parameter set, and the wanted length of a fragment in milliseconds.
pub uninterp spec fn stream_of(muxer: FragmentedMuxer) -> (u32, u32, u32, Seq<u8>, Seq<u8>, u32);

/// The initialization segment of an H.264 stream.
pub uninterp spec fn init_segment_bytes(
    width: u32,
    height: u32,
    timescale: u32,
    sps: Seq<u8>,
    pps: Seq<u8>,
) -> Seq<u8>;

/// The media segment of the last of `fragments`, behind the others.
pub uninterp spec fn media_segment_bytes(
    fragments: Seq<Seq<(u64, u64, Seq<u8>, bool)>>,
) -> Seq<u8>;

/// The decode time of the last sample in `fragments`.
pub open spec fn latest_dts(fragments: Seq<Seq<(u64, u64, Seq<u8>, bool)>>) -> Option<u64>
    decreases fragments.len(),
{
    if fragments.len() == 0 {
        None
    } else if fragments.last().len() > 0 {
        Some(fragments.last().last().1)
    } else {
        latest_dts(fragments.drop_last())
    }
}

/// `fragments` with one more sample queued.
pub open spec fn with_queued(
    fragments: Seq<Seq<(u64, u64, Seq<u8>, bool)>>,
    sample: (u64, u64, Seq<u8>, bool),
) -> Seq<Seq<(u64, u64, Seq<u8>, bool)>> {
    fragments.drop_last().push(fragments.last().push(sample))
}

/// `muxide::fragmented::FragmentedMuxer::new` for H.264. Claimed: the stream is the given one;
/// nothing is queued and nothing was flushed.
#[verifier::external_body]
fn new_muxer(
    width: u32,
    height: u32,
    timescale: u32,
    sps: Vec<u8>,
    pps: Vec<u8>,
    fragment_duration_ms: u32,
) -> (muxer: FragmentedMuxer)
    ensures
        muxed(muxer) == seq![Seq::<(u64, u64, Seq<u8>, bool)>::empty()],
        stream_of(muxer) == (width, height, timescale, sps@, pps@, fragment_duration_ms),
{
    FragmentedMuxer::new(muxide::fragmented::FragmentConfig {
        width,
        height,
        timescale,
        fragment_duration_ms,
        sps,
        pps,
        vps: None,
        av1_sequence_header: None,
        vp9_config: None,
    })
}

/// `FragmentedMuxer::init_segment`. Claimed: the bytes are a function of the declared stream;
/// they begin with the size and the name of an `ftyp` box; samples are untouched.
#[verifier::external_body]
fn muxer_init_segment(muxer: &mut FragmentedMuxer) -> (bytes: Vec<u8>)
    ensures
        ({
            let stream = stream_of(*old(muxer));
            bytes@ == init_segment_bytes(stream.0, stream.1, stream.2, stream.3, stream.4)
        }),
        bytes@.len() >= 8 && bytes@.subrange(4, 8) == seq![0x66u8, 0x74u8, 0x79u8, 0x70u8],
        muxed(*final(muxer)) == muxed(*old(muxer)),
        stream_of(*final(muxer)) == stream_of(*old(muxer)),
{
    muxer.init_segment()
}

/// `FragmentedMuxer::write_video`. Claimed: the sample is queued unless its decode time lies
/// before that of the sample before it; a refused sample changes nothing.
#[verifier::external_body]
fn muxer_write_video(
    muxer: &mut FragmentedMuxer,
    pts: u64,
    dts: u64,
    data: &Vec<u8>,
    is_sync: bool,
) -> (result: Result<(), FragmentedError>)
    requires
        muxed(*old(muxer)).len() > 0,
    ensures
        result is Err == (latest_dts(muxed(*old(muxer))) is Some && dts < latest_dts(
            muxed(*old(muxer)),
        )->0),
        result is Ok ==> muxed(*final(muxer)) == with_queued(
            muxed(*old(muxer)),
            (pts, dts, data@, is_sync),
        ),
        result is Err ==> muxed(*final(muxer)) == muxed(*old(muxer)),
        stream_of(*final(muxer)) == stream_of(*old(muxer)),
{
    muxer.write_video(pts, dts, data, is_sync)
}

/// `FragmentedMuxer::flush_segment`, with at most one sample queued, which is decoded when it
/// is shown. Claimed: `None` exactly where none is queued; else the bytes are a function of all
/// samples given so far and end in the queued sample's own bytes, and a new, empty fragment
/// begins. The fragment number and the next fragment's start time would overflow on the inputs
/// left out.
#[verifier::external_body]
fn muxer_flush_segment(muxer: &mut FragmentedMuxer) -> (bytes: Option<Vec<u8>>)
    requires
        0 < muxed(*old(muxer)).len() < u32::MAX,
        muxed(*old(muxer)).last().len() <= 1,
        muxed(*old(muxer)).last().len() == 1 ==> muxed(*old(muxer)).last()[0].0 == muxed(
            *old(muxer),
        ).last()[0].1,
        latest_dts(muxed(*old(muxer))) matches Some(dts) ==> dts + 3_000 <= u64::MAX,
    ensures
        bytes is None == (muxed(*old(muxer)).last().len() == 0),
        bytes is None ==> muxed(*final(muxer)) == muxed(*old(muxer)),
        bytes matches Some(bytes) ==> {
            let data = muxed(*old(muxer)).last().last().2;
            &&& bytes@ == media_segment_bytes(muxed(*old(muxer)))
            &&& bytes@.len() >= data.len()
            &&& bytes@.skip(bytes@.len() - data.len()) == data
            &&& muxed(*final(muxer)) == muxed(*old(muxer)).push(Seq::empty())
        },
        stream_of(*final(muxer)) == stream_of(*old(muxer)),
{
    muxer.flush_segment()
}

// ---------------------------------------------------------------------------------------
// Parameter sets
// ---------------------------------------------------------------------------------------

/// What came of asking for one parameter set: the call's status, and the set where the call
/// handed one out.
#[derive(Debug)]
pub struct ParameterSetReading {
    pub status: i32,
    pub bytes: Option<Vec<u8>>,
}

impl ParameterSetReading {
    /// The set, or the message of the failure.
    pub open spec fn outcome(self) -> Result<Seq<u8>, Seq<char>> {
        if self.status != 0 {
            Err(os_status_message(self.status, READ_SET_CONTEXT@))
        } else {
            match self.bytes {
                Some(bytes) => Ok(bytes@),
                None => Err(NULL_SET_MESSAGE@),
            }
        }
    }
}

/// The message of the first reading that failed.
pub open spec fn first_failure(readings: Seq<ParameterSetReading>) -> Option<Seq<char>>
    decreases readings.len(),
{
    if readings.len() == 0 {
        None
    } else if let Some(message) = first_failure(readings.drop_last()) {
        Some(message)
    } else {
        match readings.last().outcome() {
            Ok(_) => None,
            Err(message) => Some(message),
        }
    }
}

/// The kind of an H.264 unit: the low five bits of its first byte.
pub open spec fn unit_kind(unit: Seq<u8>) -> Option<u8> {
    if unit.len() == 0 {
        None
    } else {
        Some((unit[0] & 0x1f) as u8)
    }
}

/// The last set of a kind.
pub open spec fn last_of_kind(readings: Seq<ParameterSetReading>, kind: u8) -> Option<Seq<u8>>
    decreases readings.len(),
{
    if readings.len() == 0 {
        None
    } else {
        match readings.last().outcome() {
            Ok(unit) if unit_kind(unit) == Some(kind) => Some(unit),
            _ => last_of_kind(readings.drop_last(), kind),
        }
    }
}

/// The kind of a sequence parameter set.
pub const SPS_KIND: u8 = 7;

/// The kind of a picture parameter set.
pub const PPS_KIND: u8 = 8;

/// Picks the stream's sequence and picture parameter set, the last of each kind, given the
/// status of the call that counted the sets and a reading of each. The first failure ends it.
pub fn h264_parameter_sets(count_status: i32, readings: &Vec<ParameterSetReading>) -> (result:
    Result<(Vec<u8>, Vec<u8>), String>)
    ensures
        if count_status != 0 {
            result matches Err(message) && message@ == os_status_message(
                count_status,
                COUNT_SETS_CONTEXT@,
            )
        } else if let Some(failure) = first_failure(readings@) {
            result matches Err(message) && message@ == failure
        } else {
            match (last_of_kind(readings@, SPS_KIND), last_of_kind(readings@, PPS_KIND)) {
                (Some(sps), Some(pps)) => result matches Ok(sets) && sets.0@ == sps && sets.1@
                    == pps,
                _ => result matches Err(message) && message@ == NO_PARAMETER_SETS_MESSAGE@,
            }
        },
{
    if count_status != 0 {
        return Err(os_status_error(count_status, COUNT_SETS_CONTEXT));
    }
    let mut sps: Option<Vec<u8>> = None;
    let mut pps: Option<Vec<u8>> = None;
    for i in 0..readings.len()
        invariant
            count_status == 0,
            first_failure(readings@.take(i as int)) is None,
            match sps {
                Some(sps) => last_of_kind(readings@.take(i as int), SPS_KIND) == Some(sps@),
                None => last_of_kind(readings@.take(i as int), SPS_KIND) is None,
            },
            match pps {
                Some(pps) => last_of_kind(readings@.take(i as int), PPS_KIND) == Some(pps@),
                None => last_of_kind(readings@.take(i as int), PPS_KIND) is None,
            },
    {
        proof {
            assert(readings@.take(i + 1).drop_last() == readings@.take(i as int));
            assert(readings@.take(i + 1).last() == readings@[i as int]);
        }
        let reading: &ParameterSetReading = &readings[i];
        if reading.status != 0 {
            proof {
                lemma_first_failure_stays(readings@, i + 1);
            }
            return Err(os_status_error(reading.status, READ_SET_CONTEXT));
        }
        match &reading.bytes {
            Some(unit) => {
                if unit.len() > 0 {
                    let kind: u8 = unit[0] & 0x1f;
                    if kind == SPS_KIND {
                        sps = Some(copy_bytes(unit));
                    } else if kind == PPS_KIND {
                        pps = Some(copy_bytes(unit));
                    }
                }
            },
            None => {
                proof {
                    lemma_first_failure_stays(readings@, i + 1);
                }
                return Err(owned(NULL_SET_MESSAGE));
            },
        }
    }
    proof {
        assert(readings@.take(readings@.len() as int) == readings@);
    }
    match (sps, pps) {
        (Some(sps), Some(pps)) => Ok((sps, pps)),
        _ => Err(owned(NO_PARAMETER_SETS_MESSAGE)),
    }
}

proof fn lemma_first_failure_stays(readings: Seq<ParameterSetReading>, upto: int)
    requires
        0 <= upto <= readings.len(),
        first_failure(readings.take(upto)) is Some,
    ensures
        first_failure(readings) == first_failure(readings.take(upto)),
    decreases readings.len() - upto,
{
    if upto == readings.len() {
        assert(readings.take(upto) == readings);
    } else {
        assert(readings.take(upto + 1).drop_last() == readings.take(upto));
        lemma_first_failure_stays(readings, upto + 1);
    }
}

// ---------------------------------------------------------------------------------------
// Writing samples
// ---------------------------------------------------------------------------------------

/// Every fragment but the last, which is empty, holds one sample; each is decoded when it is
/// shown, none before the one in front of it and none after `tick`.
pub open spec fn in_order(fragments: Seq<Seq<(u64, u64, Seq<u8>, bool)>>, tick: u64) -> bool {
    &&& fragments.len() > 0
    &&& fragments.last().len() == 0
    &&& forall|i: int|
        0 <= i < fragments.len() - 1 ==> {
            &&& #[trigger] fragments[i].len() == 1
            &&& fragments[i][0].0 == fragments[i][0].1
            &&& fragments[i][0].1 <= tick
        }
    &&& forall|i: int, j: int|
        0 <= i <= j < fragments.len() - 1 ==> #[trigger] fragments[i][0].1
            <= #[trigger] fragments[j][0].1
}

proof fn lemma_latest_dts(fragments: Seq<Seq<(u64, u64, Seq<u8>, bool)>>, tick: u64)
    requires
        in_order(fragments, tick),
    ensures
        latest_dts(fragments) matches Some(dts) ==> dts <= tick,
{
    let flushed = fragments.drop_last();
    assert(latest_dts(fragments) == latest_dts(flushed));
    if flushed.len() > 0 {
        assert(flushed.last() == fragments[fragments.len() - 2]);
        assert(latest_dts(flushed) == Some(flushed.last().last().1));
    }
}

proof fn lemma_in_order_later(
    fragments: Seq<Seq<(u64, u64, Seq<u8>, bool)>>,
    tick: u64,
    later: u64,
)
    requires
        in_order(fragments, tick),
        tick <= later,
    ensures
        in_order(fragments, later),
{
    assert forall|i: int| 0 <= i < fragments.len() - 1 implies {
        &&& #[trigger] fragments[i].len() == 1
        &&& fragments[i][0].0 == fragments[i][0].1
        &&& fragments[i][0].1 <= later
    } by {
        assert(fragments[i].len() == 1);
    }
    assert forall|i: int, j: int| 0 <= i <= j < fragments.len() - 1 implies #[trigger]
        fragments[i][0].1 <= #[trigger] fragments[j][0].1 by {
        assert(fragments[i].len() == 1 && fragments[j].len() == 1);
    }
}

/// Each sample is shown one frame after the one before, from the stream's beginning on.
pub open spec fn evenly_timed(fragments: Seq<Seq<(u64, u64, Seq<u8>, bool)>>) -> bool {
    forall|i: int|
        0 <= i < fragments.len() - 1 ==> (#[trigger] fragments[i])[0].0
            == FRAGMENT_TICKS_PER_FRAME * i
}

/// The media segments of `fragments`, one behind the other.
pub open spec fn media_bytes(fragments: Seq<Seq<(u64, u64, Seq<u8>, bool)>>) -> Seq<u8>
    decreases fragments.len(),
{
    if fragments.len() == 0 {
        Seq::empty()
    } else {
        media_bytes(fragments.drop_last()) + media_segment_bytes(fragments)
    }
}

/// The file of a muxer's stream: the initialization segment, then each flushed fragment.
pub open spec fn stream_file(muxer: FragmentedMuxer) -> Seq<u8> {
    let stream = stream_of(muxer);
    init_segment_bytes(stream.0, stream.1, stream.2, stream.3, stream.4) + media_bytes(
        muxed(muxer).drop_last(),
    )
}

/// One sample, shown and decoded at `tick`, is queued behind those before.
proof fn lemma_sample_queued(
    before: Seq<Seq<(u64, u64, Seq<u8>, bool)>>,
    tick: u64,
    data: Seq<u8>,
    is_sync: bool,
)
    requires
        in_order(before, tick),
    ensures
        ({
            let queued = with_queued(before, (tick, tick, data, is_sync));
            &&& queued.len() == before.len()
            &&& queued.drop_last() == before.drop_last()
            &&& queued.last() == seq![(tick, tick, data, is_sync)]
            &&& latest_dts(queued) == Some(tick)
        }),
{
    let queued = with_queued(before, (tick, tick, data, is_sync));
    assert(queued.drop_last() =~= before.drop_last());
    assert(queued.last() =~= seq![(tick, tick, data, is_sync)]);
}

/// A fragment that holds one sample of the present keeps the fragments in order, and evenly
/// timed where the clock agrees with their number.
proof fn lemma_sample_appended(
    before: Seq<Seq<(u64, u64, Seq<u8>, bool)>>,
    tick: u64,
    data: Seq<u8>,
    is_sync: bool,
)
    requires
        in_order(before, tick),
    ensures
        ({
            let after = with_queued(before, (tick, tick, data, is_sync)).push(Seq::empty());
            &&& after.len() == before.len() + 1
            &&& in_order(after, tick)
            &&& evenly_timed(before) && tick == FRAGMENT_TICKS_PER_FRAME * (before.len() - 1)
                ==> evenly_timed(after)
        }),
{
    let sample = (tick, tick, data, is_sync);
    let queued = with_queued(before, sample);
    let after = queued.push(Seq::empty());
    let last = before.len() - 1;
    lemma_sample_queued(before, tick, data, is_sync);
    assert(after[last] == queued.last());
    assert(after[last] == seq![sample]);
    assert forall|i: int| 0 <= i < last implies #[trigger] after[i] == before[i] by {
        assert(queued.drop_last()[i] == before.drop_last()[i]);
    }
    assert forall|i: int| 0 <= i < after.len() - 1 implies {
        &&& #[trigger] after[i].len() == 1
        &&& after[i][0].0 == after[i][0].1
        &&& after[i][0].1 <= tick
    } by {
        if i < last {
            assert(before[i].len() == 1);
        }
    }
    assert forall|i: int, j: int| 0 <= i <= j < after.len() - 1 implies #[trigger] after[i][0].1
        <= #[trigger] after[j][0].1 by {
        assert(after[i].len() == 1 && after[j].len() == 1);
        if j < last {
            assert(before[i][0].1 <= before[j][0].1);
        }
    }
    if evenly_timed(before) && tick == FRAGMENT_TICKS_PER_FRAME * last {
        assert forall|i: int| 0 <= i < after.len() - 1 implies (#[trigger] after[i])[0].0
            == FRAGMENT_TICKS_PER_FRAME * i by {
            if i < last {
                assert(before[i][0].0 == FRAGMENT_TICKS_PER_FRAME * i);
            }
        }
    }
}

/// A flushed fragment goes behind what the stream's file held before.
proof fn lemma_file_grows(
    stream: (u32, u32, u32, Seq<u8>, Seq<u8>, u32),
    before: Seq<Seq<(u64, u64, Seq<u8>, bool)>>,
    queued: Seq<Seq<(u64, u64, Seq<u8>, bool)>>,
)
    requires
        queued.len() > 0,
        queued.drop_last() == before.drop_last(),
    ensures
        ({
            let init = init_segment_bytes(stream.0, stream.1, stream.2, stream.3, stream.4);
            init + media_bytes(queued.push(Seq::empty()).drop_last()) == (init + media_bytes(
                before.drop_last(),
            )) + media_segment_bytes(queued)
        }),
{
    let init = init_segment_bytes(stream.0, stream.1, stream.2, stream.3, stream.4);
    assert(queued.push(Seq::empty()).drop_last() =~= queued);
    assert(media_bytes(queued) == media_bytes(before.drop_last()) + media_segment_bytes(queued));
    assert((init + media_bytes(before.drop_last())) + media_segment_bytes(queued) =~= init + (
    media_bytes(before.drop_last()) + media_segment_bytes(queued)));
}

/// The stream that a session's callback writes, sample by sample.
pub struct FragmentWriter {
    muxer: Option<FragmentedMuxer>,
    fragments: u32,
    written: u32,
    outstanding: bool,
    next_fragment_tick: u64,
    width: u32,
    height: u32,
    pending_error: Option<String>,
}

impl FragmentWriter {
    /// The clock agrees with the samples written, and the muxer's samples with the writer's
    /// count and clock; the stream is the declared one, and no sample is waiting in the muxer.
    pub closed spec fn wf(&self) -> bool {
        &&& self.next_fragment_tick == FRAGMENT_TICKS_PER_FRAME * self.written
        &&& self.written + (if self.outstanding {
            1int
        } else {
            0
        }) <= self.fragments
        &&& match self.muxer {
            Some(muxer) => {
                &&& muxed(muxer).len() == self.fragments + 1
                &&& in_order(muxed(muxer), self.next_fragment_tick)
                &&& self.unbroken() ==> evenly_timed(muxed(muxer))
                &&& self.is_stream(muxer)
            },
            None => self.fragments == 0,
        }
    }

    /// The muxer's stream is that of this writer's frames, at one frame a second.
    pub open spec fn is_stream(&self, muxer: FragmentedMuxer) -> bool {
        &&& stream_of(muxer).0 == self.size().0
        &&& stream_of(muxer).1 == self.size().1
        &&& stream_of(muxer).2 == FRAGMENT_TICKS_PER_FRAME
    }

    /// How many fragments are known to be written.
    pub closed spec fn written(&self) -> u32 {
        self.written
    }

    /// The last fragment has been handed out and is not known to be written.
    pub closed spec fn outstanding(&self) -> bool {
        self.outstanding
    }

    /// No fragment was lost: all are written, but for the last where it has just been handed
    /// out.
    pub open spec fn unbroken(&self) -> bool {
        self.written() + (if self.outstanding() {
            1int
        } else {
            0
        }) == self.fragments()
    }

    /// What the file holds once all fragments that were handed out are written.
    pub open spec fn file(&self) -> Seq<u8> {
        match self.muxer() {
            Some(muxer) => stream_file(muxer),
            None => Seq::empty(),
        }
    }

    /// The muxer, once the stream is declared.
    pub closed spec fn muxer(&self) -> Option<FragmentedMuxer> {
        self.muxer
    }

    /// When the next sample is shown, in media ticks.
    pub closed spec fn tick(&self) -> u64 {
        self.next_fragment_tick
    }

    /// How many fragments the muxer has given out.
    pub closed spec fn fragments(&self) -> u32 {
        self.fragments
    }

    pub closed spec fn size(&self) -> (u32, u32) {
        (self.width, self.height)
    }

    /// The first error that is still to be reported.
    pub closed spec fn pending(&self) -> Option<Seq<char>> {
        opt_text(self.pending_error)
    }

    /// Nothing but the waiting error differs.
    pub open spec fn same_stream(&self, other: FragmentWriter) -> bool {
        &&& self.muxer() == other.muxer()
        &&& self.tick() == other.tick()
        &&& self.fragments() == other.fragments()
        &&& self.written() == other.written()
        &&& self.outstanding() == other.outstanding()
        &&& self.size() == other.size()
    }

    /// A stream without samples.
    pub fn new(width: u32, height: u32) -> (writer: FragmentWriter)
        ensures
            writer.wf(),
            writer.muxer() is None,
            writer.tick() == 0,
            writer.fragments() == 0,
            writer.written() == 0,
            !writer.outstanding(),
            writer.size() == (width, height),
            writer.pending() is None,
    {
        FragmentWriter {
            muxer: None,
            fragments: 0,
            written: 0,
            outstanding: false,
            next_fragment_tick: 0,
            width,
            height,
            pending_error: None,
        }
    }

    /// Remembers an error, unless one is waiting already.
    pub fn record_callback_error(&mut self, error: String)
        requires
            old(self).wf(),
        ensures
            final(self).wf(),
            final(self).pending() == (match old(self).pending() {
                Some(first) => Some(first),
                None => Some(error@),
            }),
            final(self).same_stream(*old(self)),
    {
        if self.pending_error.is_none() {
            self.pending_error = Some(error);
        }
    }

    /// Reports the waiting error, which is then forgotten.
    pub fn take_callback_error(&mut self) -> (result: Result<(), String>)
        requires
            old(self).wf(),
        ensures
            final(self).wf(),
            reports(result, old(self).pending()),
            final(self).pending() is None,
            final(self).same_stream(*old(self)),
    {
        match self.pending_error.take() {
            Some(error) => Err(error),
            None => Ok(()),
        }
    }

    /// Whether the stream is still to be declared.
    pub fn needs_parameter_sets(&self) -> (needed: bool)
        ensures
            needed == (self.muxer() is None),
    {
        self.muxer.is_none()
    }

    /// Whether one more fragment can be numbered.
    pub fn has_room(&self) -> (room: bool)
        ensures
            room == self.room(),
    {
        self.fragments < 0xffff_fffe
    }

    /// One more fragment can be numbered.
    pub open spec fn room(&self) -> bool {
        self.fragments() < 0xffff_fffe
    }

    /// A muxer for the stream with the given parameter sets, and what the file begins with.
    pub fn declare_stream(&self, sps: Vec<u8>, pps: Vec<u8>) -> (declared: (
        FragmentedMuxer,
        Vec<u8>,
    ))
        ensures
            muxed(declared.0) == seq![Seq::<(u64, u64, Seq<u8>, bool)>::empty()],
            stream_of(declared.0) == (
                self.size().0,
                self.size().1,
                FRAGMENT_TICKS_PER_FRAME as u32,
                sps@,
                pps@,
                FRAGMENT_DURATION_MS,
            ),
            declared.1@ == init_segment_bytes(
                self.size().0,
                self.size().1,
                FRAGMENT_TICKS_PER_FRAME as u32,
                sps@,
                pps@,
            ),
            declared.1@ == stream_file(declared.0),
            declared.1@.len() >= 8,
            declared.1@.subrange(4, 8) == seq![0x66u8, 0x74u8, 0x79u8, 0x70u8],
    {
        let mut muxer: FragmentedMuxer = new_muxer(
            self.width,
            self.height,
            FRAGMENT_TICKS_PER_FRAME as u32,
            sps,
            pps,
            FRAGMENT_DURATION_MS,
        );
        let init: Vec<u8> = muxer_init_segment(&mut muxer);
        proof {
            assert(muxed(muxer).drop_last() == Seq::<Seq<(u64, u64, Seq<u8>, bool)>>::empty());
            assert(init@ + Seq::<u8>::empty() == init@);
        }
        (muxer, init)
    }

    /// Takes over the muxer of a stream whose beginning has been written.
    pub fn stream_declared(&mut self, muxer: FragmentedMuxer)
        requires
            old(self).wf(),
            old(self).muxer() is None,
            muxed(muxer) == seq![Seq::<(u64, u64, Seq<u8>, bool)>::empty()],
            old(self).is_stream(muxer),
        ensures
            final(self).wf(),
            final(self).muxer() == Some(muxer),
            final(self).tick() == 0,
            final(self).fragments() == 0,
            final(self).written() == 0,
            !final(self).outstanding(),
            final(self).size() == old(self).size(),
            final(self).pending() == old(self).pending(),
    {
        self.muxer = Some(muxer);
    }

    /// Puts one encoded sample into a fragment of its own. The clock stands still until the
    /// fragment has been written.
    pub fn mux_sample(&mut self, data: &Vec<u8>, is_sync: bool) -> (result: Result<
        Vec<u8>,
        EncoderError,
    >)
        requires
            old(self).wf(),
            old(self).room(),
        ensures
            final(self).wf(),
            final(self).tick() == old(self).tick(),
            final(self).written() == old(self).written(),
            final(self).size() == old(self).size(),
            final(self).pending() == old(self).pending(),
            match old(self).muxer() {
                Some(muxer) => {
                    let sample = (old(self).tick(), old(self).tick(), data@, is_sync);
                    let fragments = with_queued(muxed(muxer), sample);
                    &&& result matches Ok(segment) && segment@ == media_segment_bytes(fragments)
                        && segment@.len() >= data@.len() && segment@.skip(
                        segment@.len() - data@.len(),
                    ) == data@
                    &&& final(self).muxer() matches Some(after) && muxed(after) == fragments.push(
                        Seq::empty(),
                    ) && stream_of(after) == stream_of(muxer)
                    &&& final(self).fragments() == old(self).fragments() + 1
                    &&& final(self).outstanding()
                    &&& final(self).file() == old(self).file() + result->Ok_0@
                },
                None => {
                    &&& result matches Err(error) && error.is_other(NO_MUXER_MESSAGE@)
                    &&& *final(self) == *old(self)
                },
            },
    {
        let mut muxer: FragmentedMuxer = match self.muxer.take() {
            Some(muxer) => muxer,
            None => return Err(EncoderError::Other(owned(NO_MUXER_MESSAGE))),
        };
        let tick: u64 = self.next_fragment_tick;
        let ghost before = muxed(muxer);
        proof {
            lemma_latest_dts(before, tick);
        }
        let written: Result<(), FragmentedError> = muxer_write_video(
            &mut muxer,
            tick,
            tick,
            data,
            is_sync,
        );
        if let Err(error) = written {
            self.muxer = Some(muxer);
            return Err(EncoderError::Mux(error));
        }
        let ghost queued = muxed(muxer);
        proof {
            lemma_sample_queued(before, tick, data@, is_sync);
        }
        let segment: Option<Vec<u8>> = muxer_flush_segment(&mut muxer);
        proof {
            assert(queued == with_queued(before, (tick, tick, data@, is_sync)));
            lemma_sample_appended(before, tick, data@, is_sync);
            lemma_file_grows(stream_of(muxer), before, queued);
            if !self.outstanding && self.written == self.fragments {
                assert(self.unbroken());
            }
        }
        self.muxer = Some(muxer);
        match segment {
            Some(segment) => {
                self.fragments = self.fragments + 1;
                self.outstanding = true;
                Ok(segment)
            },
            None => Err(EncoderError::Other(owned(NO_SEGMENT_MESSAGE))),
        }
    }

    /// Moves the clock to the next frame, once the last fragment has been written.
    pub fn sample_written(&mut self)
        requires
            old(self).wf(),
            old(self).outstanding(),
        ensures
            final(self).wf(),
            final(self).tick() == old(self).tick() + FRAGMENT_TICKS_PER_FRAME,
            final(self).written() == old(self).written() + 1,
            !final(self).outstanding(),
            final(self).muxer() == old(self).muxer(),
            final(self).fragments() == old(self).fragments(),
            final(self).size() == old(self).size(),
            final(self).pending() == old(self).pending(),
    {
        let tick: u64 = self.next_fragment_tick;
        self.next_fragment_tick = tick.saturating_add(FRAGMENT_TICKS_PER_FRAME);
        self.written = self.written + 1;
        self.outstanding = false;
        proof {
            if self.muxer is Some {
                lemma_in_order_later(muxed(self.muxer->0), tick, self.next_fragment_tick);
            }
        }
    }
}

// ---------------------------------------------------------------------------------------
// Laws
// ---------------------------------------------------------------------------------------

/// The fragments of a stream hold one sample each, and no sample is due before an earlier one.
pub proof fn samples_stay_in_order(writer: FragmentWriter)
    requires
        writer.wf(),
    ensures
        writer.muxer() matches Some(muxer) ==> in_order(muxed(muxer), writer.tick()),
{
}

/// The clock stands at one frame for each fragment that was written. As long as none was lost,
/// each sample is shown and decoded as many frames after the first as samples precede it.
pub proof fn frames_are_a_second_apart(writer: FragmentWriter)
    requires
        writer.wf(),
    ensures
        writer.tick() == FRAGMENT_TICKS_PER_FRAME * writer.written(),
        writer.muxer() matches Some(muxer) ==> {
            &&& stream_of(muxer).2 == FRAGMENT_TICKS_PER_FRAME
            &&& muxed(muxer).len() == writer.fragments() + 1
            &&& writer.unbroken() ==> forall|i: int|
                0 <= i < writer.fragments() ==> (#[trigger] muxed(muxer)[i]).len() == 1
                    && muxed(muxer)[i][0].0 == FRAGMENT_TICKS_PER_FRAME * i && muxed(muxer)[i][0].1
                    == FRAGMENT_TICKS_PER_FRAME * i
        },
{
    if writer.muxer() is Some {
        let fragments = muxed(writer.muxer()->0);
        assert forall|i: int| writer.unbroken() && 0 <= i < writer.fragments() implies (
        #[trigger] fragments[i]).len() == 1 && fragments[i][0].0 == FRAGMENT_TICKS_PER_FRAME * i
            && fragments[i][0].1 == FRAGMENT_TICKS_PER_FRAME * i by {
            assert(fragments[i].len() == 1);
        }
    }
}

/// The file of a stream begins with its initialization segment, which stands there once: behind
/// it come the fragments alone, in their order.
pub proof fn file_is_one_beginning_and_the_fragments(writer: FragmentWriter)
    requires
        writer.wf(),
        writer.muxer() is Some,
    ensures
        ({
            let muxer = writer.muxer()->0;
            let stream = stream_of(muxer);
            let init = init_segment_bytes(stream.0, stream.1, stream.2, stream.3, stream.4);
            &&& writer.file().len() >= init.len()
            &&& writer.file().take(init.len() as int) == init
            &&& writer.file().skip(init.len() as int) == media_bytes(muxed(muxer).drop_last())
        }),
{
    let muxer = writer.muxer()->0;
    let stream = stream_of(muxer);
    let init = init_segment_bytes(stream.0, stream.1, stream.2, stream.3, stream.4);
    let media = media_bytes(muxed(muxer).drop_last());
    assert((init + media).take(init.len() as int) =~= init);
    assert((init + media).skip(init.len() as int) =~= media);
}

/// A queued sample goes behind those of its fragment; the fragments before stay.
pub proof fn sample_is_queued_last(
    fragments: Seq<Seq<(u64, u64, Seq<u8>, bool)>>,
    sample: (u64, u64, Seq<u8>, bool),
    i: int,
)
    requires
        fragments.len() > 0,
    ensures
        ({
            let after = with_queued(fragments, sample);
            &&& after.len() == fragments.len()
            &&& after.last() == fragments.last().push(sample)
            &&& 0 <= i < fragments.len() - 1 ==> after[i] == fragments[i]
        }),
{
}

/// The file of a stream is its initialization segment; each fragment that is flushed adds its
/// media segment behind what was there.
pub proof fn fragments_are_written_in_order(fragments: Seq<Seq<(u64, u64, Seq<u8>, bool)>>)
    ensures
        media_bytes(Seq::empty()) == Seq::<u8>::empty(),
        fragments.len() > 0 ==> media_bytes(fragments) == media_bytes(fragments.drop_last())
            + media_segment_bytes(fragments),
{
}

/// Frame by frame the clock of a stream goes on by 3000 of its 3000 ticks a second.
pub proof fn stream_shows_one_frame_a_second(writer: FragmentWriter, i: int)
    requires
        writer.wf(),
        writer.muxer() is Some,
        writer.unbroken(),
        0 <= i < writer.fragments(),
    ensures
        ({
            let muxer = writer.muxer()->0;
            &&& stream_of(muxer).2 == 3_000
            &&& stream_of(muxer).0 == writer.size().0
            &&& stream_of(muxer).1 == writer.size().1
            &&& writer.tick() == 3_000 * writer.written()
            &&& muxed(muxer)[i].len() == 1
            &&& muxed(muxer)[i][0].0 == 3_000 * i
            &&& muxed(muxer)[i][0].1 == 3_000 * i
        }),
{
    frames_are_a_second_apart(writer);
    assert(muxed(writer.muxer()->0)[i].len() == 1);
}

/// A parameter set was read exactly where its call gave status 0 and handed one out.
pub proof fn parameter_set_is_read_on_status_zero(reading: ParameterSetReading)
    ensures
        reading.outcome() is Ok <==> reading.status == 0 && reading.bytes is Some,
        reading.outcome() matches Ok(set) ==> set == reading.bytes->0@,
        reading.status != 0 ==> reading.outcome() == Err::<Seq<u8>, Seq<char>>(
            os_status_message(reading.status, "failed to read H.264 parameter set"@),
        ),
        reading.status == 0 && reading.bytes is None ==> reading.outcome() == Err::<
            Seq<u8>,
            Seq<char>,
        >("parameter set pointer was null"@),
{
}

/// The failure of readings is that of the first one that failed: all before it went well. There
/// is none exactly where all went well.
pub proof fn first_failed_reading_counts(readings: Seq<ParameterSetReading>)
    ensures
        first_failure(readings) is None <==> forall|i: int|
            0 <= i < readings.len() ==> (#[trigger] readings[i]).outcome() is Ok,
        first_failure(readings) matches Some(message) ==> exists|i: int|
            {
                &&& 0 <= i < readings.len()
                &&& (#[trigger] readings[i]).outcome() == Err::<Seq<u8>, Seq<char>>(message)
                &&& forall|j: int| 0 <= j < i ==> (#[trigger] readings[j]).outcome() is Ok
            },
    decreases readings.len(),
{
    if readings.len() > 0 {
        let front = readings.drop_last();
        let last = readings.len() - 1;
        first_failed_reading_counts(front);
        assert forall|i: int| 0 <= i < front.len() implies #[trigger] front[i] == readings[i] by {}
        if first_failure(front) is Some {
            let message = first_failure(front)->0;
            let i = choose|i: int|
                {
                    &&& 0 <= i < front.len()
                    &&& (#[trigger] front[i]).outcome() == Err::<Seq<u8>, Seq<char>>(message)
                    &&& forall|j: int| 0 <= j < i ==> (#[trigger] front[j]).outcome() is Ok
                };
            assert(readings[i].outcome() == Err::<Seq<u8>, Seq<char>>(message));
            assert forall|j: int| 0 <= j < i implies (#[trigger] readings[j]).outcome() is Ok by {
                assert(front[j].outcome() is Ok);
            }
        } else {
            assert forall|j: int| 0 <= j < last implies (#[trigger] readings[j]).outcome()
                is Ok by {
                assert(front[j].outcome() is Ok);
            }
            assert(readings[last] == readings.last());
        }
    }
}

/// The set of a kind is the last one that was read with that kind in the low five bits of its
/// first byte; there is none exactly where no set has the kind.
pub proof fn last_set_of_a_kind_counts(readings: Seq<ParameterSetReading>, kind: u8)
    ensures
        last_of_kind(readings, kind) matches Some(unit) ==> exists|i: int|
            {
                &&& 0 <= i < readings.len()
                &&& (#[trigger] readings[i]).outcome() == Ok::<Seq<u8>, Seq<char>>(unit)
                &&& unit.len() > 0
                &&& unit[0] & 0x1f == kind
                &&& forall|j: int|
                    i < j < readings.len() ==> ((#[trigger] readings[j]).outcome() matches Ok(other)
                        ==> other.len() == 0 || other[0] & 0x1f != kind)
            },
        last_of_kind(readings, kind) is None ==> forall|j: int|
            0 <= j < readings.len() ==> ((#[trigger] readings[j]).outcome() matches Ok(other)
                ==> other.len() == 0 || other[0] & 0x1f != kind),
    decreases readings.len(),
{
    if readings.len() > 0 {
        let front = readings.drop_last();
        let last = readings.len() - 1;
        assert(readings[last] == readings.last());
        assert forall|i: int| 0 <= i < front.len() implies #[trigger] front[i] == readings[i] by {}
        last_set_of_a_kind_counts(front, kind);
        let here = readings.last().outcome() matches Ok(unit) && unit_kind(unit) == Some(kind);
        if !here {
            if last_of_kind(front, kind) is Some {
                let unit = last_of_kind(front, kind)->0;
                let i = choose|i: int|
                    {
                        &&& 0 <= i < front.len()
                        &&& (#[trigger] front[i]).outcome() == Ok::<Seq<u8>, Seq<char>>(unit)
                        &&& unit.len() > 0
                        &&& unit[0] & 0x1f == kind
                        &&& forall|j: int|
                            i < j < front.len() ==> ((#[trigger] front[j]).outcome() matches Ok(
                                other,
                            ) ==> other.len() == 0 || other[0] & 0x1f != kind)
                    };
                assert(readings[i].outcome() == Ok::<Seq<u8>, Seq<char>>(unit));
                assert forall|j: int| i < j < readings.len() implies ((
                #[trigger] readings[j]).outcome() matches Ok(other) ==> other.len() == 0 || other[0]
                    & 0x1f != kind) by {
                    if j < last {
                        assert(front[j] == readings[j]);
                    }
                }
            } else {
                assert forall|j: int| 0 <= j < readings.len() implies ((
                #[trigger] readings[j]).outcome() matches Ok(other) ==> other.len() == 0 || other[0]
                    & 0x1f != kind) by {
                    if j < last {
                        assert(front[j] == readings[j]);
                    }
                }
            }
        }
    }
}

/// A unit is a sequence parameter set where the low five bits of its first byte read seven, and a
/// picture parameter set where they read eight, whatever the bits above.
pub proof fn parameter_sets_have_their_kinds(payload: Seq<u8>)
    ensures
        unit_kind(seq![0x67u8] + payload) == Some(SPS_KIND),
        unit_kind(seq![0x27u8] + payload) == Some(SPS_KIND),
        unit_kind(seq![0x68u8] + payload) == Some(PPS_KIND),
        unit_kind(seq![0x28u8] + payload) == Some(PPS_KIND),
        SPS_KIND == 7,
        PPS_KIND == 8,
{
    assert(0x67u8 & 0x1f == 7 && 0x27u8 & 0x1f == 7 && 0x68u8 & 0x1f == 8 && 0x28u8 & 0x1f == 8)
        by (bit_vector);
    assert((seq![0x67u8] + payload)[0] == 0x67);
    assert((seq![0x27u8] + payload)[0] == 0x27);
    assert((seq![0x68u8] + payload)[0] == 0x68);
    assert((seq![0x28u8] + payload)[0] == 0x28);
}

/// A stream stays the same where nothing but the waiting error changes.
pub proof fn same_stream_keeps_all_but_the_error(writer: FragmentWriter, other: FragmentWriter)
    requires
        writer.same_stream(other),
    ensures
        writer.muxer() == other.muxer(),
        writer.tick() == other.tick(),
        writer.fragments() == other.fragments(),
        writer.written() == other.written(),
        writer.outstanding() == other.outstanding(),
        writer.size() == other.size(),
        writer.file() == other.file(),
{
}

} // verus!
