//! An encoder session's life: opening it, handing it frames, finishing it.
use crate::decimal::{decimal, signed_decimal, to_decimal, to_signed_decimal};
use crate::fragments::FragmentWriter;
use crate::frame::byte_count;
use crate::text::owned;
use muxide::fragmented::FragmentedError;
use vstd::prelude::*;

verus! {

/// Why a frame or a sample could not be written.
pub enum EncoderError {
    /// The caller's frame has the wrong size.
    InvalidInput(String),
    /// Anything else that has a message of its own.
    Other(String),
    /// The muxer refused a sample.
    Mux(FragmentedError),
}

impl EncoderError {
    /// The error is one of its own, with this message.
    pub open spec fn is_other(self, message: Seq<char>) -> bool {
        self matches EncoderError::Other(text) && text@ == message
    }

    /// The error blames the input, with this message.
    pub open spec fn is_invalid_input(self, message: Seq<char>) -> bool {
        self matches EncoderError::InvalidInput(text) && text@ == message
    }
}

/// `context`, with the status that the operating system gave.
pub open spec fn os_status_message(status: i32, context: Seq<char>) -> Seq<char> {
    context + " (OSStatus "@ + signed_decimal(status as int) + ")"@
}

/// The message of a failed operating system call.
pub fn os_status_error(status: i32, context: &str) -> (message: String)
    ensures
        message@ == os_status_message(status, context@),
{
    owned(context).concat(" (OSStatus ").concat(to_signed_decimal(status).as_str()).concat(")")
}

/// The result passes on an error that was waiting, where there was one.
pub open spec fn reports(result: Result<(), String>, pending: Option<Seq<char>>) -> bool {
    match result {
        Ok(()) => pending is None,
        Err(message) => pending == Some(message@),
    }
}

/// `Ok` for status 0, else the message of the failed call.
pub fn check_status(status: i32, context: &str) -> (result: Result<(), String>)
    ensures
        match result {
            Ok(()) => status == 0,
            Err(message) => status != 0 && message@ == os_status_message(status, context@),
        },
{
    if status != 0 {
        Err(os_status_error(status, context))
    } else {
        Ok(())
    }
}

// ---------------------------------------------------------------------------------------
// Opening a session
// ---------------------------------------------------------------------------------------

/// The session's properties.
#[derive(Debug, Clone, Copy, PartialEq, Eq, Structural)]
pub struct SessionSettings {
    pub width: i32,
    pub height: i32,
    pub real_time: bool,
    pub allow_frame_reordering: bool,
    pub expected_frame_rate: i32,
    pub max_key_frame_interval: i32,
}

/// The signed number with the same 32 bits.
pub open spec fn as_signed(number: u32) -> int {
    if number > i32::MAX {
        number - 0x1_0000_0000
    } else {
        number as int
    }
}

fn to_signed(number: u32) -> (signed: i32)
    ensures
        signed == as_signed(number),
{
    if number > 0x7fff_ffff {
        -((0xffff_ffff - number) as i32) - 1
    } else {
        number as i32
    }
}

/// Frames are encoded as they come and in order, with a key frame every ten seconds.
pub fn session_settings(width: u32, height: u32, fps: u32) -> (settings: SessionSettings)
    ensures
        settings.width == as_signed(width),
        settings.height == as_signed(height),
        settings.real_time,
        !settings.allow_frame_reordering,
        settings.expected_frame_rate == as_signed(fps),
        settings.max_key_frame_interval == as_signed(
            if fps * 10 > u32::MAX {
                u32::MAX
            } else {
                (fps * 10) as u32
            },
        ),
{
    let interval: u32 = match fps.checked_mul(10) {
        Some(frames) => frames,
        None => u32::MAX,
    };
    SessionSettings {
        width: to_signed(width),
        height: to_signed(height),
        real_time: true,
        allow_frame_reordering: false,
        expected_frame_rate: to_signed(fps),
        max_key_frame_interval: to_signed(interval),
    }
}

/// What is to be done next to open a session.
#[derive(Debug, Clone, Copy, PartialEq, Eq, Structural)]
pub enum OpenStep {
    CreateSession,
    SetRealTime,
    SetFrameReordering,
    SetFrameRate,
    SetKeyFrameInterval,
    Prepare,
    FetchPool,
    Ready,
}

/// Why a session could not be opened, and what has to be undone.
pub struct OpenFailure {
    pub message: String,
    /// The state shared with the session's callback is given back.
    pub release_state: bool,
    /// The session is invalidated first.
    pub invalidate_session: bool,
}

pub const CREATE_SESSION_CONTEXT: &'static str =
    "failed to create VideoToolbox compression session";

pub const NULL_SESSION_MESSAGE: &'static str = "VideoToolbox returned a null compression session";

pub const SET_PROPERTY_CONTEXT: &'static str = "failed to set VideoToolbox property ";

pub const PREPARE_SESSION_CONTEXT: &'static str =
    "failed to prepare VideoToolbox compression session";

pub const NO_POOL_MESSAGE: &'static str =
    "VideoToolbox did not expose a source pixel buffer pool";

impl OpenStep {
    /// The step sets the property that comes before the next step.
    pub open spec fn sets_property(self) -> bool {
        self == OpenStep::SetRealTime || self == OpenStep::SetFrameReordering || self
            == OpenStep::SetFrameRate || self == OpenStep::SetKeyFrameInterval
    }

    /// The step that follows where all goes well.
    pub open spec fn next(self) -> OpenStep {
        match self {
            OpenStep::CreateSession => OpenStep::SetRealTime,
            OpenStep::SetRealTime => OpenStep::SetFrameReordering,
            OpenStep::SetFrameReordering => OpenStep::SetFrameRate,
            OpenStep::SetFrameRate => OpenStep::SetKeyFrameInterval,
            OpenStep::SetKeyFrameInterval => OpenStep::Prepare,
            OpenStep::Prepare => OpenStep::FetchPool,
            OpenStep::FetchPool => OpenStep::Ready,
            OpenStep::Ready => OpenStep::Ready,
        }
    }

    /// The step went well: the call gave status 0 and, where it hands out an object, did.
    pub open spec fn succeeded(self, status: i32, present: bool) -> bool {
        match self {
            OpenStep::CreateSession => status == 0 && present,
            OpenStep::FetchPool => present,
            OpenStep::Ready => true,
            _ => status == 0,
        }
    }

    /// The message of a step that failed; `key` is the property it set.
    pub open spec fn failure_message(self, status: i32, key: Seq<char>) -> Seq<char> {
        match self {
            OpenStep::CreateSession => if status != 0 {
                os_status_message(status, CREATE_SESSION_CONTEXT@)
            } else {
                NULL_SESSION_MESSAGE@
            },
            OpenStep::Prepare => os_status_message(status, PREPARE_SESSION_CONTEXT@),
            OpenStep::FetchPool => NO_POOL_MESSAGE@,
            _ => os_status_message(status, SET_PROPERTY_CONTEXT@ + key),
        }
    }

    /// Goes on to the next step, or says why the session cannot be opened. `status` is what
    /// the step's call returned, `present` whether it handed out the object asked for, `key`
    /// the property that it set.
    pub fn advance(self, status: i32, present: bool, key: &str) -> (result: Result<
        OpenStep,
        OpenFailure,
    >)
        ensures
            match result {
                Ok(step) => self.succeeded(status, present) && step == self.next(),
                Err(failure) => {
                    &&& !self.succeeded(status, present)
                    &&& failure.message@ == self.failure_message(status, key@)
                    &&& failure.release_state == !self.sets_property()
                    &&& failure.invalidate_session == (self == OpenStep::Prepare || self
                        == OpenStep::FetchPool)
                },
            },
    {
        match self {
            OpenStep::CreateSession => if status != 0 {
                Err(
                    OpenFailure {
                        message: os_status_error(status, CREATE_SESSION_CONTEXT),
                        release_state: true,
                        invalidate_session: false,
                    },
                )
            } else if !present {
                Err(
                    OpenFailure {
                        message: owned(NULL_SESSION_MESSAGE),
                        release_state: true,
                        invalidate_session: false,
                    },
                )
            } else {
                Ok(OpenStep::SetRealTime)
            },
            OpenStep::Prepare => if status != 0 {
                Err(
                    OpenFailure {
                        message: os_status_error(status, PREPARE_SESSION_CONTEXT),
                        release_state: true,
                        invalidate_session: true,
                    },
                )
            } else {
                Ok(OpenStep::FetchPool)
            },
            OpenStep::FetchPool => if !present {
                Err(
                    OpenFailure {
                        message: owned(NO_POOL_MESSAGE),
                        release_state: true,
                        invalidate_session: true,
                    },
                )
            } else {
                Ok(OpenStep::Ready)
            },
            OpenStep::Ready => Ok(OpenStep::Ready),
            _ => if status != 0 {
                let context: String = owned(SET_PROPERTY_CONTEXT).concat(key);
                Err(
                    OpenFailure {
                        message: os_status_error(status, context.as_str()),
                        release_state: false,
                        invalidate_session: false,
                    },
                )
            } else if self == OpenStep::SetRealTime {
                Ok(OpenStep::SetFrameReordering)
            } else if self == OpenStep::SetFrameReordering {
                Ok(OpenStep::SetFrameRate)
            } else if self == OpenStep::SetFrameRate {
                Ok(OpenStep::SetKeyFrameInterval)
            } else {
                Ok(OpenStep::Prepare)
            },
        }
    }
}

// ---------------------------------------------------------------------------------------
// Writing frames and finishing
// ---------------------------------------------------------------------------------------

/// When a frame is shown: in units of `1 / timescale` seconds.
#[derive(Debug, Clone, Copy, PartialEq, Eq, Structural)]
pub struct FrameTiming {
    pub presentation: i64,
    pub duration: i64,
    pub timescale: i32,
}

/// What is left to be done to finish a segment.
#[derive(Debug, Clone, Copy, PartialEq, Eq, Structural)]
pub enum FinishStep {
    /// Flush and invalidate the session.
    CompleteFrames,
    /// Give back the state shared with the session's callback, flushing its file.
    ReleaseState,
    /// Nothing.
    Done,
}

/// An encoder's frame size and rate, and which of its resources it still holds.
#[derive(Debug, Clone, Copy, PartialEq, Eq, Structural)]
pub struct SegmentEncoder {
    pub width: u32,
    pub height: u32,
    pub fps: u32,
    pub next_pts: i64,
    pub session_open: bool,
    pub pool_open: bool,
    pub state_open: bool,
    pub finished: bool,
}

pub const SESSION_FINISHED_MESSAGE: &'static str = "encoder session already finished";

pub const POOL_FINISHED_MESSAGE: &'static str = "encoder pixel buffer pool already finished";

pub const ENCODE_FRAME_CONTEXT: &'static str = "failed to encode VideoToolbox frame";

pub const FLUSH_FRAME_CONTEXT: &'static str = "failed to flush VideoToolbox encoded frame";

pub const FLUSH_PENDING_CONTEXT: &'static str = "failed to flush pending VideoToolbox frames";

/// The message for a frame of the wrong size.
pub open spec fn frame_length_message(len: nat, expected: nat) -> Seq<char> {
    "rgba frame length "@ + decimal(len) + " did not match expected "@ + decimal(expected)
}

impl SegmentEncoder {
    /// An encoder whose session is ready.
    pub fn opened(width: u32, height: u32, fps: u32) -> (encoder: SegmentEncoder)
        ensures
            encoder == (SegmentEncoder {
                width,
                height,
                fps,
                next_pts: 0,
                session_open: true,
                pool_open: true,
                state_open: true,
                finished: false,
            }),
    {
        SegmentEncoder {
            width,
            height,
            fps,
            next_pts: 0,
            session_open: true,
            pool_open: true,
            state_open: true,
            finished: false,
        }
    }

    /// Checks that a frame of `len` bytes can be encoded, and when it will be shown.
    pub fn begin_frame(&self, len: usize) -> (result: Result<FrameTiming, EncoderError>)
        requires
            byte_count(self.width, self.height, 4) <= usize::MAX,
        ensures
            match result {
                Ok(timing) => {
                    &&& len == byte_count(self.width, self.height, 4)
                    &&& self.session_open && self.pool_open
                    &&& timing.presentation == self.next_pts
                    &&& timing.duration == 1
                    &&& timing.timescale == as_signed(self.fps)
                },
                Err(error) => if len != byte_count(self.width, self.height, 4) {
                    error.is_invalid_input(
                        frame_length_message(
                            len as nat,
                            byte_count(self.width, self.height, 4) as nat,
                        ),
                    )
                } else if !self.session_open {
                    error.is_other(SESSION_FINISHED_MESSAGE@)
                } else {
                    !self.pool_open && error.is_other(POOL_FINISHED_MESSAGE@)
                },
            },
    {
        proof {
            assert(0 <= self.width * self.height <= byte_count(self.width, self.height, 4))
                by (nonlinear_arith)
                requires
                    byte_count(self.width, self.height, 4) == self.width * self.height * 4,
                    0 <= self.width,
                    0 <= self.height,
            ;
        }
        let expected: usize = self.width as usize * self.height as usize * 4;
        if len != expected {
            return Err(
                EncoderError::InvalidInput(
                    owned("rgba frame length ").concat(to_decimal(len as u64).as_str()).concat(
                        " did not match expected ",
                    ).concat(to_decimal(expected as u64).as_str()),
                ),
            );
        }
        if !self.session_open {
            return Err(EncoderError::Other(owned(SESSION_FINISHED_MESSAGE)));
        }
        if !self.pool_open {
            return Err(EncoderError::Other(owned(POOL_FINISHED_MESSAGE)));
        }
        Ok(
            FrameTiming {
                presentation: self.next_pts,
                duration: 1,
                timescale: to_signed(self.fps),
            },
        )
    }

    /// Takes note of the call that encoded a frame. A frame that could not be encoded is not
    /// flushed.
    pub fn frame_encoded(&self, status: i32) -> (result: Result<(), String>)
        ensures
            match result {
                Ok(()) => status == 0,
                Err(message) => status != 0 && message@ == os_status_message(
                    status,
                    ENCODE_FRAME_CONTEXT@,
                ),
            },
    {
        check_status(status, ENCODE_FRAME_CONTEXT)
    }

    /// Takes note of the call that flushed a frame: where it gave status 0 the next frame is
    /// due one unit later.
    pub fn frame_flushed(&mut self, status: i32) -> (result: Result<(), String>)
        requires
            old(self).next_pts < i64::MAX,
        ensures
            match result {
                Ok(()) => {
                    &&& status == 0
                    &&& *final(self) == (SegmentEncoder {
                        next_pts: (old(self).next_pts + 1) as i64,
                        ..*old(self)
                    })
                },
                Err(message) => {
                    &&& status != 0
                    &&& message@ == os_status_message(status, FLUSH_FRAME_CONTEXT@)
                    &&& *final(self) == *old(self)
                },
            },
    {
        if status != 0 {
            return Err(os_status_error(status, FLUSH_FRAME_CONTEXT));
        }
        self.next_pts = self.next_pts + 1;
        Ok(())
    }

    /// What follows once the session is gone.
    pub open spec fn without_session(self) -> SegmentEncoder {
        SegmentEncoder { session_open: false, ..self }
    }

    /// What follows once session and buffers are gone: the encoder is finished where nothing
    /// else is left.
    pub open spec fn without_pool(self) -> SegmentEncoder {
        SegmentEncoder {
            session_open: false,
            pool_open: false,
            state_open: false,
            finished: self.finished || !self.state_open,
            ..self
        }
    }

    /// Begins to finish the segment. The session is given up at once; where there is none,
    /// the buffers and the callback's state are.
    pub fn finish(&mut self) -> (step: FinishStep)
        ensures
            match step {
                FinishStep::CompleteFrames => {
                    &&& !old(self).finished && old(self).session_open
                    &&& *final(self) == old(self).without_session()
                },
                FinishStep::ReleaseState => {
                    &&& !old(self).finished && !old(self).session_open && old(self).state_open
                    &&& *final(self) == old(self).without_pool()
                },
                FinishStep::Done => if old(self).finished {
                    *final(self) == *old(self)
                } else {
                    &&& !old(self).session_open && !old(self).state_open
                    &&& *final(self) == old(self).without_pool()
                },
            },
    {
        if self.finished {
            return FinishStep::Done;
        }
        if self.session_open {
            self.session_open = false;
            return FinishStep::CompleteFrames;
        }
        self.give_up_pool()
    }

    fn give_up_pool(&mut self) -> (step: FinishStep)
        requires
            !old(self).finished,
            !old(self).session_open,
        ensures
            *final(self) == old(self).without_pool(),
            step == (if old(self).state_open {
                FinishStep::ReleaseState
            } else {
                FinishStep::Done
            }),
    {
        self.pool_open = false;
        if self.state_open {
            self.state_open = false;
            FinishStep::ReleaseState
        } else {
            self.finished = true;
            FinishStep::Done
        }
    }

    /// Takes note of the last flush of a session that is being finished. An error ends the
    /// attempt.
    pub fn pending_flushed(&self, status: i32) -> (result: Result<(), String>)
        ensures
            match result {
                Ok(()) => status == 0,
                Err(message) => status != 0 && message@ == os_status_message(
                    status,
                    FLUSH_PENDING_CONTEXT@,
                ),
            },
    {
        check_status(status, FLUSH_PENDING_CONTEXT)
    }

    /// Goes on to finish the segment once the session's last frames are flushed. An error that
    /// the callback left behind ends the attempt.
    pub fn frames_completed(&mut self, state: &mut FragmentWriter) -> (result: Result<
        FinishStep,
        String,
    >)
        requires
            !old(self).finished,
            !old(self).session_open,
            old(state).wf(),
        ensures
            final(state).wf(),
            final(state).same_stream(*old(state)),
            final(state).pending() is None,
            if let Some(error) = old(state).pending() {
                &&& result matches Err(message) && message@ == error
                &&& *final(self) == *old(self)
            } else {
                &&& *final(self) == old(self).without_pool()
                &&& result == Ok::<FinishStep, String>(
                    if old(self).state_open {
                        FinishStep::ReleaseState
                    } else {
                        FinishStep::Done
                    },
                )
            },
    {
        if let Err(message) = state.take_callback_error() {
            return Err(message);
        }
        Ok(self.give_up_pool())
    }

    /// Takes note that the callback's state was released: its file was flushed, or that failed,
    /// and it may have held an error. The segment is finished where neither is so.
    pub fn state_released(
        &mut self,
        state: FragmentWriter,
        flushed: Result<(), String>,
    ) -> (result: Result<(), String>)
        requires
            state.wf(),
        ensures
            match flushed {
                Err(error) => {
                    &&& result matches Err(message) && message@ == error@
                    &&& *final(self) == *old(self)
                },
                Ok(()) => {
                    &&& reports(result, state.pending())
                    &&& *final(self) == (SegmentEncoder {
                        finished: old(self).finished || state.pending() is None,
                        ..*old(self)
                    })
                },
            },
    {
        if let Err(message) = flushed {
            return Err(message);
        }
        let mut released: FragmentWriter = state;
        if let Err(message) = released.take_callback_error() {
            return Err(message);
        }
        self.finished = true;
        Ok(())
    }
}

// ---------------------------------------------------------------------------------------
// Outcomes of system calls
// ---------------------------------------------------------------------------------------

pub const ALLOCATE_BUFFER_CONTEXT: &'static str = "failed to allocate CoreVideo pixel buffer";

pub const NULL_BUFFER_MESSAGE: &'static str = "CoreVideo returned a null pixel buffer";

pub const LOCK_BUFFER_CONTEXT: &'static str = "failed to lock CoreVideo pixel buffer";

pub const UNLOCK_BUFFER_CONTEXT: &'static str = "failed to unlock CoreVideo pixel buffer";

pub const NULL_ADDRESS_MESSAGE: &'static str = "pixel buffer base address was null";

/// Whether a pixel buffer was allocated.
pub fn check_allocated(status: i32, has_buffer: bool) -> (result: Result<(), String>)
    ensures
        match result {
            Ok(()) => status == 0 && has_buffer,
            Err(message) => if status != 0 {
                message@ == os_status_message(status, ALLOCATE_BUFFER_CONTEXT@)
            } else {
                !has_buffer && message@ == NULL_BUFFER_MESSAGE@
            },
        },
{
    if status != 0 {
        return Err(os_status_error(status, ALLOCATE_BUFFER_CONTEXT));
    }
    if !has_buffer {
        return Err(owned(NULL_BUFFER_MESSAGE));
    }
    Ok(())
}

/// Whether a locked buffer was filled and unlocked; `has_address` says whether there was
/// memory to fill.
pub fn check_filled(has_address: bool, unlock_status: i32) -> (result: Result<(), String>)
    ensures
        match result {
            Ok(()) => unlock_status == 0 && has_address,
            Err(message) => if unlock_status != 0 {
                message@ == os_status_message(unlock_status, UNLOCK_BUFFER_CONTEXT@)
            } else {
                !has_address && message@ == NULL_ADDRESS_MESSAGE@
            },
        },
{
    if unlock_status != 0 {
        return Err(os_status_error(unlock_status, UNLOCK_BUFFER_CONTEXT));
    }
    if !has_address {
        return Err(owned(NULL_ADDRESS_MESSAGE));
    }
    Ok(())
}

pub const DROPPED_FRAME_MESSAGE: &'static str = "VideoToolbox dropped a recording frame";

pub const NULL_SAMPLE_MESSAGE: &'static str =
    "VideoToolbox callback returned a null sample buffer";

pub const CALLBACK_CONTEXT: &'static str = "VideoToolbox encode callback failed";

pub const NO_PARAMETER_SETS_MESSAGE: &'static str =
    "encoded sample buffer did not expose SPS/PPS parameter sets";

pub const COUNT_SETS_CONTEXT: &'static str = "failed to inspect H.264 parameter set count";

pub const READ_SET_CONTEXT: &'static str = "failed to read H.264 parameter set";

pub const NULL_SET_MESSAGE: &'static str = "parameter set pointer was null";

pub const NO_DATA_BUFFER_MESSAGE: &'static str =
    "encoded sample buffer was missing a data buffer";

pub const NO_FORMAT_MESSAGE: &'static str =
    "encoded sample buffer was missing a format description";

pub const BLOCK_ACCESS_CONTEXT: &'static str = "failed to access encoded block buffer bytes";

pub const NOT_CONTIGUOUS_MESSAGE: &'static str =
    "encoded block buffer was not stored contiguously";

pub const NULL_BLOCK_MESSAGE: &'static str = "encoded block buffer pointer was null";

pub const NO_MUXER_MESSAGE: &'static str =
    "fragmented muxer was not initialized before writing a sample";

pub const NO_SEGMENT_MESSAGE: &'static str = "fragmented muxer did not emit a segment";

/// Whether the session's callback hands over a sample, or what went wrong instead.
pub fn check_callback(status: i32, frame_dropped: bool, has_sample: bool) -> (result: Result<
    (),
    String,
>)
    ensures
        match result {
            Ok(()) => status == 0 && !frame_dropped && has_sample,
            Err(message) => message@ == (if status != 0 {
                os_status_message(status, CALLBACK_CONTEXT@)
            } else if frame_dropped {
                DROPPED_FRAME_MESSAGE@
            } else {
                NULL_SAMPLE_MESSAGE@
            }) && (status != 0 || frame_dropped || !has_sample),
        },
{
    if status != 0 {
        return Err(os_status_error(status, CALLBACK_CONTEXT));
    }
    if frame_dropped {
        return Err(owned(DROPPED_FRAME_MESSAGE));
    }
    if !has_sample {
        return Err(owned(NULL_SAMPLE_MESSAGE));
    }
    Ok(())
}

/// Whether the bytes of an encoded sample can be read in one piece; `has_buffer` says whether
/// there is a block buffer to ask.
pub fn check_block(
    has_buffer: bool,
    status: i32,
    length_at_offset: usize,
    total_length: usize,
    has_pointer: bool,
) -> (result: Result<(), String>)
    ensures
        match result {
            Ok(()) => {
                &&& has_buffer && status == 0
                &&& length_at_offset >= total_length && has_pointer
            },
            Err(message) => message@ == (if !has_buffer {
                NO_DATA_BUFFER_MESSAGE@
            } else if status != 0 {
                os_status_message(status, BLOCK_ACCESS_CONTEXT@)
            } else if length_at_offset < total_length {
                NOT_CONTIGUOUS_MESSAGE@
            } else {
                NULL_BLOCK_MESSAGE@
            }) && (!has_buffer || status != 0 || length_at_offset < total_length || !has_pointer),
        },
{
    if !has_buffer {
        return Err(owned(NO_DATA_BUFFER_MESSAGE));
    }
    if status != 0 {
        return Err(os_status_error(status, BLOCK_ACCESS_CONTEXT));
    }
    if length_at_offset < total_length {
        return Err(owned(NOT_CONTIGUOUS_MESSAGE));
    }
    if !has_pointer {
        return Err(owned(NULL_BLOCK_MESSAGE));
    }
    Ok(())
}

/// Whether a sample can be decoded alone: unless its first attachment, where it has one, marks
/// it otherwise.
pub fn sample_is_sync(first_attachment_not_sync: Option<bool>) -> (is_sync: bool)
    ensures
        is_sync == (first_attachment_not_sync != Some(true)),
{
    match first_attachment_not_sync {
        Some(not_sync) => !not_sync,
        None => true,
    }
}

// ---------------------------------------------------------------------------------------
// Laws
// ---------------------------------------------------------------------------------------

/// The message of a failed call tells what was tried and the status that came back.
pub proof fn failed_call_tells_its_status(status: i32, context: Seq<char>)
    ensures
        status >= 0 ==> os_status_message(status, context) == context + " (OSStatus "@ + decimal(
            status as nat,
        ) + ")"@,
        status < 0 ==> os_status_message(status, context) == context + " (OSStatus "@ + seq!['-']
            + decimal((-status) as nat) + ")"@,
{
    if status < 0 {
        assert(os_status_message(status, context) =~= context + " (OSStatus "@ + seq!['-']
            + decimal((-status) as nat) + ")"@);
    }
}

/// The message for a frame of the wrong size tells the size it has, then the one it should have.
pub proof fn wrong_frame_size_is_told(len: nat, expected: nat)
    ensures
        frame_length_message(len, expected) == "rgba frame length "@ + decimal(len)
            + " did not match expected "@ + decimal(expected),
{
}

/// A number keeps its bits as a signed one: it is the same up to the largest signed number, and
/// a whole turn less beyond.
pub proof fn signed_number_has_the_same_bits(number: u32)
    ensures
        i32::MIN <= as_signed(number) <= i32::MAX,
        as_signed(number) == number || as_signed(number) == number - 4_294_967_296,
{
}

/// Opening a session takes seven steps, in this order: it is created, told that frames come in
/// real time and in order, at which rate, and how often a key frame is wanted; it is made ready,
/// and its buffers are fetched. Then it is ready and stays so.
pub proof fn session_opens_step_by_step(step: OpenStep)
    ensures
        step == OpenStep::CreateSession ==> step.next() == OpenStep::SetRealTime,
        step == OpenStep::SetRealTime ==> step.next() == OpenStep::SetFrameReordering,
        step == OpenStep::SetFrameReordering ==> step.next() == OpenStep::SetFrameRate,
        step == OpenStep::SetFrameRate ==> step.next() == OpenStep::SetKeyFrameInterval,
        step == OpenStep::SetKeyFrameInterval ==> step.next() == OpenStep::Prepare,
        step == OpenStep::Prepare ==> step.next() == OpenStep::FetchPool,
        step == OpenStep::FetchPool ==> step.next() == OpenStep::Ready,
        step == OpenStep::Ready ==> step.next() == OpenStep::Ready,
        OpenStep::CreateSession.next().next().next().next().next().next().next()
            == OpenStep::Ready,
{
}

/// A step succeeds exactly where its call gave status 0 and, where it asks for an object, one was
/// handed out; fetching the buffers gives no status, and a session that is ready cannot fail.
pub proof fn step_succeeds_on_status_zero(step: OpenStep, status: i32, present: bool)
    ensures
        step == OpenStep::CreateSession ==> (step.succeeded(status, present) <==> status == 0
            && present),
        step == OpenStep::FetchPool ==> (step.succeeded(status, present) <==> present),
        step == OpenStep::Ready ==> step.succeeded(status, present),
        step != OpenStep::CreateSession && step != OpenStep::FetchPool && step != OpenStep::Ready
            ==> (step.succeeded(status, present) <==> status == 0),
        step.sets_property() <==> step != OpenStep::CreateSession && step != OpenStep::Prepare
            && step != OpenStep::FetchPool && step != OpenStep::Ready,
{
}

/// What is said of a step that failed.
pub proof fn failed_step_says_why(step: OpenStep, status: i32, key: Seq<char>)
    ensures
        step == OpenStep::CreateSession && status != 0 ==> step.failure_message(status, key)
            == os_status_message(
            status,
            "failed to create VideoToolbox compression session"@,
        ),
        step == OpenStep::CreateSession && status == 0 ==> step.failure_message(status, key)
            == "VideoToolbox returned a null compression session"@,
        step.sets_property() ==> step.failure_message(status, key) == os_status_message(
            status,
            "failed to set VideoToolbox property "@ + key,
        ),
        step == OpenStep::Prepare ==> step.failure_message(status, key) == os_status_message(
            status,
            "failed to prepare VideoToolbox compression session"@,
        ),
        step == OpenStep::FetchPool ==> step.failure_message(status, key)
            == "VideoToolbox did not expose a source pixel buffer pool"@,
{
}

/// Giving up the session leaves all else; giving up what is left with it leaves an encoder that
/// holds nothing, finished where the callback's state was gone already. Size, rate and clock
/// stay.
pub proof fn resources_are_given_up(encoder: SegmentEncoder)
    ensures
        ({
            let without = encoder.without_session();
            &&& !without.session_open
            &&& without == (SegmentEncoder { session_open: without.session_open, ..encoder })
        }),
        ({
            let without = encoder.without_pool();
            &&& !without.session_open && !without.pool_open && !without.state_open
            &&& encoder.state_open ==> without.finished == encoder.finished
            &&& !encoder.state_open ==> without.finished
            &&& without.width == encoder.width
            &&& without.height == encoder.height
            &&& without.fps == encoder.fps
            &&& without.next_pts == encoder.next_pts
        }),
{
}

/// A result reports a waiting error exactly where there is one, in its own words.
pub proof fn waiting_error_is_passed_on(result: Result<(), String>, pending: Option<Seq<char>>)
    requires
        reports(result, pending),
    ensures
        result is Ok <==> pending is None,
        result matches Err(message) ==> pending == Some(message@),
{
}

} // verus!
