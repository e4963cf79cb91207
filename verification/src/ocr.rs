//! Text recognized on captured frames.
use crate::frame::Frame;
use crate::protocol::ScreenRecordingPlatform;
use crate::text::{
    append_line, join, lemma_join_push, meaningful, normalize_text, normalized, owned, trimmed,
};
use vstd::prelude::*;

verus! {

/// What was read on one frame.
#[derive(Debug)]
pub struct OcrFrameResult {
    pub full_text: String,
}

/// A recognizer of text on frames.
pub trait OcrBackend {
    /// The text on `frame`, or `None` where there is none; the message of a failure.
    fn recognize(&self, frame: &Frame) -> Result<Option<OcrFrameResult>, String>;
}

/// A recognizer that reads nothing.
#[derive(Debug, Clone, Copy)]
pub struct NoopOcrBackend {}

impl OcrBackend for NoopOcrBackend {
    fn recognize(&self, frame: &Frame) -> (result: Result<Option<OcrFrameResult>, String>)
        ensures
            result matches Ok(None),
    {
        Ok(None)
    }
}

/// The meaningful lines of a recognized text, one below the other.
pub fn normalize_ocr_text(result: &OcrFrameResult) -> (normal: String)
    ensures
        normal@ == normalized(result.full_text@),
{
    normalize_text(result.full_text.as_str())
}

/// The texts among `candidates`, in order.
pub open spec fn present(candidates: Seq<Option<String>>) -> Seq<Seq<char>>
    decreases candidates.len(),
{
    if candidates.len() == 0 {
        Seq::empty()
    } else {
        let before = present(candidates.drop_last());
        match candidates.last() {
            Some(text) => before.push(text@),
            None => before,
        }
    }
}

/// The recognizer's result, made of each observation's best candidate: their meaningful
/// texts one below the other, or `None` where no observation says anything.
pub fn recognized_text(candidates: &Vec<Option<String>>) -> (result: Option<OcrFrameResult>)
    ensures
        match result {
            Some(result) => {
                &&& meaningful(present(candidates@)).len() > 0
                &&& result.full_text@ == join(meaningful(present(candidates@)), '\n')
            },
            None => meaningful(present(candidates@)).len() == 0,
        },
{
    let mut full_text: String = String::new();
    let mut first: bool = true;
    for i in 0..candidates.len()
        invariant
            full_text@ == join(meaningful(present(candidates@.take(i as int))), '\n'),
            first == (meaningful(present(candidates@.take(i as int))).len() == 0),
    {
        let ghost texts = present(candidates@.take(i as int));
        proof {
            assert(candidates@.take(i + 1).drop_last() == candidates@.take(i as int));
        }
        match &candidates[i] {
            Some(text) => {
                let line: String = trimmed(text.as_str());
                proof {
                    assert(texts.push(text@).drop_last() == texts);
                    assert(present(candidates@.take(i + 1)) == texts.push(text@));
                }
                if !line.as_str().is_empty() {
                    append_line(&mut full_text, first, line.as_str());
                    first = false;
                    proof {
                        lemma_join_push(meaningful(texts), line@, '\n');
                    }
                }
            },
            None => {},
        }
    }
    proof {
        assert(candidates@.take(candidates@.len() as int) == candidates@);
    }
    if first {
        None
    } else {
        Some(OcrFrameResult { full_text })
    }
}

pub const NO_DATA_PROVIDER_MESSAGE: &'static str = "failed to create OCR data provider";

pub const NO_COLOR_SPACE_MESSAGE: &'static str = "failed to create OCR color space";

pub const NO_IMAGE_MESSAGE: &'static str = "failed to create OCR image";

pub const VISION_FAILED_PREFIX: &'static str = "vision OCR failed: ";

/// How a frame's bytes are to be read as an image.
#[derive(Debug, Clone, Copy, PartialEq, Eq, Structural)]
pub struct ImageLayout {
    pub width: u32,
    pub height: u32,
    pub bits_per_component: u32,
    pub bits_per_pixel: u32,
    pub bytes_per_row: u32,
}

/// The layout of a frame: four bytes a pixel, without padding.
pub fn image_layout(frame: &Frame) -> (layout: ImageLayout)
    requires
        frame.spec_width() * 4 <= u32::MAX,
    ensures
        layout == (ImageLayout {
            width: frame.spec_width(),
            height: frame.spec_height(),
            bits_per_component: 8,
            bits_per_pixel: 32,
            bytes_per_row: (frame.spec_width() * 4) as u32,
        }),
{
    ImageLayout {
        width: frame.width(),
        height: frame.height(),
        bits_per_component: 8,
        bits_per_pixel: 32,
        bytes_per_row: frame.width() * 4,
    }
}

/// What came of asking the system for the text on a frame.
#[derive(Debug)]
pub enum VisionReading {
    NoDataProvider,
    NoColorSpace,
    NoImage,
    /// The request failed, with this description.
    Failed(String),
    /// The request left no results.
    NoResults,
    /// The best candidate of each observation.
    Candidates(Vec<Option<String>>),
}

/// The message of a reading that failed.
pub open spec fn vision_error(reading: VisionReading) -> Option<Seq<char>> {
    match reading {
        VisionReading::NoDataProvider => Some(NO_DATA_PROVIDER_MESSAGE@),
        VisionReading::NoColorSpace => Some(NO_COLOR_SPACE_MESSAGE@),
        VisionReading::NoImage => Some(NO_IMAGE_MESSAGE@),
        VisionReading::Failed(description) => Some(VISION_FAILED_PREFIX@ + description@),
        _ => None,
    }
}

/// The lines that were read.
pub open spec fn vision_lines(reading: VisionReading) -> Seq<Seq<char>> {
    match reading {
        VisionReading::Candidates(candidates) => meaningful(present(candidates@)),
        _ => Seq::empty(),
    }
}

/// The recognizer's answer to what the system gave.
pub fn vision_result(reading: VisionReading) -> (result: Result<Option<OcrFrameResult>, String>)
    ensures
        match result {
            Err(message) => vision_error(reading) == Some(message@),
            Ok(Some(found)) => {
                &&& vision_error(reading) is None
                &&& vision_lines(reading).len() > 0
                &&& found.full_text@ == join(vision_lines(reading), '\n')
            },
            Ok(None) => vision_error(reading) is None && vision_lines(reading).len() == 0,
        },
{
    match reading {
        VisionReading::NoDataProvider => Err(owned(NO_DATA_PROVIDER_MESSAGE)),
        VisionReading::NoColorSpace => Err(owned(NO_COLOR_SPACE_MESSAGE)),
        VisionReading::NoImage => Err(owned(NO_IMAGE_MESSAGE)),
        VisionReading::Failed(description) => Err(
            owned(VISION_FAILED_PREFIX).concat(description.as_str()),
        ),
        VisionReading::NoResults => Ok(None),
        VisionReading::Candidates(candidates) => Ok(recognized_text(&candidates)),
    }
}

/// Which recognizer reads frames.
#[derive(Debug, Clone, Copy, PartialEq, Eq, Structural)]
pub enum OcrChoice {
    Vision,
    Noop,
}

/// The recognizer of a platform: none but macOS has one, and the fake backend needs none.
pub fn default_ocr_backend(fake_requested: bool, platform: ScreenRecordingPlatform) -> (choice:
    OcrChoice)
    ensures
        choice == (if platform == ScreenRecordingPlatform::Macos && !fake_requested {
            OcrChoice::Vision
        } else {
            OcrChoice::Noop
        }),
{
    match platform {
        ScreenRecordingPlatform::Macos => if fake_requested {
            OcrChoice::Noop
        } else {
            OcrChoice::Vision
        },
        _ => OcrChoice::Noop,
    }
}

// ---------------------------------------------------------------------------------------
// Laws
// ---------------------------------------------------------------------------------------

/// Every observation with a candidate gives its text, in the order of the observations; one
/// without gives nothing.
pub proof fn candidates_keep_their_order(
    first: Seq<Option<String>>,
    second: Seq<Option<String>>,
    text: String,
)
    ensures
        present(first + second) == present(first) + present(second),
        present(seq![Some(text)]) == seq![text@],
        present(seq![None::<String>]) == Seq::<Seq<char>>::empty(),
    decreases second.len(),
{
    assert(seq![Some(text)].drop_last() =~= Seq::<Option<String>>::empty());
    assert(seq![None::<String>].drop_last() =~= Seq::<Option<String>>::empty());
    assert(present(Seq::<Option<String>>::empty()) =~= Seq::<Seq<char>>::empty());
    if second.len() == 0 {
        assert(first + second =~= first);
        assert(present(first) + present(second) =~= present(first));
    } else {
        assert((first + second).drop_last() =~= first + second.drop_last());
        candidates_keep_their_order(first, second.drop_last(), text);
        assert(present(first + second) =~= present(first) + present(second));
    }
}

/// A reading fails exactly where the system could not be asked or refused, with a message that
/// says which; one that found no text does not.
pub proof fn failed_reading_says_why(reading: VisionReading)
    ensures
        reading is NoDataProvider ==> vision_error(reading) == Some(
            "failed to create OCR data provider"@,
        ),
        reading is NoColorSpace ==> vision_error(reading) == Some(
            "failed to create OCR color space"@,
        ),
        reading is NoImage ==> vision_error(reading) == Some("failed to create OCR image"@),
        reading matches VisionReading::Failed(description) ==> vision_error(reading) == Some(
            "vision OCR failed: "@ + description@,
        ),
        reading is NoResults ==> vision_error(reading) is None && vision_lines(reading).len() == 0,
        reading matches VisionReading::Candidates(candidates) ==> vision_error(reading) is None
            && vision_lines(reading) == meaningful(present(candidates@)),
{
}

} // verus!
