//! A recording segment on disk: its video, the manifest and the text history beside it, and
//! when they are too old to keep.
use crate::backend::{CapturedDisplay, DisplayView};
use crate::clock::CaptureTime;
use crate::path::{
    file_name, file_stem, joined, joined_file_name, joined_with_extension, joined_with_file_name,
    name_start, path_file_stem, path_with_extension, path_with_file_name, stem_len, trim_tail,
    with_extension, with_file_name,
};
use crate::text::{ends_with, from_chars, opt_text, owned, text_ends_with, to_chars, views};
use vstd::prelude::*;

verus! {

/// Frames recorded per second.
pub const CAPTURE_FPS: u32 = 1;

/// Hours for which a segment is kept.
pub const RETENTION_HOURS: u32 = 6;

/// Seconds for which a segment is kept.
pub const RETENTION_SECONDS: i64 = 21_600;

pub const MANIFEST_FILE_EXTENSION: &'static str = "mp4.json";

pub const OCR_FILE_EXTENSION: &'static str = "ocr.jsonl";

/// Why a segment was begun.
#[derive(Debug, Clone, Copy, PartialEq, Eq, Structural)]
pub enum SegmentReason {
    /// The display was never seen before.
    Started,
    /// The display came back.
    Hotplugged,
    GeometryChanged,
    /// The half hour of the segment before is over.
    Rotated,
}

/// What is written about a segment.
#[derive(Debug, PartialEq, Eq)]
pub struct SegmentManifest {
    pub version: u32,
    pub display_id: String,
    pub display_name: String,
    pub width: u32,
    pub height: u32,
    pub rotation_millidegrees: i32,
    pub scale_factor_milli: u32,
    pub segment_started_at: i64,
    pub started_reason: SegmentReason,
    pub frame_count: u64,
    pub newest_frame_at: Option<i64>,
}

/// A manifest with its texts as characters.
#[verifier::ext_equal]
pub struct ManifestView {
    pub version: u32,
    pub display_id: Seq<char>,
    pub display_name: Seq<char>,
    pub width: u32,
    pub height: u32,
    pub rotation_millidegrees: i32,
    pub scale_factor_milli: u32,
    pub segment_started_at: i64,
    pub started_reason: SegmentReason,
    pub frame_count: u64,
    pub newest_frame_at: Option<i64>,
}

impl View for SegmentManifest {
    type V = ManifestView;

    open spec fn view(&self) -> ManifestView {
        ManifestView {
            version: self.version,
            display_id: self.display_id@,
            display_name: self.display_name@,
            width: self.width,
            height: self.height,
            rotation_millidegrees: self.rotation_millidegrees,
            scale_factor_milli: self.scale_factor_milli,
            segment_started_at: self.segment_started_at,
            started_reason: self.started_reason,
            frame_count: self.frame_count,
            newest_frame_at: self.newest_frame_at,
        }
    }
}

impl Clone for SegmentManifest {
    fn clone(&self) -> (copy: Self)
        ensures
            copy@ == self@,
    {
        SegmentManifest {
            version: self.version,
            display_id: owned(self.display_id.as_str()),
            display_name: owned(self.display_name.as_str()),
            width: self.width,
            height: self.height,
            rotation_millidegrees: self.rotation_millidegrees,
            scale_factor_milli: self.scale_factor_milli,
            segment_started_at: self.segment_started_at,
            started_reason: self.started_reason,
            frame_count: self.frame_count,
            newest_frame_at: self.newest_frame_at,
        }
    }
}

/// One entry of a segment's text history.
#[derive(Debug, PartialEq, Eq)]
pub struct OcrFrameRecord {
    pub version: u32,
    pub display_id: String,
    pub segment_started_at: i64,
    pub captured_at: i64,
    pub frame_index: u64,
    pub full_text: String,
}

/// A history entry with its texts as characters.
#[verifier::ext_equal]
pub struct RecordView {
    pub version: u32,
    pub display_id: Seq<char>,
    pub segment_started_at: i64,
    pub captured_at: i64,
    pub frame_index: u64,
    pub full_text: Seq<char>,
}

impl View for OcrFrameRecord {
    type V = RecordView;

    open spec fn view(&self) -> RecordView {
        RecordView {
            version: self.version,
            display_id: self.display_id@,
            segment_started_at: self.segment_started_at,
            captured_at: self.captured_at,
            frame_index: self.frame_index,
            full_text: self.full_text@,
        }
    }
}

// ---------------------------------------------------------------------------------------
// A new segment
// ---------------------------------------------------------------------------------------

/// The name that a segment's files share: when it began, and on which display.
pub open spec fn segment_name(stamp: Seq<char>, display_id: Seq<char>) -> Seq<char> {
    stamp + "-display-"@ + display_id
}

/// The manifest of a segment without frames. The size is that of the frames, which need not
/// be the display's own.
pub open spec fn first_manifest(
    display: DisplayView,
    seconds: i64,
    reason: SegmentReason,
) -> ManifestView {
    ManifestView {
        version: 1,
        display_id: display.id,
        display_name: display.name,
        width: display.frame_width,
        height: display.frame_height,
        rotation_millidegrees: display.geometry.rotation_millidegrees,
        scale_factor_milli: display.geometry.scale_factor_milli,
        segment_started_at: seconds,
        started_reason: reason,
        frame_count: 0,
        newest_frame_at: None,
    }
}

/// The manifest after a frame captured at `seconds`, the segment's `frame_count`th.
pub open spec fn with_frame(
    manifest: ManifestView,
    frame_count: u64,
    seconds: i64,
) -> ManifestView {
    ManifestView { frame_count, newest_frame_at: Some(seconds), ..manifest }
}

/// A segment that is about to be begun. Its paths lead from the storage directory on.
#[derive(Debug)]
pub struct SegmentPlan {
    pub segment_path: String,
    pub manifest_path: String,
    pub latest_frame_path: String,
    pub ocr_path: String,
    pub manifest: SegmentManifest,
}

/// A plan with its paths as characters.
#[verifier::ext_equal]
pub struct PlanView {
    pub segment_path: Seq<char>,
    pub manifest_path: Seq<char>,
    pub latest_frame_path: Seq<char>,
    pub ocr_path: Seq<char>,
    pub manifest: ManifestView,
}

impl View for SegmentPlan {
    type V = PlanView;

    open spec fn view(&self) -> PlanView {
        PlanView {
            segment_path: self.segment_path@,
            manifest_path: self.manifest_path@,
            latest_frame_path: self.latest_frame_path@,
            ocr_path: self.ocr_path@,
            manifest: self.manifest@,
        }
    }
}

/// The segment of a display that begins at `seconds`, noted as `stamp`: all its files stand in
/// the storage directory, under its name.
pub open spec fn planned(
    display: DisplayView,
    stamp: Seq<char>,
    seconds: i64,
    reason: SegmentReason,
) -> PlanView {
    let name = segment_name(stamp, display.id);
    let segment_path = name + ".mp4"@;
    PlanView {
        segment_path,
        manifest_path: with_extension(segment_path, MANIFEST_FILE_EXTENSION@),
        latest_frame_path: name + "-latest.jpg"@,
        ocr_path: name.push('.') + OCR_FILE_EXTENSION@,
        manifest: first_manifest(display, seconds, reason),
    }
}

/// Plans a display's next segment.
pub fn plan_segment(
    display: &CapturedDisplay,
    captured_at: &CaptureTime,
    reason: SegmentReason,
) -> (plan: SegmentPlan)
    ensures
        plan@ == planned(display@, captured_at.stamp(), captured_at.seconds(), reason),
{
    let name: String = owned(captured_at.utc()).concat("-display-").concat(display.id.as_str());
    let segment_path: String = owned(name.as_str()).concat(".mp4");
    let manifest_path: String = path_with_extension(
        segment_path.as_str(),
        MANIFEST_FILE_EXTENSION,
    );
    let latest_frame_path: String = owned(name.as_str()).concat("-latest.jpg");
    let mut ocr_path: String = name;
    ocr_path.push('.');
    SegmentPlan {
        segment_path,
        manifest_path,
        latest_frame_path,
        ocr_path: ocr_path.concat(OCR_FILE_EXTENSION),
        manifest: SegmentManifest {
            version: 1,
            display_id: owned(display.id.as_str()),
            display_name: owned(display.name.as_str()),
            width: display.frame.width(),
            height: display.frame.height(),
            rotation_millidegrees: display.geometry.rotation_millidegrees,
            scale_factor_milli: display.geometry.scale_factor_milli,
            segment_started_at: captured_at.timestamp(),
            started_reason: reason,
            frame_count: 0,
            newest_frame_at: None,
        },
    }
}

// ---------------------------------------------------------------------------------------
// Paths beside a manifest
// ---------------------------------------------------------------------------------------

/// The video that a manifest describes: the manifest's path without `.json`.
pub open spec fn segment_of(manifest_path: Seq<char>) -> Option<Seq<char>> {
    if ends_with(manifest_path, ".json"@) {
        Some(manifest_path.take(manifest_path.len() - 5))
    } else {
        None
    }
}

/// The path of the video that a manifest describes.
pub fn segment_path_for_manifest(manifest_path: &str) -> (path: Option<String>)
    ensures
        opt_text(path) == segment_of(manifest_path@),
{
    proof {
        reveal_strlit(".json");
    }
    if text_ends_with(manifest_path, ".json") {
        let chars: Vec<char> = to_chars(manifest_path);
        let path: String = from_chars(&chars, 0, chars.len() - 5);
        proof {
            assert(chars@.subrange(0, chars@.len() - 5) == chars@.take(chars@.len() - 5));
        }
        Some(path)
    } else {
        None
    }
}

/// The picture of a video's latest frame: `-latest.jpg` behind the video's stem.
pub open spec fn latest_frame_of(segment_path: Seq<char>) -> Seq<char> {
    with_file_name(segment_path, file_stem(segment_path)->0 + "-latest.jpg"@)
}

/// The path of the picture of the latest frame, for the manifest of a video that has a name.
pub fn latest_frame_path_for_segment(manifest_path: &str) -> (path: String)
    requires
        segment_of(manifest_path@) is Some,
        file_stem(segment_of(manifest_path@)->0) is Some,
    ensures
        path@ == latest_frame_of(segment_of(manifest_path@)->0),
{
    let segment_path: String = segment_path_for_manifest(manifest_path).unwrap();
    let stem: String = path_file_stem(segment_path.as_str()).unwrap();
    path_with_file_name(segment_path.as_str(), stem.concat("-latest.jpg").as_str())
}

/// The path of a video's text history, for the video's manifest.
pub fn ocr_path_for_segment(manifest_path: &str) -> (path: String)
    requires
        segment_of(manifest_path@) is Some,
    ensures
        path@ == with_extension(segment_of(manifest_path@)->0, OCR_FILE_EXTENSION@),
{
    let segment_path: String = segment_path_for_manifest(manifest_path).unwrap();
    path_with_extension(segment_path.as_str(), OCR_FILE_EXTENSION)
}

/// Where the picture of the latest frame is written before it takes its place.
pub fn latest_frame_temp_path(frame_path: &str) -> (path: String)
    ensures
        path@ == with_extension(frame_path@, "jpg.tmp"@),
{
    path_with_extension(frame_path, "jpg.tmp")
}

// ---------------------------------------------------------------------------------------
// Retention
// ---------------------------------------------------------------------------------------

pub open spec fn is_manifest(path: Seq<char>) -> bool {
    ends_with(path, ".mp4.json"@)
}

/// Whether a file is a segment's manifest, by its name.
pub fn is_manifest_path(path: &str) -> (manifest: bool)
    ensures
        manifest == is_manifest(path@),
{
    text_ends_with(path, ".mp4.json")
}

/// When the segment last got a frame, or else when it began.
pub open spec fn last_active(manifest: ManifestView) -> i64 {
    match manifest.newest_frame_at {
        Some(seconds) => seconds,
        None => manifest.segment_started_at,
    }
}

/// The segment last got a frame more than six hours before `seconds`.
pub open spec fn is_expired(manifest: ManifestView, seconds: i64) -> bool {
    last_active(manifest) < seconds - RETENTION_SECONDS
}

/// A file that may be a manifest, with what it says where that could be read.
#[derive(Debug)]
pub struct ManifestFile {
    pub path: String,
    pub manifest: Option<SegmentManifest>,
}

/// The file is the manifest of a segment that is too old at `seconds`.
pub open spec fn is_due(file: ManifestFile, seconds: i64) -> bool {
    &&& is_manifest(file.path@)
    &&& file.manifest matches Some(manifest)
    &&& is_expired(manifest@, seconds)
}

/// The files that go with a manifest at `seconds`, in the order in which they go: video,
/// latest frame, text history, manifest. None where the file is no manifest, cannot be read or
/// is young enough.
pub open spec fn expired_files(file: ManifestFile, seconds: i64) -> Seq<Seq<char>> {
    if is_due(file, seconds) {
        let segment_path = segment_of(file.path@)->0;
        seq![
            segment_path,
            latest_frame_of(segment_path),
            with_extension(segment_path, OCR_FILE_EXTENSION@),
            file.path@,
        ]
    } else {
        Seq::empty()
    }
}

/// All files that go at `seconds`.
pub open spec fn all_expired_files(files: Seq<ManifestFile>, seconds: i64) -> Seq<Seq<char>>
    decreases files.len(),
{
    if files.len() == 0 {
        Seq::empty()
    } else {
        all_expired_files(files.drop_last(), seconds) + expired_files(files.last(), seconds)
    }
}

/// What has to be removed so that no segment is kept longer than it should be.
pub fn prune_old_segments(files: &Vec<ManifestFile>, captured_at: &CaptureTime) -> (removed: Vec<
    String,
>)
    ensures
        views(removed@) == all_expired_files(files@, captured_at.seconds()),
{
    let seconds: i64 = captured_at.timestamp();
    let cutoff: i64 = seconds - RETENTION_SECONDS;
    let mut removed: Vec<String> = Vec::new();
    proof {
        assert(views(removed@) == Seq::<Seq<char>>::empty());
    }
    for i in 0..files.len()
        invariant
            seconds == captured_at.seconds(),
            cutoff == seconds - RETENTION_SECONDS,
            views(removed@) == all_expired_files(files@.take(i as int), seconds),
    {
        let file: &ManifestFile = &files[i];
        proof {
            assert(files@.take(i + 1).drop_last() == files@.take(i as int));
            assert(files@.take(i + 1).last() == files@[i as int]);
        }
        let ghost before = removed@;
        if let Some(manifest) = &file.manifest {
            let last_active: i64 = match manifest.newest_frame_at {
                Some(at) => at,
                None => manifest.segment_started_at,
            };
            if is_manifest_path(file.path.as_str()) && last_active < cutoff {
                proof {
                    lemma_manifest_has_stem(file.path@);
                }
                removed.push(segment_path_for_manifest(file.path.as_str()).unwrap());
                removed.push(latest_frame_path_for_segment(file.path.as_str()));
                removed.push(ocr_path_for_segment(file.path.as_str()));
                removed.push(owned(file.path.as_str()));
                proof {
                    assert(views(removed@) == views(before) + expired_files(*file, seconds));
                }
            }
        }
        proof {
            assert(views(before) + Seq::<Seq<char>>::empty() == views(before));
        }
    }
    proof {
        assert(files@.take(files@.len() as int) == files@);
    }
    removed
}

/// A manifest's video has a stem.
proof fn lemma_manifest_has_stem(path: Seq<char>)
    requires
        is_manifest(path),
    ensures
        segment_of(path) is Some,
        ends_with(segment_of(path)->0, ".mp4"@),
        file_stem(segment_of(path)->0) is Some,
{
    reveal_strlit(".json");
    reveal_strlit(".mp4.json");
    reveal_strlit(".mp4");
    let n = path.len() as int;
    let segment = path.take(n - 5);
    assert(path.skip(n - 5) == path.skip(n - 9).skip(4));
    assert(path.skip(n - 5) == ".json"@);
    assert(segment.skip(n - 9) == path.skip(n - 9).take(4));
    assert(segment.skip(n - 9) == ".mp4"@);
    assert(segment.last() == '4') by {
        assert(segment.skip(n - 9)[3] == '4');
    }
    assert(trim_tail(segment) == segment);
    let start = name_start(segment);
    assert(start == name_start(segment.drop_last()));
    lemma_name_start_bound(segment.drop_last());
    let name = segment.skip(start);
    assert(name.last() == '4');
}

// ---------------------------------------------------------------------------------------
// Laws
// ---------------------------------------------------------------------------------------

/// The files of a segment share its name, which tells when it began and on which display, and
/// its manifest describes the captured frames and the display.
pub proof fn planned_files_share_a_name(
    display: DisplayView,
    stamp: Seq<char>,
    seconds: i64,
    reason: SegmentReason,
)
    requires
        !display.id.contains('/'),
        !stamp.contains('/'),
    ensures
        ({
            let plan = planned(display, stamp, seconds, reason);
            let name = stamp + "-display-"@ + display.id;
            &&& plan.segment_path == name + ".mp4"@
            &&& plan.manifest_path == name + ".mp4.json"@
            &&& plan.latest_frame_path == name + "-latest.jpg"@
            &&& plan.ocr_path == name + ".ocr.jsonl"@
            &&& plan.manifest.version == 1
            &&& plan.manifest.display_id == display.id
            &&& plan.manifest.display_name == display.name
            &&& plan.manifest.width == display.frame_width
            &&& plan.manifest.height == display.frame_height
            &&& plan.manifest.rotation_millidegrees == display.geometry.rotation_millidegrees
            &&& plan.manifest.scale_factor_milli == display.geometry.scale_factor_milli
            &&& plan.manifest.segment_started_at == seconds
            &&& plan.manifest.started_reason == reason
            &&& plan.manifest.frame_count == 0
            &&& plan.manifest.newest_frame_at is None
        }),
{
    let name = segment_name(stamp, display.id);
    let empty = Seq::<char>::empty();
    lemma_plain_name(stamp, display.id);
    lemma_video_name(name);
    joined_with_extension(empty, name, mp4(), MANIFEST_FILE_EXTENSION@);
    assert(name[0] != '/');
    let video = name + ".mp4"@;
    let manifest = name.push('.') + MANIFEST_FILE_EXTENSION@;
    assert(video[0] == name[0] && manifest[0] == name[0]);
    assert(empty + video == video);
    assert(empty + manifest == manifest);
    reveal_strlit("mp4.json");
    reveal_strlit(".mp4.json");
    reveal_strlit("ocr.jsonl");
    reveal_strlit(".ocr.jsonl");
    assert(manifest =~= name + ".mp4.json"@);
    assert(name.push('.') + OCR_FILE_EXTENSION@ =~= name + ".ocr.jsonl"@);
}

/// What is found beside a segment's manifest, wherever the storage directory is, are the files
/// that were planned with it, and the video stands directly in that directory, named after its
/// start and its display.
pub proof fn planned_files_are_found_again(
    root: Seq<char>,
    display: DisplayView,
    stamp: Seq<char>,
    seconds: i64,
    reason: SegmentReason,
)
    requires
        trim_tail(root) == root,
        !display.id.contains('/'),
        !stamp.contains('/'),
    ensures
        ({
            let plan = planned(display, stamp, seconds, reason);
            let video = joined(root, plan.segment_path);
            let manifest = joined(root, plan.manifest_path);
            &&& is_manifest(manifest)
            &&& segment_of(manifest) == Some(video)
            &&& latest_frame_of(video) == joined(root, plan.latest_frame_path)
            &&& with_extension(video, OCR_FILE_EXTENSION@) == joined(root, plan.ocr_path)
            &&& file_name(video) == Some(stamp + "-display-"@ + display.id + ".mp4"@)
        }),
{
    let name = segment_name(stamp, display.id);
    let empty = Seq::<char>::empty();
    lemma_plain_name(stamp, display.id);
    lemma_video_name(name);
    lemma_manifest_of_video(root, name);
    lemma_sidecars_of_video(root, name);
    joined_file_name(root, name + ".mp4"@);
    joined_with_extension(empty, name, mp4(), MANIFEST_FILE_EXTENSION@);
    joined_with_extension(root, name, mp4(), MANIFEST_FILE_EXTENSION@);
    assert(name[0] != '/');
    let video = name + ".mp4"@;
    let manifest = name.push('.') + MANIFEST_FILE_EXTENSION@;
    assert(video[0] == name[0] && manifest[0] == name[0]);
    assert(empty + video == video);
    assert(empty + manifest == manifest);
}

proof fn lemma_plain_name(stamp: Seq<char>, id: Seq<char>)
    requires
        !id.contains('/'),
        !stamp.contains('/'),
    ensures
        segment_name(stamp, id).len() > 0,
        !segment_name(stamp, id).contains('/'),
{
    reveal_strlit("-display-");
    let name = segment_name(stamp, id);
    let dash = "-display-"@;
    if name.contains('/') {
        let i = choose|i: int| 0 <= i < name.len() && name[i] == '/';
        if i < stamp.len() {
            assert(stamp[i] == '/');
        } else if i < stamp.len() + dash.len() {
            assert(dash[i - stamp.len()] == '/');
        } else {
            assert(id[i - stamp.len() - dash.len()] == '/');
        }
    }
}

spec fn mp4() -> Seq<char> {
    seq!['m', 'p', '4']
}

proof fn lemma_video_name(name: Seq<char>)
    requires
        !name.contains('/'),
    ensures
        name + ".mp4"@ == name.push('.') + mp4(),
        !(name + ".mp4"@).contains('/'),
        (name + ".mp4"@).last() == '4',
        !mp4().contains('/'),
        !mp4().contains('.'),
{
    reveal_strlit(".mp4");
    let video = name + ".mp4"@;
    assert(video =~= name.push('.') + mp4());
    if video.contains('/') {
        let i = choose|i: int| 0 <= i < video.len() && video[i] == '/';
        if i < name.len() {
            assert(name[i] == '/');
        }
    }
}

/// The manifest of a video below `root`.
proof fn lemma_manifest_of_video(root: Seq<char>, name: Seq<char>)
    requires
        name.len() > 0,
        !name.contains('/'),
    ensures
        ({
            let video = joined(root, name + ".mp4"@);
            let manifest = with_extension(video, MANIFEST_FILE_EXTENSION@);
            &&& is_manifest(manifest)
            &&& segment_of(manifest) == Some(video)
        }),
{
    lemma_video_name(name);
    joined_with_extension(root, name, mp4(), MANIFEST_FILE_EXTENSION@);
    let video_name = name + ".mp4"@;
    let video = joined(root, video_name);
    let manifest = with_extension(video, MANIFEST_FILE_EXTENSION@);
    let json = name.push('.') + MANIFEST_FILE_EXTENSION@;
    assert(json =~= video_name + ".json"@) by {
        reveal_strlit("mp4.json");
        reveal_strlit(".mp4");
        reveal_strlit(".json");
    }
    assert(manifest == joined(root, json));
    assert(name[0] != '/');
    assert(json[0] == name[0] && video_name[0] == name[0]);
    assert(manifest =~= video + ".json"@);
    assert(".mp4.json"@ =~= ".mp4"@ + ".json"@) by {
        reveal_strlit(".mp4.json");
        reveal_strlit(".mp4");
        reveal_strlit(".json");
    }
    lemma_ending(video, ".json"@);
    assert(".json"@.len() == 5) by {
        reveal_strlit(".json");
    }
    assert(manifest.take(manifest.len() - 5) =~= video);
    let base = joined(root, name);
    assert(video =~= base + ".mp4"@);
    assert(manifest =~= base + ".mp4.json"@);
    lemma_ending(base, ".mp4.json"@);
}

/// The latest frame and the text history of a video below `root`.
proof fn lemma_sidecars_of_video(root: Seq<char>, name: Seq<char>)
    requires
        trim_tail(root) == root,
        name.len() > 0,
        !name.contains('/'),
    ensures
        ({
            let video = joined(root, name + ".mp4"@);
            &&& latest_frame_of(video) == joined(root, name + "-latest.jpg"@)
            &&& with_extension(video, OCR_FILE_EXTENSION@) == joined(
                root,
                name.push('.') + OCR_FILE_EXTENSION@,
            )
        }),
{
    lemma_video_name(name);
    joined_with_extension(root, name, mp4(), OCR_FILE_EXTENSION@);
    let latest = name + "-latest.jpg"@;
    assert(name[0] != '/');
    assert(latest[0] == name[0]);
    joined_with_file_name(root, name + ".mp4"@, latest);
}

proof fn lemma_ending(front: Seq<char>, ending: Seq<char>)
    ensures
        ends_with(front + ending, ending),
{
    assert((front + ending).skip(front.len() as int) =~= ending);
}

/// A manifest that can be read is removed exactly where its newest frame, or else its segment's
/// start, lies more than six hours back: nothing else in it matters.
pub proof fn segment_is_kept_for_six_hours(
    files: Seq<ManifestFile>,
    name: Seq<char>,
    seconds: i64,
)
    ensures
        all_expired_files(files, seconds).contains(name + ".mp4.json"@) <==> exists|i: int|
            {
                &&& 0 <= i < files.len()
                &&& (#[trigger] files[i]).path@ == name + ".mp4.json"@
                &&& files[i].manifest matches Some(manifest)
                &&& (match manifest.newest_frame_at {
                    Some(newest) => newest,
                    None => manifest.segment_started_at,
                }) < seconds - 21_600
            },
{
    let path = name + ".mp4.json"@;
    lemma_ending(name, ".mp4.json"@);
    manifests_go_only_when_due(files, path, seconds);
    if all_expired_files(files, seconds).contains(path) {
        let i = choose|i: int|
            0 <= i < files.len() && (#[trigger] files[i]).path@ == path && is_due(
                files[i],
                seconds,
            );
        assert(files[i].path@ == path);
    }
    assert forall|i: int|
        {
            &&& 0 <= i < files.len()
            &&& (#[trigger] files[i]).path@ == path
            &&& files[i].manifest matches Some(manifest)
            &&& (match manifest.newest_frame_at {
                Some(newest) => newest,
                None => manifest.segment_started_at,
            }) < seconds - 21_600
        } implies is_due(files[i], seconds) by {}
}

/// Of a segment in the directory `root` whose manifest can be read, the video, the picture of the
/// latest frame, the text history and the manifest go, in this order, once its newest frame, or
/// else its start, lies more than six hours back; until then, none of them does.
pub proof fn expired_segment_loses_its_four_files(
    file: ManifestFile,
    root: Seq<char>,
    name: Seq<char>,
    seconds: i64,
)
    requires
        root.len() > 0,
        root.last() != '/',
        root.len() >= 2 && root.last() == '.' ==> root[root.len() - 2] != '/',
        name.len() > 0,
        !name.contains('/'),
        file.path@ == root.push('/') + name + ".mp4.json"@,
        file.manifest is Some,
    ensures
        ({
            let manifest = file.manifest->0;
            let newest = match manifest.newest_frame_at {
                Some(newest) => newest,
                None => manifest.segment_started_at,
            };
            let base = root.push('/') + name;
            let gone = all_expired_files(seq![file], seconds);
            &&& newest < seconds - 21_600 ==> gone == seq![
                base + ".mp4"@,
                base + "-latest.jpg"@,
                base + ".ocr.jsonl"@,
                base + ".mp4.json"@,
            ]
            &&& newest >= seconds - 21_600 ==> gone == Seq::<Seq<char>>::empty()
        }),
{
    lemma_one_file(file, seconds);
    lemma_names_below(root, name);
}

/// How the files of a segment in a directory are found from its manifest.
proof fn lemma_names_below(root: Seq<char>, name: Seq<char>)
    requires
        root.len() > 0,
        root.last() != '/',
        root.len() >= 2 && root.last() == '.' ==> root[root.len() - 2] != '/',
        name.len() > 0,
        !name.contains('/'),
    ensures
        ({
            let base = root.push('/') + name;
            let video = base + ".mp4"@;
            &&& is_manifest(base + ".mp4.json"@)
            &&& segment_of(base + ".mp4.json"@) == Some(video)
            &&& latest_frame_of(video) == base + "-latest.jpg"@
            &&& with_extension(video, OCR_FILE_EXTENSION@) == base + ".ocr.jsonl"@
        }),
{
    let base = root.push('/') + name;
    let video = base + ".mp4"@;
    lemma_ending(base, ".mp4.json"@);
    assert(trim_tail(root) == root);
    assert(name[0] != '/');
    lemma_manifest_of_video(root, name);
    lemma_sidecars_of_video(root, name);
    lemma_joined_plain(root, name + ".mp4"@, name, ".mp4"@);
    lemma_joined_plain(root, name + "-latest.jpg"@, name, "-latest.jpg"@);
    assert(name.push('.') + OCR_FILE_EXTENSION@ =~= name + ".ocr.jsonl"@) by {
        reveal_strlit("ocr.jsonl");
        reveal_strlit(".ocr.jsonl");
    }
    lemma_joined_plain(root, name + ".ocr.jsonl"@, name, ".ocr.jsonl"@);
    assert(base + ".mp4.json"@ =~= video + ".json"@) by {
        reveal_strlit(".mp4.json");
        reveal_strlit(".mp4");
        reveal_strlit(".json");
    }
    assert(segment_of(video + ".json"@) == Some(video)) by {
        reveal_strlit(".json");
        lemma_ending(video, ".json"@);
        assert((video + ".json"@).take(video.len() as int) =~= video);
    }
}

proof fn lemma_joined_plain(root: Seq<char>, tail: Seq<char>, name: Seq<char>, rest: Seq<char>)
    requires
        root.len() > 0,
        root.last() != '/',
        name.len() > 0,
        name[0] != '/',
        tail == name + rest,
    ensures
        joined(root, tail) == root.push('/') + name + rest,
{
    assert(tail[0] == name[0]);
    assert(joined(root, tail) =~= root.push('/') + name + rest);
}

/// A file that is no manifest, or one that cannot be read, takes nothing with it.
pub proof fn other_files_stay(file: ManifestFile, seconds: i64)
    requires
        file.manifest is None || forall|name: Seq<char>| file.path@ != #[trigger] (name
            + ".mp4.json"@),
    ensures
        all_expired_files(seq![file], seconds) == Seq::<Seq<char>>::empty(),
{
    lemma_one_file(file, seconds);
    if is_manifest(file.path@) {
        let name = file.path@.take(file.path@.len() - ".mp4.json"@.len());
        assert(file.path@ =~= name + ".mp4.json"@);
    }
}

/// What goes of two lists of files is what goes of the one, then what goes of the other.
pub proof fn files_go_one_by_one(a: Seq<ManifestFile>, b: Seq<ManifestFile>, seconds: i64)
    ensures
        all_expired_files(a + b, seconds) == all_expired_files(a, seconds) + all_expired_files(
            b,
            seconds,
        ),
    decreases b.len(),
{
    if b.len() == 0 {
        assert(a + b =~= a);
        assert(all_expired_files(a, seconds) + Seq::<Seq<char>>::empty() =~= all_expired_files(
            a,
            seconds,
        ));
    } else {
        assert((a + b).drop_last() =~= a + b.drop_last());
        files_go_one_by_one(a, b.drop_last(), seconds);
        assert(all_expired_files(a + b, seconds) =~= all_expired_files(a, seconds)
            + all_expired_files(b, seconds));
    }
}

proof fn lemma_one_file(file: ManifestFile, seconds: i64)
    ensures
        all_expired_files(seq![file], seconds) == expired_files(file, seconds),
{
    assert(seq![file].drop_last() =~= Seq::<ManifestFile>::empty());
    assert(all_expired_files(Seq::<ManifestFile>::empty(), seconds) =~= Seq::empty());
    assert(Seq::<Seq<char>>::empty() + expired_files(file, seconds) =~= expired_files(
        file,
        seconds,
    ));
}

/// A manifest's name is its video's with `.json` behind it; no other name leads to a video.
pub proof fn manifest_is_named_after_its_video(video: Seq<char>, other: Seq<char>)
    ensures
        segment_of(video + ".json"@) == Some(video),
        is_manifest(video + ".mp4.json"@),
        segment_of(other) matches Some(found) ==> other == found + ".json"@,
        segment_of(other) is None ==> forall|name: Seq<char>| other != #[trigger] (name
            + ".json"@),
        is_manifest(other) ==> exists|name: Seq<char>| other == #[trigger] (name + ".mp4.json"@),
{
    reveal_strlit(".json");
    lemma_ending(video, ".json"@);
    lemma_ending(video, ".mp4.json"@);
    assert((video + ".json"@).take(video.len() as int) =~= video);
    if ends_with(other, ".json"@) {
        assert(other =~= other.take(other.len() - 5) + ".json"@);
    } else {
        assert forall|name: Seq<char>| other != #[trigger] (name + ".json"@) by {
            lemma_ending(name, ".json"@);
        }
    }
    if is_manifest(other) {
        let name = other.take(other.len() - ".mp4.json"@.len());
        assert(other =~= name + ".mp4.json"@);
    }
}

/// The picture of the latest frame is written beside its place, with `.tmp` behind its name.
pub proof fn latest_frame_is_written_beside_its_place(root: Seq<char>, name: Seq<char>)
    requires
        root.len() > 0,
        root.last() != '/',
        name.len() > 0,
        !name.contains('/'),
    ensures
        with_extension(root.push('/') + name + ".jpg"@, "jpg.tmp"@) == root.push('/') + name
            + ".jpg.tmp"@,
{
    reveal_strlit(".jpg");
    reveal_strlit("jpg.tmp");
    reveal_strlit(".jpg.tmp");
    let jpg = seq!['j', 'p', 'g'];
    joined_with_extension(root, name, jpg, "jpg.tmp"@);
    assert(name[0] != '/');
    let short = name.push('.') + jpg;
    let long = name.push('.') + "jpg.tmp"@;
    assert(short[0] == name[0] && long[0] == name[0]);
    assert(joined(root, short) =~= root.push('/') + name + ".jpg"@);
    assert(joined(root, long) =~= root.push('/') + name + ".jpg.tmp"@);
}

/// A manifest that is brought up to date after a frame gets the frame's number and time, and
/// keeps all else.
pub proof fn frame_is_noted_in_the_manifest(manifest: ManifestView, frame_count: u64, seconds: i64)
    ensures
        ({
            let after = with_frame(manifest, frame_count, seconds);
            &&& after.frame_count == frame_count
            &&& after.newest_frame_at == Some(seconds)
            &&& after == (ManifestView {
                frame_count: after.frame_count,
                newest_frame_at: after.newest_frame_at,
                ..manifest
            })
        }),
{
}

/// A manifest is removed exactly when its segment is too old: it does not go with another.
pub proof fn manifests_go_only_when_due(files: Seq<ManifestFile>, path: Seq<char>, seconds: i64)
    requires
        is_manifest(path),
    ensures
        all_expired_files(files, seconds).contains(path) <==> exists|i: int|
            0 <= i < files.len() && (#[trigger] files[i]).path@ == path && is_due(
                files[i],
                seconds,
            ),
    decreases files.len(),
{
    if files.len() > 0 {
        let before = files.drop_last();
        let file = files.last();
        manifests_go_only_when_due(before, path, seconds);
        let head = all_expired_files(before, seconds);
        let tail = expired_files(file, seconds);
        lemma_only_manifest(file, path, seconds);
        lemma_contains_sum(head, tail, path);
        if head.contains(path) {
            let i = choose|i: int|
                0 <= i < before.len() && (#[trigger] before[i]).path@ == path && is_due(
                    before[i],
                    seconds,
                );
            assert(files[i] == before[i]);
        }
        if tail.contains(path) {
            assert(files[files.len() - 1].path@ == path);
        }
        if exists|i: int|
            0 <= i < files.len() && (#[trigger] files[i]).path@ == path && is_due(
                files[i],
                seconds,
            ) {
            let i = choose|i: int|
                0 <= i < files.len() && (#[trigger] files[i]).path@ == path && is_due(
                    files[i],
                    seconds,
                );
            if i < before.len() {
                assert(before[i] == files[i]);
            }
        }
    }
}

/// A video is removed exactly when its own segment is too old: it does not go with another.
pub proof fn videos_go_only_when_due(files: Seq<ManifestFile>, path: Seq<char>, seconds: i64)
    requires
        is_manifest(path),
    ensures
        all_expired_files(files, seconds).contains(segment_of(path)->0) <==> exists|i: int|
            0 <= i < files.len() && (#[trigger] files[i]).path@ == path && is_due(
                files[i],
                seconds,
            ),
    decreases files.len(),
{
    let video = segment_of(path)->0;
    if files.len() > 0 {
        let before = files.drop_last();
        let file = files.last();
        videos_go_only_when_due(before, path, seconds);
        let head = all_expired_files(before, seconds);
        let tail = expired_files(file, seconds);
        lemma_only_video(file, path, seconds);
        lemma_contains_sum(head, tail, video);
        if head.contains(video) {
            let i = choose|i: int|
                0 <= i < before.len() && (#[trigger] before[i]).path@ == path && is_due(
                    before[i],
                    seconds,
                );
            assert(files[i] == before[i]);
        }
        if tail.contains(video) {
            assert(files[files.len() - 1].path@ == path);
        }
        if exists|i: int|
            0 <= i < files.len() && (#[trigger] files[i]).path@ == path && is_due(
                files[i],
                seconds,
            ) {
            let i = choose|i: int|
                0 <= i < files.len() && (#[trigger] files[i]).path@ == path && is_due(
                    files[i],
                    seconds,
                );
            if i < before.len() {
                assert(before[i] == files[i]);
            }
        }
    }
}

/// With a segment that is too old go all its files.
pub proof fn expired_segment_goes_whole(files: Seq<ManifestFile>, i: int, seconds: i64)
    requires
        0 <= i < files.len(),
        is_due(files[i], seconds),
    ensures
        ({
            let removed = all_expired_files(files, seconds);
            let video = segment_of(files[i].path@)->0;
            &&& removed.contains(video)
            &&& removed.contains(latest_frame_of(video))
            &&& removed.contains(with_extension(video, OCR_FILE_EXTENSION@))
            &&& removed.contains(files[i].path@)
        }),
    decreases files.len(),
{
    let video = segment_of(files[i].path@)->0;
    let latest = latest_frame_of(video);
    let ocr = with_extension(video, OCR_FILE_EXTENSION@);
    let path = files[i].path@;
    let head = all_expired_files(files.drop_last(), seconds);
    let tail = expired_files(files.last(), seconds);
    lemma_contains_sum(head, tail, video);
    lemma_contains_sum(head, tail, latest);
    lemma_contains_sum(head, tail, ocr);
    lemma_contains_sum(head, tail, path);
    if i < files.len() - 1 {
        assert(files.drop_last()[i] == files[i]);
        expired_segment_goes_whole(files.drop_last(), i, seconds);
    } else {
        assert(tail[0] == video && tail[1] == latest && tail[2] == ocr && tail[3] == path);
    }
}

proof fn lemma_contains_sum(head: Seq<Seq<char>>, tail: Seq<Seq<char>>, item: Seq<char>)
    ensures
        (head + tail).contains(item) <==> head.contains(item) || tail.contains(item),
{
    let sum = head + tail;
    if sum.contains(item) {
        let k = choose|k: int| 0 <= k < sum.len() && sum[k] == item;
        if k < head.len() {
            assert(head[k] == item);
        } else {
            assert(tail[k - head.len()] == item);
        }
    }
    if head.contains(item) {
        let k = choose|k: int| 0 <= k < head.len() && head[k] == item;
        assert(sum[k] == item);
    }
    if tail.contains(item) {
        let k = choose|k: int| 0 <= k < tail.len() && tail[k] == item;
        assert(sum[head.len() + k] == item);
    }
}

/// How the files that go with a manifest end.
proof fn lemma_endings(path: Seq<char>)
    requires
        is_manifest(path),
    ensures
        path.last() == 'n',
        (segment_of(path)->0).last() == '4',
        latest_frame_of(segment_of(path)->0).last() == 'g',
        with_extension(segment_of(path)->0, OCR_FILE_EXTENSION@).last() == 'l',
        path == segment_of(path)->0 + ".json"@,
{
    reveal_strlit(".mp4.json");
    reveal_strlit(".json");
    reveal_strlit(".mp4");
    reveal_strlit("-latest.jpg");
    reveal_strlit("ocr.jsonl");
    lemma_manifest_has_stem(path);
    let segment = segment_of(path)->0;
    assert(path == segment + ".json"@);
    lemma_suffix_last(path, ".mp4.json"@);
    lemma_suffix_last(segment, ".mp4"@);
    let body = trim_tail(segment);
    let name = file_name(segment)->0;
    let ocr = with_extension(segment, OCR_FILE_EXTENSION@);
    let kept = body.take(name_start(body) + stem_len(name)).push('.');
    assert(ocr == kept + OCR_FILE_EXTENSION@);
    let latest_name = file_stem(segment)->0 + "-latest.jpg"@;
    assert(latest_name.last() == 'g');
    lemma_joined_last(trim_tail(body.take(name_start(body))), latest_name);
}

proof fn lemma_only_video(file: ManifestFile, path: Seq<char>, seconds: i64)
    requires
        is_manifest(path),
    ensures
        expired_files(file, seconds).contains(segment_of(path)->0) <==> is_due(file, seconds)
            && file.path@ == path,
{
    let files = expired_files(file, seconds);
    lemma_endings(path);
    if is_due(file, seconds) {
        lemma_endings(file.path@);
        let video = segment_of(file.path@)->0;
        assert(files[0] == video);
    }
}

proof fn lemma_only_manifest(file: ManifestFile, path: Seq<char>, seconds: i64)
    requires
        is_manifest(path),
    ensures
        expired_files(file, seconds).contains(path) <==> is_due(file, seconds) && file.path@
            == path,
{
    let files = expired_files(file, seconds);
    lemma_endings(path);
    if is_due(file, seconds) {
        lemma_endings(file.path@);
        assert(files[3] == file.path@);
    }
}

proof fn lemma_suffix_last(text: Seq<char>, suffix: Seq<char>)
    requires
        ends_with(text, suffix),
        suffix.len() > 0,
    ensures
        text.len() > 0,
        text.last() == suffix.last(),
{
    let n = text.len() - suffix.len();
    assert(text.skip(n)[suffix.len() - 1] == text[text.len() - 1]);
}

proof fn lemma_joined_last(base: Seq<char>, tail: Seq<char>)
    requires
        tail.len() > 0,
    ensures
        joined(base, tail).last() == tail.last(),
{
}

proof fn lemma_name_start_bound(path: Seq<char>)
    ensures
        0 <= name_start(path) <= path.len(),
    decreases path.len(),
{
    if path.len() > 0 && path.last() != '/' {
        lemma_name_start_bound(path.drop_last());
    }
}

/// The views of manifests, history entries and plans show every field of them.
pub proof fn views_show_every_field(
    manifest: SegmentManifest,
    record: OcrFrameRecord,
    plan: SegmentPlan,
)
    ensures
        manifest@.version == manifest.version,
        manifest@.display_id == manifest.display_id@,
        manifest@.display_name == manifest.display_name@,
        manifest@.width == manifest.width,
        manifest@.height == manifest.height,
        manifest@.rotation_millidegrees == manifest.rotation_millidegrees,
        manifest@.scale_factor_milli == manifest.scale_factor_milli,
        manifest@.segment_started_at == manifest.segment_started_at,
        manifest@.started_reason == manifest.started_reason,
        manifest@.frame_count == manifest.frame_count,
        manifest@.newest_frame_at == manifest.newest_frame_at,
        record@.version == record.version,
        record@.display_id == record.display_id@,
        record@.segment_started_at == record.segment_started_at,
        record@.captured_at == record.captured_at,
        record@.frame_index == record.frame_index,
        record@.full_text == record.full_text@,
        plan@.segment_path == plan.segment_path@,
        plan@.manifest_path == plan.manifest_path@,
        plan@.latest_frame_path == plan.latest_frame_path@,
        plan@.ocr_path == plan.ocr_path@,
        plan@.manifest == plan.manifest@,
{
}

} // verus!
