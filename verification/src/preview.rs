//! The preview generator's instructions: single-frame thumbnails, tiled
//! filmstrips, and the names under which filmstrips are cached.

use vstd::prelude::*;
use crate::base64::{base64_encode, base64_text};
use crate::paths::file_stem_of;
use crate::text::{
    decimal,
    decimal_string,
    push_string,
    push_text,
    seconds_string,
    seconds_text,
    texts,
    MICROS_PER_SECOND,
};

verus! {

/// Frames per second that a source is taken to have when frames are picked
/// for a filmstrip.
pub const BASELINE_FRAME_RATE: u64 = 30;

/// The largest distance between two picked frames.
pub const MAX_INTERVAL: u32 = 2147483647;

/// Why a preview artifact could not be kept or read.
#[derive(Debug, Clone, PartialEq, Eq)]
pub enum ArtifactError {
    /// The directory of cached filmstrips could not be created.
    CacheDirectory { reason: String },
    /// The scratch directory of thumbnails could not be created.
    TempDirectory { reason: String },
    /// The file that the engine wrote could not be read.
    ArtifactRead { reason: String },
}

/// Mathematical content of an [`ArtifactError`].
pub ghost enum ArtifactErrorView {
    CacheDirectory { reason: Seq<char> },
    TempDirectory { reason: Seq<char> },
    ArtifactRead { reason: Seq<char> },
}

impl View for ArtifactError {
    type V = ArtifactErrorView;

    open spec fn view(&self) -> ArtifactErrorView {
        match self {
            ArtifactError::CacheDirectory { reason } => ArtifactErrorView::CacheDirectory {
                reason: reason@,
            },
            ArtifactError::TempDirectory { reason } => ArtifactErrorView::TempDirectory {
                reason: reason@,
            },
            ArtifactError::ArtifactRead { reason } => ArtifactErrorView::ArtifactRead {
                reason: reason@,
            },
        }
    }
}

impl ArtifactErrorView {
    /// The one-line description of the failure.
    pub open spec fn message(self) -> Seq<char> {
        match self {
            ArtifactErrorView::CacheDirectory { reason } => "Failed to create cache directory: "@
                + reason,
            ArtifactErrorView::TempDirectory { reason } => "Failed to create temp directory: "@
                + reason,
            ArtifactErrorView::ArtifactRead { reason } => "Failed to read thumbnail file: "@
                + reason,
        }
    }
}

impl ArtifactError {
    /// The one-line description of the failure.
    pub fn message(&self) -> (text: String)
        ensures
            text@ == self@.message(),
    {
        match self {
            ArtifactError::CacheDirectory { reason } => {
                let mut text = String::from_str("Failed to create cache directory: ");
                text.append(reason.as_str());
                text
            },
            ArtifactError::TempDirectory { reason } => {
                let mut text = String::from_str("Failed to create temp directory: ");
                text.append(reason.as_str());
                text
            },
            ArtifactError::ArtifactRead { reason } => {
                let mut text = String::from_str("Failed to read thumbnail file: ");
                text.append(reason.as_str());
                text
            },
        }
    }
}

/// A time in whole seconds, the half rounded up.
pub open spec fn rounded_seconds(micros: nat) -> nat {
    ((micros + MICROS_PER_SECOND / 2) / (MICROS_PER_SECOND as int)) as nat
}

/// The name of the file that holds the frame of the source with file stem
/// `stem` at `timestamp`.
pub open spec fn thumbnail_name(stem: Seq<char>, timestamp: nat) -> Seq<char> {
    "thumb_"@ + stem + "_"@ + decimal(rounded_seconds(timestamp)) + ".png"@
}

/// The engine's arguments for one thumbnail: seek to `timestamp`, take one
/// frame, scale it to 160 by 90, write it to `output`.
pub open spec fn thumbnail_args_for(video_path: Seq<char>, timestamp: nat, output: Seq<char>) -> Seq<
    Seq<char>,
> {
    seq![
        "-y"@,
        "-ss"@,
        seconds_text(timestamp),
        "-i"@,
        video_path,
        "-vframes"@,
        "1"@,
        "-vf"@,
        "scale=160:90"@,
        "-q:v"@,
        "2"@,
        output,
    ]
}

/// Image bytes as a data URI that a page can embed.
pub open spec fn data_uri(image: Seq<u8>) -> Seq<char> {
    "data:image/png;base64,"@ + base64_text(image)
}

/// Names the file for the frame at `timestamp` of the source with file
/// stem `stem`.
pub fn thumbnail_file_name(stem: &str, timestamp: u64) -> (name: String)
    ensures
        name@ == thumbnail_name(stem@, timestamp as nat),
{
    let half = MICROS_PER_SECOND / 2;
    let whole = timestamp / MICROS_PER_SECOND;
    let seconds = if timestamp % MICROS_PER_SECOND >= half {
        whole + 1
    } else {
        whole
    };
    let mut name = String::from_str("thumb_");
    name.append(stem);
    name.append("_");
    name.append(decimal_string(seconds).as_str());
    name.append(".png");
    assert(name@ =~= thumbnail_name(stem@, timestamp as nat));
    name
}

/// Names the file for the frame at `timestamp` of the source at
/// `video_path`: [`thumbnail_name`] of the path's file stem as the platform
/// reads paths, or of the empty stem where the path has none.
pub fn thumbnail_file_name_for(video_path: &str, timestamp: u64) -> (name: String)
    ensures
        exists|stem: Seq<char>| name@ == thumbnail_name(stem, timestamp as nat),
{
    match file_stem_of(video_path) {
        Some(stem) => thumbnail_file_name(stem.as_str(), timestamp),
        None => thumbnail_file_name("", timestamp),
    }
}

/// Builds the engine's arguments for one thumbnail.
pub fn thumbnail_args(video_path: &str, timestamp: u64, output: &str) -> (args: Vec<String>)
    ensures
        texts(args@) == thumbnail_args_for(video_path@, timestamp as nat, output@),
{
    let mut args: Vec<String> = Vec::new();
    push_text(&mut args, "-y");
    push_text(&mut args, "-ss");
    push_string(&mut args, seconds_string(timestamp));
    push_text(&mut args, "-i");
    push_text(&mut args, video_path);
    push_text(&mut args, "-vframes");
    push_text(&mut args, "1");
    push_text(&mut args, "-vf");
    push_text(&mut args, "scale=160:90");
    push_text(&mut args, "-q:v");
    push_text(&mut args, "2");
    push_text(&mut args, output);
    assert(texts(args@) =~= thumbnail_args_for(video_path@, timestamp as nat, output@));
    args
}

/// Wraps image bytes into a data URI.
pub fn thumbnail_data_uri(image: &[u8]) -> (uri: String)
    ensures
        uri@ == data_uri(image@),
{
    let mut uri = String::from_str("data:image/png;base64,");
    uri.append(base64_encode(image).as_str());
    uri
}

/// The name under which the filmstrip of a clip is cached. It is made of
/// the clip's identity alone: neither the frame count nor the source's
/// content goes into it.
pub open spec fn filmstrip_name(clip_id: Seq<char>) -> Seq<char> {
    clip_id + "_filmstrip.png"@
}

/// Every how many frames one is picked, so that `frame_count` frames span
/// a source of `duration` microseconds at the baseline frame rate: the
/// frames of the source divided by the frames wanted, rounded down, and
/// held between 1 and [`MAX_INTERVAL`]. Where no frame is wanted it is the
/// largest interval, or 1 for a source of no length.
pub open spec fn interval_of(duration: nat, frame_count: nat) -> nat {
    if frame_count == 0 {
        if duration == 0 {
            1
        } else {
            MAX_INTERVAL as nat
        }
    } else {
        let frames = (duration * BASELINE_FRAME_RATE) / ((MICROS_PER_SECOND * frame_count) as int);
        if frames < 1 {
            1
        } else if frames > MAX_INTERVAL {
            MAX_INTERVAL as nat
        } else {
            frames as nat
        }
    }
}

/// The filter that picks every `interval`-th frame, scales it to a width
/// of 120, and tiles `frame_count` of them in one column.
pub open spec fn filmstrip_filter(interval: nat, frame_count: nat) -> Seq<char> {
    "select='not(mod(n,"@ + decimal(interval) + "))',scale=120:-2,tile=1x"@ + decimal(frame_count)
}

/// The engine's arguments for one filmstrip of a source of `duration`
/// microseconds.
pub open spec fn filmstrip_args_for(
    video_path: Seq<char>,
    duration: nat,
    frame_count: nat,
    output: Seq<char>,
) -> Seq<Seq<char>> {
    seq![
        "-y"@,
        "-i"@,
        video_path,
        "-vf"@,
        filmstrip_filter(interval_of(duration, frame_count), frame_count),
        "-frames"@,
        "1"@,
        output,
    ]
}

/// Names the cache entry for the filmstrip of a clip.
pub fn filmstrip_file_name(clip_id: &str) -> (name: String)
    ensures
        name@ == filmstrip_name(clip_id@),
{
    let mut name = String::from_str(clip_id);
    name.append("_filmstrip.png");
    name
}

/// Computes every how many frames one is picked for a filmstrip.
pub fn sampling_interval(duration: u64, frame_count: u32) -> (interval: u32)
    ensures
        interval == interval_of(duration as nat, frame_count as nat),
        1 <= interval <= MAX_INTERVAL,
{
    if frame_count == 0 {
        if duration == 0 {
            1
        } else {
            MAX_INTERVAL
        }
    } else {
        let wanted: u128 = 1_000_000 * (frame_count as u128);
        let frames: u128 = (30 * (duration as u128)) / wanted;
        if frames < 1 {
            1
        } else if frames > MAX_INTERVAL as u128 {
            MAX_INTERVAL
        } else {
            frames as u32
        }
    }
}

/// Builds the engine's arguments for one filmstrip.
pub fn filmstrip_args(video_path: &str, duration: u64, frame_count: u32, output: &str) -> (args: Vec<
    String,
>)
    ensures
        texts(args@) == filmstrip_args_for(
            video_path@,
            duration as nat,
            frame_count as nat,
            output@,
        ),
{
    let interval = sampling_interval(duration, frame_count);
    let mut filter = String::from_str("select='not(mod(n,");
    filter.append(decimal_string(interval as u64).as_str());
    filter.append("))',scale=120:-2,tile=1x");
    filter.append(decimal_string(frame_count as u64).as_str());
    assert(filter@ =~= filmstrip_filter(interval as nat, frame_count as nat));
    let mut args: Vec<String> = Vec::new();
    push_text(&mut args, "-y");
    push_text(&mut args, "-i");
    push_text(&mut args, video_path);
    push_text(&mut args, "-vf");
    push_string(&mut args, filter);
    push_text(&mut args, "-frames");
    push_text(&mut args, "1");
    push_text(&mut args, output);
    assert(texts(args@) =~= filmstrip_args_for(
        video_path@,
        duration as nat,
        frame_count as nat,
        output@,
    ));
    args
}

/// What a filmstrip request leads to.
#[derive(Debug, Clone, PartialEq, Eq)]
pub enum FilmstripStep {
    /// The entry is there: its path is the answer, and the engine rests.
    ServeCached { path: String },
    /// The entry is missing: the source is probed and the engine writes
    /// the entry at `path`.
    Generate { path: String },
}

/// Mathematical content of a [`FilmstripStep`].
pub ghost enum FilmstripStepView {
    ServeCached { path: Seq<char> },
    Generate { path: Seq<char> },
}

impl View for FilmstripStep {
    type V = FilmstripStepView;

    open spec fn view(&self) -> FilmstripStepView {
        match self {
            FilmstripStep::ServeCached { path } => FilmstripStepView::ServeCached { path: path@ },
            FilmstripStep::Generate { path } => FilmstripStepView::Generate { path: path@ },
        }
    }
}

/// The step for a request whose entry lies at `entry_path` and is there or
/// not.
pub open spec fn filmstrip_step_for(entry_path: Seq<char>, entry_exists: bool) -> FilmstripStepView {
    if entry_exists {
        FilmstripStepView::ServeCached { path: entry_path }
    } else {
        FilmstripStepView::Generate { path: entry_path }
    }
}

/// Decides what a filmstrip request leads to, from where its cache entry
/// lies and whether the entry is there. Only existence counts: the entry's
/// content is not looked at.
pub fn filmstrip_step(entry_path: String, entry_exists: bool) -> (step: FilmstripStep)
    ensures
        step@ == filmstrip_step_for(entry_path@, entry_exists),
{
    if entry_exists {
        FilmstripStep::ServeCached { path: entry_path }
    } else {
        FilmstripStep::Generate { path: entry_path }
    }
}

/// The cache after a request for the filmstrip of `clip_id`, the cache
/// being the set of the names of its entries: a request that finds its
/// entry leaves the cache as it is; one that does not adds the entry if the
/// engine ends well. Entries never leave.
pub open spec fn cache_after_request(cache: Set<Seq<char>>, clip_id: Seq<char>, engine_ok: bool) -> Set<
    Seq<char>,
> {
    if !cache.contains(filmstrip_name(clip_id)) && engine_ok {
        cache.insert(filmstrip_name(clip_id))
    } else {
        cache
    }
}

/// Whether a request for the filmstrip of `clip_id` runs the engine.
pub open spec fn request_runs_engine(cache: Set<Seq<char>>, clip_id: Seq<char>) -> bool {
    filmstrip_step_for(filmstrip_name(clip_id), cache.contains(filmstrip_name(clip_id)))
        is Generate
}

/// Of two requests for the filmstrip of one clip, the first of which was
/// answered with a path, the second does not run the engine and is answered
/// with the same path, whatever other requests came between them.
pub proof fn lemma_second_request_is_cached(
    cache: Set<Seq<char>>,
    clip_id: Seq<char>,
    between: Seq<(Seq<char>, bool)>,
)
    ensures
        !request_runs_engine(
            cache_after_requests(cache_after_request(cache, clip_id, true), between),
            clip_id,
        ),
        filmstrip_step_for(
            filmstrip_name(clip_id),
            cache_after_requests(cache_after_request(cache, clip_id, true), between).contains(
                filmstrip_name(clip_id),
            ),
        ) == (FilmstripStepView::ServeCached { path: filmstrip_name(clip_id) }),
{
    lemma_entries_stay(cache_after_request(cache, clip_id, true), between, filmstrip_name(clip_id));
}

/// The cache after a run of requests, each a clip identity and whether the
/// engine ended well for it.
pub open spec fn cache_after_requests(cache: Set<Seq<char>>, requests: Seq<(Seq<char>, bool)>) -> Set<
    Seq<char>,
>
    decreases requests.len(),
{
    if requests.len() == 0 {
        cache
    } else {
        cache_after_request(
            cache_after_requests(cache, requests.drop_last()),
            requests.last().0,
            requests.last().1,
        )
    }
}

/// No request takes an entry out of the cache.
pub proof fn lemma_entries_stay(
    cache: Set<Seq<char>>,
    requests: Seq<(Seq<char>, bool)>,
    entry: Seq<char>,
)
    requires
        cache.contains(entry),
    ensures
        cache_after_requests(cache, requests).contains(entry),
    decreases requests.len(),
{
    if requests.len() > 0 {
        lemma_entries_stay(cache, requests.drop_last(), entry);
    }
}

} // verus!
