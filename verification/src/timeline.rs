//! The timeline as an export request carries it: source facts, clip
//! placements, and the request itself. Times are whole microseconds.

use vstd::prelude::*;

verus! {

/// What the media probe found out about one source file.
#[derive(Debug, Clone, PartialEq, Eq)]
pub struct VideoMetadata {
    /// Display name: the last component of `path`.
    pub filename: String,
    /// Absolute path; the identity of the source.
    pub path: String,
    /// Total duration in microseconds.
    pub duration: u64,
    /// Pixel size, written `WxH`.
    pub resolution: String,
    /// Codec name.
    pub codec: String,
}

/// Mathematical content of a [`VideoMetadata`].
pub ghost struct MetadataView {
    pub filename: Seq<char>,
    pub path: Seq<char>,
    pub duration: nat,
    pub resolution: Seq<char>,
    pub codec: Seq<char>,
}

impl View for VideoMetadata {
    type V = MetadataView;

    open spec fn view(&self) -> MetadataView {
        MetadataView {
            filename: self.filename@,
            path: self.path@,
            duration: self.duration as nat,
            resolution: self.resolution@,
            codec: self.codec@,
        }
    }
}

/// One placement of a source on the timeline.
#[derive(Debug, Clone, PartialEq, Eq)]
pub struct TimelineClip {
    /// Identity of this placement.
    pub id: String,
    /// The source it plays: the `path` of a [`VideoMetadata`].
    pub clip_id: String,
    /// 0 is the primary track, 1 the overlay track.
    pub track: u32,
    /// Where on the timeline the clip starts.
    pub start_time: u64,
    /// Start of the trim window within the source.
    pub trim_start: u64,
    /// End of the trim window within the source.
    pub trim_end: u64,
    /// Play duration as the editor recorded it.
    pub duration: u64,
}

/// Mathematical content of a [`TimelineClip`].
pub ghost struct ClipView {
    pub id: Seq<char>,
    pub clip_id: Seq<char>,
    pub track: nat,
    pub start_time: nat,
    pub trim_start: nat,
    pub trim_end: nat,
    pub duration: nat,
}

impl ClipView {
    /// The trim window is not reversed.
    pub open spec fn well_formed(self) -> bool {
        self.trim_start <= self.trim_end
    }

    /// Length of the trim window: how long the clip plays.
    pub open spec fn play_duration(self) -> nat {
        (self.trim_end - self.trim_start) as nat
    }
}

impl View for TimelineClip {
    type V = ClipView;

    open spec fn view(&self) -> ClipView {
        ClipView {
            id: self.id@,
            clip_id: self.clip_id@,
            track: self.track as nat,
            start_time: self.start_time as nat,
            trim_start: self.trim_start as nat,
            trim_end: self.trim_end as nat,
            duration: self.duration as nat,
        }
    }
}

impl TimelineClip {
    /// Whether the trim window is not reversed.
    pub fn is_well_formed(&self) -> (ok: bool)
        ensures
            ok == self@.well_formed(),
    {
        self.trim_start <= self.trim_end
    }

    /// How long the clip plays: the length of its trim window.
    pub fn play_duration(&self) -> (micros: u64)
        requires
            self@.well_formed(),
        ensures
            micros == self@.play_duration(),
    {
        self.trim_end - self.trim_start
    }
}

/// The views of a list of clips.
pub open spec fn clip_views(clips: Seq<TimelineClip>) -> Seq<ClipView> {
    Seq::new(clips.len(), |i: int| clips[i]@)
}

/// The views of a list of source facts.
pub open spec fn metadata_views(sources: Seq<VideoMetadata>) -> Seq<MetadataView> {
    Seq::new(sources.len(), |i: int| sources[i]@)
}

/// A full export job: what to render, where to, and in which shape.
#[derive(Debug, Clone, PartialEq, Eq)]
pub struct ExportRequest {
    pub clips: Vec<TimelineClip>,
    pub output_path: String,
    /// `Source`, `720p`, `1080p`, `1440p` or `4K`.
    pub resolution: String,
    /// `mp4`, `webm` or `mov`.
    pub format: String,
}

/// Mathematical content of an [`ExportRequest`].
pub ghost struct RequestView {
    pub clips: Seq<ClipView>,
    pub output_path: Seq<char>,
    pub resolution: Seq<char>,
    pub format: Seq<char>,
}

impl View for ExportRequest {
    type V = RequestView;

    open spec fn view(&self) -> RequestView {
        RequestView {
            clips: clip_views(self.clips@),
            output_path: self.output_path@,
            resolution: self.resolution@,
            format: self.format@,
        }
    }
}

} // verus!
