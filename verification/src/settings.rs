//! The two fixed tables of an export: picture size by resolution tier, and
//! encoder arguments by format family.

use vstd::prelude::*;
use crate::text::{push_text, same_text, texts};

verus! {

/// The picture sizes an export can ask for.
#[derive(Debug, Clone, Copy, PartialEq, Eq, Structural)]
pub enum ResolutionTier {
    /// No fixed size was asked for; rendered as `Hd1080`.
    Source,
    Hd720,
    Hd1080,
    Qhd1440,
    Uhd4k,
}

impl ResolutionTier {
    /// The tier that a request names: `720p`, `1080p`, `1440p` and `4K` name
    /// their tiers, every other text, `Source` among them, names `Source`.
    pub open spec fn named(name: Seq<char>) -> ResolutionTier {
        if name == "720p"@ {
            ResolutionTier::Hd720
        } else if name == "1080p"@ {
            ResolutionTier::Hd1080
        } else if name == "1440p"@ {
            ResolutionTier::Qhd1440
        } else if name == "4K"@ {
            ResolutionTier::Uhd4k
        } else {
            ResolutionTier::Source
        }
    }

    /// Width of the canvas in pixels.
    pub open spec fn width(self) -> nat {
        match self {
            ResolutionTier::Hd720 => 1280,
            ResolutionTier::Hd1080 => 1920,
            ResolutionTier::Qhd1440 => 2560,
            ResolutionTier::Uhd4k => 3840,
            ResolutionTier::Source => 1920,
        }
    }

    /// Height of the canvas in pixels.
    pub open spec fn height(self) -> nat {
        match self {
            ResolutionTier::Hd720 => 720,
            ResolutionTier::Hd1080 => 1080,
            ResolutionTier::Qhd1440 => 1440,
            ResolutionTier::Uhd4k => 2160,
            ResolutionTier::Source => 1080,
        }
    }

    /// Reads the tier that a request names.
    pub fn from_name(name: &str) -> (tier: ResolutionTier)
        ensures
            tier == ResolutionTier::named(name@),
    {
        if same_text(name, "720p") {
            ResolutionTier::Hd720
        } else if same_text(name, "1080p") {
            ResolutionTier::Hd1080
        } else if same_text(name, "1440p") {
            ResolutionTier::Qhd1440
        } else if same_text(name, "4K") {
            ResolutionTier::Uhd4k
        } else {
            ResolutionTier::Source
        }
    }

    /// The canvas that every primary clip is scaled and padded to: width,
    /// then height.
    pub fn dimensions(self) -> (size: (u32, u32))
        ensures
            size.0 == self.width(),
            size.1 == self.height(),
    {
        match self {
            ResolutionTier::Hd720 => (1280, 720),
            ResolutionTier::Hd1080 => (1920, 1080),
            ResolutionTier::Qhd1440 => (2560, 1440),
            ResolutionTier::Uhd4k => (3840, 2160),
            ResolutionTier::Source => (1920, 1080),
        }
    }
}

/// The container and codec families an export can ask for.
#[derive(Debug, Clone, Copy, PartialEq, Eq, Structural)]
pub enum FormatFamily {
    /// H.264 with AAC; also what an unknown name gets.
    Mp4,
    /// VP9 with Opus.
    WebM,
    /// H.264 with AAC in a QuickTime container.
    Mov,
}

impl FormatFamily {
    /// The family that a request names: `webm` and `mov` name theirs, every
    /// other text names `Mp4`.
    pub open spec fn named(name: Seq<char>) -> FormatFamily {
        if name == "webm"@ {
            FormatFamily::WebM
        } else if name == "mov"@ {
            FormatFamily::Mov
        } else {
            FormatFamily::Mp4
        }
    }

    /// The encoder arguments of the family.
    pub open spec fn codec_args(self) -> Seq<Seq<char>> {
        match self {
            FormatFamily::WebM => seq![
                "-c:v"@,
                "libvpx-vp9"@,
                "-crf"@,
                "30"@,
                "-b:v"@,
                "0"@,
                "-c:a"@,
                "libopus"@,
                "-b:a"@,
                "128k"@,
            ],
            FormatFamily::Mov | FormatFamily::Mp4 => seq![
                "-c:v"@,
                "libx264"@,
                "-preset"@,
                "medium"@,
                "-crf"@,
                "23"@,
                "-c:a"@,
                "aac"@,
                "-b:a"@,
                "192k"@,
            ],
        }
    }

    /// Reads the family that a request names.
    pub fn from_name(name: &str) -> (family: FormatFamily)
        ensures
            family == FormatFamily::named(name@),
    {
        if same_text(name, "webm") {
            FormatFamily::WebM
        } else if same_text(name, "mov") {
            FormatFamily::Mov
        } else {
            FormatFamily::Mp4
        }
    }

    /// Appends the encoder arguments of the family to an argument list.
    pub fn push_codec_args(self, args: &mut Vec<String>)
        ensures
            texts(final(args)@) == texts(old(args)@) + self.codec_args(),
    {
        match self {
            FormatFamily::WebM => {
                push_text(args, "-c:v");
                push_text(args, "libvpx-vp9");
                push_text(args, "-crf");
                push_text(args, "30");
                push_text(args, "-b:v");
                push_text(args, "0");
                push_text(args, "-c:a");
                push_text(args, "libopus");
                push_text(args, "-b:a");
                push_text(args, "128k");
            },
            FormatFamily::Mov | FormatFamily::Mp4 => {
                push_text(args, "-c:v");
                push_text(args, "libx264");
                push_text(args, "-preset");
                push_text(args, "medium");
                push_text(args, "-crf");
                push_text(args, "23");
                push_text(args, "-c:a");
                push_text(args, "aac");
                push_text(args, "-b:a");
                push_text(args, "192k");
            },
        }
        assert(texts(args@) =~= texts(old(args)@) + self.codec_args());
    }
}

} // verus!
