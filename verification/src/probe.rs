//! The media probe's result: from what was found in a container to the
//! facts about a source, or the reason why there are none.

use vstd::prelude::*;
use crate::paths::file_name_of;
use crate::text::{decimal, decimal_string};
use crate::timeline::{MetadataView, VideoMetadata};

verus! {

/// What opening a container and looking for its picture brought.
#[derive(Debug, Clone, PartialEq, Eq)]
pub enum ProbeReport {
    /// The container could not be opened.
    Unreadable { reason: String },
    /// The container holds no video stream.
    NoVideoStream,
    /// No codec context could be made from the stream's parameters.
    ContextFailed { reason: String },
    /// The codec context gave no video decoder.
    DecoderFailed { reason: String },
    /// The best video stream was found and its decoder read.
    Video {
        /// Duration as the container states it, in microseconds; negative
        /// where it states none.
        duration: i64,
        /// Name of the codec, where it has one.
        codec: Option<String>,
        width: u32,
        height: u32,
    },
}

/// Mathematical content of a [`ProbeReport`].
pub ghost enum ProbeReportView {
    Unreadable { reason: Seq<char> },
    NoVideoStream,
    ContextFailed { reason: Seq<char> },
    DecoderFailed { reason: Seq<char> },
    Video { duration: int, codec: Option<Seq<char>>, width: nat, height: nat },
}

impl View for ProbeReport {
    type V = ProbeReportView;

    open spec fn view(&self) -> ProbeReportView {
        match self {
            ProbeReport::Unreadable { reason } => ProbeReportView::Unreadable { reason: reason@ },
            ProbeReport::NoVideoStream => ProbeReportView::NoVideoStream,
            ProbeReport::ContextFailed { reason } => ProbeReportView::ContextFailed {
                reason: reason@,
            },
            ProbeReport::DecoderFailed { reason } => ProbeReportView::DecoderFailed {
                reason: reason@,
            },
            ProbeReport::Video { duration, codec, width, height } => ProbeReportView::Video {
                duration: *duration as int,
                codec: match codec {
                    Some(name) => Some(name@),
                    None => None,
                },
                width: *width as nat,
                height: *height as nat,
            },
        }
    }
}

/// Why a source has no facts.
#[derive(Debug, Clone, PartialEq, Eq)]
pub enum SourceError {
    /// The container could not be opened.
    UnreadableSource { reason: String },
    /// The container holds no video stream.
    NoVideoStream,
    /// The stream's decoder parameters could not be had; `reason` says at
    /// which step, and why.
    CodecResolutionFailure { reason: String },
}

/// Mathematical content of a [`SourceError`].
pub ghost enum SourceErrorView {
    UnreadableSource { reason: Seq<char> },
    NoVideoStream,
    CodecResolutionFailure { reason: Seq<char> },
}

impl View for SourceError {
    type V = SourceErrorView;

    open spec fn view(&self) -> SourceErrorView {
        match self {
            SourceError::UnreadableSource { reason } => SourceErrorView::UnreadableSource {
                reason: reason@,
            },
            SourceError::NoVideoStream => SourceErrorView::NoVideoStream,
            SourceError::CodecResolutionFailure { reason } => SourceErrorView::CodecResolutionFailure {
                reason: reason@,
            },
        }
    }
}

impl SourceErrorView {
    /// The one-line description of the failure.
    pub open spec fn message(self) -> Seq<char> {
        match self {
            SourceErrorView::UnreadableSource { reason } => "Failed to open video file: "@
                + reason,
            SourceErrorView::NoVideoStream => "No video stream found in file"@,
            SourceErrorView::CodecResolutionFailure { reason } => reason,
        }
    }
}

impl SourceError {
    /// The one-line description of the failure.
    pub fn message(&self) -> (text: String)
        ensures
            text@ == self@.message(),
    {
        match self {
            SourceError::UnreadableSource { reason } => {
                let mut text = String::from_str("Failed to open video file: ");
                text.append(reason.as_str());
                text
            },
            SourceError::NoVideoStream => String::from_str("No video stream found in file"),
            SourceError::CodecResolutionFailure { reason } => reason.clone(),
        }
    }
}

/// A picture size written as the editor shows it: width, `x`, height.
pub open spec fn resolution_text(width: nat, height: nat) -> Seq<char> {
    decimal(width) + "x"@ + decimal(height)
}

/// The facts about the source at `path`, displayed as `filename`, that a
/// report amounts to.
///
/// Only a report of a video stream gives facts: the duration it states, or
/// 0 where it states none; the picture size; the codec's name, or `unknown`.
/// Every other report gives the error of its kind.
pub open spec fn metadata_for(path: Seq<char>, filename: Seq<char>, report: ProbeReportView) -> Result<
    MetadataView,
    SourceErrorView,
> {
    match report {
        ProbeReportView::Unreadable { reason } => Err(
            SourceErrorView::UnreadableSource { reason },
        ),
        ProbeReportView::NoVideoStream => Err(SourceErrorView::NoVideoStream),
        ProbeReportView::ContextFailed { reason } => Err(
            SourceErrorView::CodecResolutionFailure {
                reason: "Failed to get codec context: "@ + reason,
            },
        ),
        ProbeReportView::DecoderFailed { reason } => Err(
            SourceErrorView::CodecResolutionFailure {
                reason: "Failed to get video decoder: "@ + reason,
            },
        ),
        ProbeReportView::Video { duration, codec, width, height } => Ok(
            MetadataView {
                filename,
                path,
                duration: if duration < 0 {
                    0
                } else {
                    duration as nat
                },
                resolution: resolution_text(width, height),
                codec: match codec {
                    Some(name) => name,
                    None => "unknown"@,
                },
            },
        ),
    }
}

/// Turns a probe's report on the source at `path` into the facts about it,
/// with `filename` as its display name.
pub fn metadata_from_report(path: &str, filename: String, report: ProbeReport) -> (result: Result<
    VideoMetadata,
    SourceError,
>)
    ensures
        match result {
            Ok(metadata) => metadata_for(path@, filename@, report@) == Ok::<
                MetadataView,
                SourceErrorView,
            >(metadata@),
            Err(error) => metadata_for(path@, filename@, report@) == Err::<
                MetadataView,
                SourceErrorView,
            >(error@),
        },
{
    match report {
        ProbeReport::Unreadable { reason } => Err(SourceError::UnreadableSource { reason }),
        ProbeReport::NoVideoStream => Err(SourceError::NoVideoStream),
        ProbeReport::ContextFailed { reason } => {
            let mut text = String::from_str("Failed to get codec context: ");
            text.append(reason.as_str());
            Err(SourceError::CodecResolutionFailure { reason: text })
        },
        ProbeReport::DecoderFailed { reason } => {
            let mut text = String::from_str("Failed to get video decoder: ");
            text.append(reason.as_str());
            Err(SourceError::CodecResolutionFailure { reason: text })
        },
        ProbeReport::Video { duration, codec, width, height } => {
            let mut resolution = decimal_string(width as u64);
            resolution.append("x");
            resolution.append(decimal_string(height as u64).as_str());
            assert(resolution@ =~= resolution_text(width as nat, height as nat));
            Ok(
                VideoMetadata {
                    filename,
                    path: String::from_str(path),
                    duration: if duration < 0 {
                        0
                    } else {
                        duration as u64
                    },
                    resolution,
                    codec: match codec {
                        Some(name) => name,
                        None => String::from_str("unknown"),
                    },
                },
            )
        },
    }
}

/// Turns a probe's report on the source at `file_path` into the facts
/// about it. The display name is the path's final component as the
/// platform reads paths, empty where it has none; everything else is as
/// [`metadata_for`] says.
pub fn extract_video_metadata(file_path: &str, report: ProbeReport) -> (result: Result<
    VideoMetadata,
    SourceError,
>)
    ensures
        match result {
            Ok(metadata) => metadata_for(file_path@, metadata@.filename, report@) == Ok::<
                MetadataView,
                SourceErrorView,
            >(metadata@),
            Err(error) => forall|filename: Seq<char>|
                metadata_for(file_path@, filename, report@) == Err::<
                    MetadataView,
                    SourceErrorView,
                >(error@),
        },
{
    let filename = match file_name_of(file_path) {
        Some(name) => name,
        None => String::new(),
    };
    metadata_from_report(file_path, filename, report)
}

} // verus!
