//! Timeline export planning and render supervision for a desktop video
//! editor.
//!
//! The crate decides, its caller acts. It turns a timeline of trimmed clips
//! into the argument list for an external processing engine ([`graph`]),
//! reads the engine's status channel and says which progress events go out
//! ([`render`]), writes the instructions for thumbnails and filmstrips and
//! names their cache entries ([`preview`]), and turns what a probe found in
//! a container into the facts about a source ([`probe`]). Starting the
//! engine, reading files and keeping time are left to the caller.
//!
//! Every time is a whole number of microseconds, except the clock readings
//! of a render job, which are milliseconds.

pub mod base64;
pub mod graph;
pub mod order;
mod paths;
pub mod preview;
pub mod probe;
pub mod render;
pub mod settings;
pub mod text;
pub mod timeline;
pub mod transcode;

pub use base64::base64_encode;
pub use timeline::{ExportRequest, TimelineClip, VideoMetadata};
