//! The instructions for turning a recording into an MP4 file.

use vstd::prelude::*;
use crate::text::{push_text, texts};

verus! {

/// The engine's arguments that turn the recording at `input` into an MP4
/// file at `output`: H.264 and AAC, laid out so that playing can start
/// before the whole file is there; a file at `output` is overwritten.
pub open spec fn conversion_args_for(input: Seq<char>, output: Seq<char>) -> Seq<Seq<char>> {
    seq![
        "-i"@,
        input,
        "-c:v"@,
        "libx264"@,
        "-preset"@,
        "fast"@,
        "-crf"@,
        "23"@,
        "-c:a"@,
        "aac"@,
        "-b:a"@,
        "192k"@,
        "-movflags"@,
        "+faststart"@,
        "-y"@,
        output,
    ]
}

/// Builds the engine's arguments that turn a recording into an MP4 file.
pub fn conversion_args(input: &str, output: &str) -> (args: Vec<String>)
    ensures
        texts(args@) == conversion_args_for(input@, output@),
{
    let mut args: Vec<String> = Vec::new();
    push_text(&mut args, "-i");
    push_text(&mut args, input);
    push_text(&mut args, "-c:v");
    push_text(&mut args, "libx264");
    push_text(&mut args, "-preset");
    push_text(&mut args, "fast");
    push_text(&mut args, "-crf");
    push_text(&mut args, "23");
    push_text(&mut args, "-c:a");
    push_text(&mut args, "aac");
    push_text(&mut args, "-b:a");
    push_text(&mut args, "192k");
    push_text(&mut args, "-movflags");
    push_text(&mut args, "+faststart");
    push_text(&mut args, "-y");
    push_text(&mut args, output);
    assert(texts(args@) =~= conversion_args_for(input@, output@));
    args
}

} // verus!
