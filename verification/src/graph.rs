//! The graph builder: from an export request and the facts about its
//! sources to the complete argument list for the processing engine.

use vstd::prelude::*;
use crate::order::{
    borrowed_views,
    insert_by_start,
    is_playing_order,
    lemma_track_order_empty,
    lemma_track_order_is_playing_order,
    ordered_track,
    track_order,
    track_sequence,
};
use crate::settings::{FormatFamily, ResolutionTier};
use crate::text::{decimal, decimal_string, push_string, push_text, seconds_string, seconds_text, texts};
use crate::timeline::{
    clip_views,
    metadata_views,
    ClipView,
    ExportRequest,
    MetadataView,
    RequestView,
    TimelineClip,
    VideoMetadata,
};

verus! {

/// What the render supervisor is handed: the engine's arguments, the length
/// of the output, and where the output goes.
#[derive(Debug, Clone, PartialEq, Eq)]
pub struct RenderPlan {
    /// The engine's command line, without the program name.
    pub args: Vec<String>,
    /// Length of the rendered output in microseconds: the denominator of
    /// progress.
    pub expected_duration: u64,
    /// The file that the engine writes.
    pub output_path: String,
}

/// Mathematical content of a [`RenderPlan`].
pub ghost struct PlanView {
    pub args: Seq<Seq<char>>,
    pub expected_duration: nat,
    pub output_path: Seq<char>,
}

impl View for RenderPlan {
    type V = PlanView;

    open spec fn view(&self) -> PlanView {
        PlanView {
            args: texts(self.args@),
            expected_duration: self.expected_duration as nat,
            output_path: self.output_path@,
        }
    }
}

/// Why no plan could be built.
#[derive(Debug, Clone, PartialEq, Eq)]
pub enum PlanError {
    /// The request has no clip on track 0.
    EmptyPrimaryTrack,
    /// A clip plays a source that the snapshot of source facts lacks.
    SourceNotFound { clip_id: String },
}

/// Mathematical content of a [`PlanError`].
pub ghost enum PlanErrorView {
    EmptyPrimaryTrack,
    SourceNotFound { clip_id: Seq<char> },
}

impl View for PlanError {
    type V = PlanErrorView;

    open spec fn view(&self) -> PlanErrorView {
        match self {
            PlanError::EmptyPrimaryTrack => PlanErrorView::EmptyPrimaryTrack,
            PlanError::SourceNotFound { clip_id } => PlanErrorView::SourceNotFound {
                clip_id: clip_id@,
            },
        }
    }
}

impl PlanErrorView {
    /// The one-line description of the failure.
    pub open spec fn message(self) -> Seq<char> {
        match self {
            PlanErrorView::EmptyPrimaryTrack => "No clips on main track (Track 0) to export"@,
            PlanErrorView::SourceNotFound { clip_id } => "Source clip not found: "@ + clip_id,
        }
    }
}

impl PlanError {
    /// The one-line description of the failure.
    pub fn message(&self) -> (text: String)
        ensures
            text@ == self@.message(),
    {
        match self {
            PlanError::EmptyPrimaryTrack => String::from_str(
                "No clips on main track (Track 0) to export",
            ),
            PlanError::SourceNotFound { clip_id } => {
                let mut text = String::from_str("Source clip not found: ");
                text.append(clip_id.as_str());
                text
            },
        }
    }
}

/// Whether the snapshot holds facts about the source at `path`.
pub open spec fn source_known(sources: Seq<MetadataView>, path: Seq<char>) -> bool {
    exists|i: int| 0 <= i < sources.len() && (#[trigger] sources[i]).path == path
}

/// Index of the first clip from `from` on whose source the snapshot lacks.
pub open spec fn first_unknown(sequence: Seq<ClipView>, sources: Seq<MetadataView>, from: int) -> Option<int>
    decreases sequence.len() - from,
{
    if from < 0 || from >= sequence.len() {
        None
    } else if !source_known(sources, sequence[from].clip_id) {
        Some(from)
    } else {
        first_unknown(sequence, sources, from + 1)
    }
}

/// Sum of the play durations of the clips below position `n` on `track`.
pub open spec fn play_time_on(clips: Seq<ClipView>, track: nat, n: nat) -> nat
    decreases n,
{
    if n == 0 {
        0
    } else if clips[n - 1].track == track {
        play_time_on(clips, track, (n - 1) as nat) + clips[n - 1].play_duration()
    } else {
        play_time_on(clips, track, (n - 1) as nat)
    }
}

impl RequestView {
    /// No trim window is reversed, and the play durations of the primary
    /// track add up to a number of 64 bits.
    pub open spec fn well_formed(self) -> bool {
        &&& forall|i: int| 0 <= i < self.clips.len() ==> (#[trigger] self.clips[i]).well_formed()
        &&& play_time_on(self.clips, 0, self.clips.len()) <= u64::MAX
    }
}

/// The clip that is laid over the picture: the first in playing order on
/// track 1, if that track has a clip.
pub open spec fn overlay_clip(clips: Seq<ClipView>) -> Option<ClipView> {
    let sequence = track_sequence(clips, 1);
    if sequence.len() > 0 {
        Some(sequence[0])
    } else {
        None
    }
}

/// The arguments that open one input: seek to the trim window's start, read
/// for its length, from the clip's source.
pub open spec fn input_args(clip: ClipView) -> Seq<Seq<char>> {
    seq![
        "-ss"@,
        seconds_text(clip.trim_start),
        "-t"@,
        seconds_text(clip.play_duration()),
        "-i"@,
        clip.clip_id,
    ]
}

/// The input arguments of a sequence of clips, clip after clip.
pub open spec fn sequence_args(sequence: Seq<ClipView>) -> Seq<Seq<char>>
    decreases sequence.len(),
{
    if sequence.len() == 0 {
        Seq::empty()
    } else {
        sequence_args(sequence.drop_last()) + input_args(sequence.last())
    }
}

/// The filter stage of primary input `index`: scale to fit the canvas,
/// keeping the aspect ratio; pad to the canvas, centred; square pixels; the
/// fixed frame rate.
pub open spec fn scale_stage(index: nat, width: nat, height: nat) -> Seq<char> {
    "["@ + decimal(index) + ":v]scale="@ + decimal(width) + ":"@ + decimal(height)
        + ":force_original_aspect_ratio=decrease,pad="@ + decimal(width) + ":"@ + decimal(height)
        + ":(ow-iw)/2:(oh-ih)/2,setsar=1,fps=30[v"@ + decimal(index) + "]; "@
}

/// The filter stages of the first `count` inputs.
pub open spec fn scale_stages(count: nat, width: nat, height: nat) -> Seq<char>
    decreases count,
{
    if count == 0 {
        Seq::empty()
    } else {
        scale_stages((count - 1) as nat, width, height) + scale_stage(
            (count - 1) as nat,
            width,
            height,
        )
    }
}

/// The labels of the first `count` scaled streams.
pub open spec fn stream_labels(count: nat) -> Seq<char>
    decreases count,
{
    if count == 0 {
        Seq::empty()
    } else {
        stream_labels((count - 1) as nat) + "[v"@ + decimal((count - 1) as nat) + "]"@
    }
}

/// The stage that joins the scaled streams, one after the other, into the
/// primary stream.
pub open spec fn concat_stage(count: nat) -> Seq<char> {
    stream_labels(count) + "concat=n="@ + decimal(count) + ":v=1:a=0[outv]"@
}

/// The stages that scale input `index` to the overlay size and lay it over
/// the primary stream, near the bottom left corner.
pub open spec fn overlay_stage(index: nat) -> Seq<char> {
    "; ["@ + decimal(index)
        + ":v]scale=320:240[overlay]; [outv][overlay]overlay=20:H-h-20[outv]"@
}

/// The whole filter graph for `count` primary inputs on a canvas of
/// `width` by `height`, with or without an overlay.
pub open spec fn filter_graph(count: nat, overlay: bool, width: nat, height: nat) -> Seq<char> {
    let primary = scale_stages(count, width, height) + concat_stage(count);
    if overlay {
        primary + overlay_stage(count)
    } else {
        primary
    }
}

/// The engine's arguments for a primary sequence, an overlay, a canvas, an
/// encoder family and a destination.
pub open spec fn plan_args(
    primary: Seq<ClipView>,
    overlay: Option<ClipView>,
    tier: ResolutionTier,
    family: FormatFamily,
    output_path: Seq<char>,
) -> Seq<Seq<char>> {
    seq!["-y"@, "-progress"@, "pipe:2"@] + sequence_args(primary) + (match overlay {
        Some(clip) => input_args(clip),
        None => Seq::empty(),
    }) + seq![
        "-filter_complex"@,
        filter_graph(primary.len(), overlay is Some, tier.width(), tier.height()),
        "-map"@,
        "[outv]"@,
        "-map"@,
        "0:a?"@,
    ] + family.codec_args() + seq![output_path]
}

/// What the graph builder returns for a request and a snapshot of source
/// facts.
///
/// A request without a clip on track 0 has no plan. Nor has a request with
/// a clip, on whatever track, whose source the snapshot lacks: the clips
/// are gone through in the order track 0 as it plays, track 1 as it plays,
/// then the whole request as it is listed, and the first such clip is
/// reported. Else the plan holds the arguments, the total play time of
/// track 0, and the destination.
pub open spec fn plan_for(request: RequestView, sources: Seq<MetadataView>) -> Result<
    PlanView,
    PlanErrorView,
> {
    let primary = track_sequence(request.clips, 0);
    let overlays = track_sequence(request.clips, 1);
    if primary.len() == 0 {
        Err(PlanErrorView::EmptyPrimaryTrack)
    } else if first_unknown(primary, sources, 0) is Some {
        Err(
            PlanErrorView::SourceNotFound {
                clip_id: primary[first_unknown(primary, sources, 0)->0].clip_id,
            },
        )
    } else if first_unknown(overlays, sources, 0) is Some {
        Err(
            PlanErrorView::SourceNotFound {
                clip_id: overlays[first_unknown(overlays, sources, 0)->0].clip_id,
            },
        )
    } else if first_unknown(request.clips, sources, 0) is Some {
        Err(
            PlanErrorView::SourceNotFound {
                clip_id: request.clips[first_unknown(request.clips, sources, 0)->0].clip_id,
            },
        )
    } else {
        Ok(
            PlanView {
                args: plan_args(
                    primary,
                    overlay_clip(request.clips),
                    ResolutionTier::named(request.resolution),
                    FormatFamily::named(request.format),
                    request.output_path,
                ),
                expected_duration: play_time_on(request.clips, 0, request.clips.len()),
                output_path: request.output_path,
            },
        )
    }
}

/// Looks up the facts about the source at `path`: the index of the first
/// entry with that path.
pub fn find_source(sources: &Vec<VideoMetadata>, path: &String) -> (found: Option<usize>)
    ensures
        found is Some <==> source_known(metadata_views(sources@), path@),
        found matches Some(i) ==> i < sources@.len() && sources@[i as int].path@ == path@
            && forall|k: int| 0 <= k < i ==> (#[trigger] sources@[k]).path@ != path@,
{
    let mut i: usize = 0;
    while i < sources.len()
        invariant
            i <= sources.len(),
            forall|k: int| 0 <= k < i ==> (#[trigger] metadata_views(sources@)[k]).path != path@,
            forall|k: int| 0 <= k < i ==> (#[trigger] sources@[k]).path@ != path@,
        decreases sources.len() - i,
    {
        if sources[i].path == *path {
            assert(metadata_views(sources@)[i as int].path == path@);
            return Some(i);
        }
        i = i + 1;
    }
    None
}

/// Appends the filter stage of primary input `index` to a filter graph.
fn push_scale_stage(graph: &mut String, index: u64, width: u32, height: u32)
    ensures
        final(graph)@ == old(graph)@ + scale_stage(index as nat, width as nat, height as nat),
{
    let index_text = decimal_string(index);
    let width_text = decimal_string(width as u64);
    let height_text = decimal_string(height as u64);
    graph.append("[");
    graph.append(index_text.as_str());
    graph.append(":v]scale=");
    graph.append(width_text.as_str());
    graph.append(":");
    graph.append(height_text.as_str());
    graph.append(":force_original_aspect_ratio=decrease,pad=");
    graph.append(width_text.as_str());
    graph.append(":");
    graph.append(height_text.as_str());
    graph.append(":(ow-iw)/2:(oh-ih)/2,setsar=1,fps=30[v");
    graph.append(index_text.as_str());
    graph.append("]; ");
    assert(graph@ =~= old(graph)@ + scale_stage(index as nat, width as nat, height as nat));
}

/// Writes the filter graph for `count` primary inputs on a canvas of
/// `width` by `height`, with or without an overlay.
pub fn filter_graph_string(count: usize, overlay: bool, width: u32, height: u32) -> (graph: String)
    ensures
        graph@ == filter_graph(count as nat, overlay, width as nat, height as nat),
{
    let mut graph = String::new();
    let mut i: usize = 0;
    while i < count
        invariant
            i <= count,
            graph@ == scale_stages(i as nat, width as nat, height as nat),
        decreases count - i,
    {
        push_scale_stage(&mut graph, i as u64, width, height);
        i = i + 1;
    }
    let ghost stages = graph@;
    let mut k: usize = 0;
    while k < count
        invariant
            k <= count,
            graph@ == stages + stream_labels(k as nat),
        decreases count - k,
    {
        let label = decimal_string(k as u64);
        graph.append("[v");
        graph.append(label.as_str());
        graph.append("]");
        assert(graph@ =~= stages + (stream_labels(k as nat) + "[v"@ + decimal(k as nat) + "]"@));
        k = k + 1;
    }
    let count_text = decimal_string(count as u64);
    graph.append("concat=n=");
    graph.append(count_text.as_str());
    graph.append(":v=1:a=0[outv]");
    assert(graph@ =~= stages + concat_stage(count as nat));
    if overlay {
        graph.append("; [");
        graph.append(count_text.as_str());
        graph.append(":v]scale=320:240[overlay]; [outv][overlay]overlay=20:H-h-20[outv]");
        assert(graph@ =~= stages + concat_stage(count as nat) + overlay_stage(count as nat));
    }
    graph
}

/// Appends the arguments that open `clip` as an input.
fn push_input_args(args: &mut Vec<String>, clip: &TimelineClip)
    requires
        clip@.well_formed(),
    ensures
        texts(final(args)@) == texts(old(args)@) + input_args(clip@),
{
    push_text(args, "-ss");
    push_string(args, seconds_string(clip.trim_start));
    push_text(args, "-t");
    push_string(args, seconds_string(clip.play_duration()));
    push_text(args, "-i");
    push_string(args, clip.clip_id.clone());
    assert(texts(args@) =~= texts(old(args)@) + input_args(clip@));
}

impl ExportRequest {
    /// Whether no trim window is reversed and the play durations of the
    /// primary track add up to a number of 64 bits: what
    /// [`build_export_plan`] asks of a request.
    pub fn is_well_formed(&self) -> (ok: bool)
        ensures
            ok == self@.well_formed(),
    {
        let ghost views = clip_views(self.clips@);
        let mut total: u64 = 0;
        let mut i: usize = 0;
        while i < self.clips.len()
            invariant
                i <= self.clips.len(),
                views == clip_views(self.clips@),
                forall|k: int| 0 <= k < i ==> (#[trigger] views[k]).well_formed(),
                total == play_time_on(views, 0, i as nat),
            decreases self.clips.len() - i,
        {
            let clip = &self.clips[i];
            if !clip.is_well_formed() {
                assert(!views[i as int].well_formed());
                return false;
            }
            if clip.track == 0 {
                match total.checked_add(clip.play_duration()) {
                    Some(sum) => {
                        total = sum;
                    },
                    None => {
                        proof {
                            lemma_play_time_grows(views, 0, (i + 1) as nat, views.len());
                        }
                        return false;
                    },
                }
            }
            i = i + 1;
        }
        true
    }
}

/// The play time of a track only grows with the number of clips counted.
pub proof fn lemma_play_time_grows(clips: Seq<ClipView>, track: nat, m: nat, n: nat)
    requires
        m <= n,
    ensures
        play_time_on(clips, track, m) <= play_time_on(clips, track, n),
    decreases n - m,
{
    if m < n {
        lemma_play_time_grows(clips, track, m, (n - 1) as nat);
    }
}

/// Adds up the play durations of the clips on track 0.
fn primary_play_time(request: &ExportRequest) -> (total: u64)
    requires
        request@.well_formed(),
    ensures
        total == play_time_on(request@.clips, 0, request@.clips.len()),
{
    let ghost views = clip_views(request.clips@);
    let mut total: u64 = 0;
    let mut i: usize = 0;
    while i < request.clips.len()
        invariant
            i <= request.clips.len(),
            views == clip_views(request.clips@),
            request@.well_formed(),
            views == request@.clips,
            total == play_time_on(views, 0, i as nat),
        decreases request.clips.len() - i,
    {
        let clip = &request.clips[i];
        assert(views[i as int].well_formed());
        if clip.track == 0 {
            proof {
                lemma_play_time_grows(views, 0, (i + 1) as nat, views.len());
            }
            total = total + clip.play_duration();
        }
        i = i + 1;
    }
    total
}

/// Every clip of a track sequence is a clip of the request.
proof fn lemma_sequence_clips_are_request_clips(clips: Seq<ClipView>, track: nat, k: int)
    requires
        0 <= k < track_sequence(clips, track).len(),
    ensures
        exists|p: int| 0 <= p < clips.len() && clips[p] == track_sequence(clips, track)[k],
{
    lemma_track_order_is_playing_order(clips, track, clips.len());
    let order = track_order(clips, track, clips.len());
    assert(0 <= order[k] < clips.len());
}

/// Where the search for an unknown source has come as far as `k` without a
/// find, it goes on from `k` with the same result.
proof fn lemma_first_unknown_goes_on(
    sequence: Seq<ClipView>,
    sources: Seq<MetadataView>,
    from: int,
    k: int,
)
    requires
        0 <= from <= k <= sequence.len(),
        forall|j: int| from <= j < k ==> source_known(sources, (#[trigger] sequence[j]).clip_id),
    ensures
        first_unknown(sequence, sources, from) == first_unknown(sequence, sources, k),
    decreases k - from,
{
    if from < k {
        assert(source_known(sources, sequence[from].clip_id));
        lemma_first_unknown_goes_on(sequence, sources, from + 1, k);
    }
}

/// Finds the first of a sequence of clips whose source the snapshot lacks.
fn first_missing_source(sequence: &Vec<&TimelineClip>, sources: &Vec<VideoMetadata>) -> (found:
    Option<usize>)
    ensures
        match found {
            Some(k) => first_unknown(borrowed_views(sequence@), metadata_views(sources@), 0)
                == Some(k as int) && k < sequence@.len(),
            None => first_unknown(borrowed_views(sequence@), metadata_views(sources@), 0) is None,
        },
{
    let ghost views = borrowed_views(sequence@);
    let ghost known = metadata_views(sources@);
    let mut k: usize = 0;
    while k < sequence.len()
        invariant
            k <= sequence.len(),
            views == borrowed_views(sequence@),
            known == metadata_views(sources@),
            forall|j: int| 0 <= j < k ==> source_known(known, (#[trigger] views[j]).clip_id),
        decreases sequence.len() - k,
    {
        if find_source(sources, &sequence[k].clip_id).is_none() {
            proof {
                lemma_first_unknown_goes_on(views, known, 0, k as int);
            }
            return Some(k);
        }
        k = k + 1;
    }
    proof {
        lemma_first_unknown_goes_on(views, known, 0, k as int);
    }
    None
}

/// Finds the first clip of a request, as it is listed, whose source the
/// snapshot lacks.
fn first_missing_in_request(clips: &Vec<TimelineClip>, sources: &Vec<VideoMetadata>) -> (found:
    Option<usize>)
    ensures
        match found {
            Some(k) => first_unknown(clip_views(clips@), metadata_views(sources@), 0) == Some(
                k as int,
            ) && k < clips@.len(),
            None => first_unknown(clip_views(clips@), metadata_views(sources@), 0) is None,
        },
{
    let ghost views = clip_views(clips@);
    let ghost known = metadata_views(sources@);
    let mut k: usize = 0;
    while k < clips.len()
        invariant
            k <= clips.len(),
            views == clip_views(clips@),
            known == metadata_views(sources@),
            forall|j: int| 0 <= j < k ==> source_known(known, (#[trigger] views[j]).clip_id),
        decreases clips.len() - k,
    {
        if find_source(sources, &clips[k].clip_id).is_none() {
            proof {
                lemma_first_unknown_goes_on(views, known, 0, k as int);
            }
            return Some(k);
        }
        k = k + 1;
    }
    proof {
        lemma_first_unknown_goes_on(views, known, 0, k as int);
    }
    None
}

/// Builds the plan for an export: the engine's arguments, the expected
/// length of the output, and the destination.
///
/// Fails, before anything is run, on a request without a clip on track 0
/// and on a request that holds a clip, used in the plan or not, whose
/// source the snapshot lacks.
pub fn build_export_plan(request: &ExportRequest, sources: &Vec<VideoMetadata>) -> (result: Result<
    RenderPlan,
    PlanError,
>)
    requires
        request@.well_formed(),
    ensures
        match result {
            Ok(plan) => plan_for(request@, metadata_views(sources@)) == Ok::<
                PlanView,
                PlanErrorView,
            >(plan@),
            Err(error) => plan_for(request@, metadata_views(sources@)) == Err::<
                PlanView,
                PlanErrorView,
            >(error@),
        },
{
    let ghost clips = request@.clips;
    let primary = ordered_track(&request.clips, 0);
    let overlays = ordered_track(&request.clips, 1);
    let ghost sequence = track_sequence(clips, 0);
    if primary.len() == 0 {
        return Err(PlanError::EmptyPrimaryTrack);
    }
    match first_missing_source(&primary, sources) {
        Some(k) => {
            return Err(PlanError::SourceNotFound { clip_id: primary[k].clip_id.clone() });
        },
        None => {},
    }
    match first_missing_source(&overlays, sources) {
        Some(k) => {
            return Err(PlanError::SourceNotFound { clip_id: overlays[k].clip_id.clone() });
        },
        None => {},
    }
    match first_missing_in_request(&request.clips, sources) {
        Some(k) => {
            return Err(PlanError::SourceNotFound { clip_id: request.clips[k].clip_id.clone() });
        },
        None => {},
    }
    let expected_duration = primary_play_time(request);
    let tier = ResolutionTier::from_name(request.resolution.as_str());
    let family = FormatFamily::from_name(request.format.as_str());
    let (width, height) = tier.dimensions();

    let mut args: Vec<String> = Vec::new();
    push_text(&mut args, "-y");
    push_text(&mut args, "-progress");
    push_text(&mut args, "pipe:2");
    let ghost head = texts(args@);
    assert(head =~= seq!["-y"@, "-progress"@, "pipe:2"@]);

    let mut i: usize = 0;
    while i < primary.len()
        invariant
            i <= primary.len(),
            clips == request@.clips,
            request@.well_formed(),
            sequence == track_sequence(clips, 0),
            borrowed_views(primary@) == sequence,
            texts(args@) == head + sequence_args(sequence.take(i as int)),
        decreases primary.len() - i,
    {
        let clip = primary[i];
        assert(clip@ == sequence[i as int]);
        proof {
            lemma_sequence_clips_are_request_clips(clips, 0, i as int);
        }
        push_input_args(&mut args, clip);
        proof {
            let next = sequence.take(i + 1);
            assert(next.drop_last() =~= sequence.take(i as int));
            assert(next.last() == sequence[i as int]);
            assert(texts(args@) =~= head + sequence_args(next));
        }
        i = i + 1;
    }
    assert(sequence.take(i as int) =~= sequence);

    let has_overlay = overlays.len() > 0;
    if has_overlay {
        let clip = overlays[0];
        assert(clip@ == track_sequence(clips, 1)[0]);
        proof {
            lemma_sequence_clips_are_request_clips(clips, 1, 0);
        }
        push_input_args(&mut args, clip);
    }
    push_text(&mut args, "-filter_complex");
    push_string(&mut args, filter_graph_string(primary.len(), has_overlay, width, height));
    push_text(&mut args, "-map");
    push_text(&mut args, "[outv]");
    push_text(&mut args, "-map");
    push_text(&mut args, "0:a?");
    family.push_codec_args(&mut args);
    push_string(&mut args, request.output_path.clone());
    let plan = RenderPlan { args, expected_duration, output_path: request.output_path.clone() };
    assert(plan@.args =~= plan_args(
        sequence,
        overlay_clip(clips),
        tier,
        family,
        request@.output_path,
    ));
    Ok(plan)
}

/// Builds the plan for an export where the request is well formed, and
/// says so where it is not: `None` for a request that holds a reversed trim
/// window or whose primary track plays longer than 64 bits can count.
pub fn try_build_export_plan(request: &ExportRequest, sources: &Vec<VideoMetadata>) -> (result:
    Option<Result<RenderPlan, PlanError>>)
    ensures
        result is Some <==> request@.well_formed(),
        match result {
            Some(Ok(plan)) => plan_for(request@, metadata_views(sources@)) == Ok::<
                PlanView,
                PlanErrorView,
            >(plan@),
            Some(Err(error)) => plan_for(request@, metadata_views(sources@)) == Err::<
                PlanView,
                PlanErrorView,
            >(error@),
            None => true,
        },
{
    if request.is_well_formed() {
        Some(build_export_plan(request, sources))
    } else {
        None
    }
}

/// The same request and the same snapshot give the same plan, or the same
/// failure: the builder looks at nothing else.
pub proof fn lemma_plan_is_deterministic(
    request: RequestView,
    sources: Seq<MetadataView>,
    other_request: RequestView,
    other_sources: Seq<MetadataView>,
)
    requires
        request == other_request,
        sources == other_sources,
    ensures
        plan_for(request, sources) == plan_for(other_request, other_sources),
{
}

/// Which clip is the first with an unknown source depends on the snapshot
/// only through the paths it knows.
proof fn lemma_first_unknown_by_paths(
    sequence: Seq<ClipView>,
    sources: Seq<MetadataView>,
    other_sources: Seq<MetadataView>,
    from: int,
)
    requires
        forall|path: Seq<char>| #[trigger]
            source_known(sources, path) == source_known(other_sources, path),
    ensures
        first_unknown(sequence, sources, from) == first_unknown(sequence, other_sources, from),
    decreases sequence.len() - from,
{
    if 0 <= from < sequence.len() {
        lemma_first_unknown_by_paths(sequence, sources, other_sources, from + 1);
    }
}

/// Of the snapshot the builder looks only at which paths it knows: neither
/// the order of its entries nor the other facts in them change the plan.
pub proof fn lemma_plan_depends_on_known_paths(
    request: RequestView,
    sources: Seq<MetadataView>,
    other_sources: Seq<MetadataView>,
)
    requires
        forall|path: Seq<char>| #[trigger]
            source_known(sources, path) == source_known(other_sources, path),
    ensures
        plan_for(request, sources) == plan_for(request, other_sources),
{
    lemma_first_unknown_by_paths(track_sequence(request.clips, 0), sources, other_sources, 0);
    lemma_first_unknown_by_paths(track_sequence(request.clips, 1), sources, other_sources, 0);
    lemma_first_unknown_by_paths(request.clips, sources, other_sources, 0);
}

/// A sequence of clips has six arguments for each clip, the clips in their
/// order.
pub proof fn lemma_sequence_args_layout(sequence: Seq<ClipView>)
    ensures
        sequence_args(sequence).len() == 6 * sequence.len(),
        forall|k: int|
            0 <= k < sequence.len() ==> #[trigger] sequence_args(sequence).subrange(
                6 * k,
                6 * k + 6,
            ) == input_args(sequence[k]),
    decreases sequence.len(),
{
    if sequence.len() > 0 {
        let shorter = sequence.drop_last();
        lemma_sequence_args_layout(shorter);
        let all = sequence_args(sequence);
        assert forall|k: int| 0 <= k < sequence.len() implies #[trigger] all.subrange(
            6 * k,
            6 * k + 6,
        ) == input_args(sequence[k]) by {
            if k < shorter.len() {
                assert(all.subrange(6 * k, 6 * k + 6) =~= sequence_args(shorter).subrange(
                    6 * k,
                    6 * k + 6,
                ));
                assert(shorter[k] == sequence[k]);
            } else {
                assert(all.subrange(6 * k, 6 * k + 6) =~= input_args(sequence.last()));
            }
        }
    }
}

/// Where a plan is built, its arguments open the clips of track 0 as the
/// first inputs, each clip of the track once, in ascending order of start
/// time, clips that start together in the order of the request: input `k`
/// stands in the six arguments from index `3 + 6 * k` on.
pub proof fn lemma_primary_inputs_in_playing_order(request: RequestView, sources: Seq<MetadataView>)
    requires
        plan_for(request, sources) is Ok,
    ensures
        is_playing_order(
            request.clips,
            0,
            request.clips.len(),
            track_order(request.clips, 0, request.clips.len()),
        ),
        forall|j: int, k: int|
            0 <= j < k < track_sequence(request.clips, 0).len() ==> (#[trigger] track_sequence(
                request.clips,
                0,
            )[j]).start_time <= (#[trigger] track_sequence(request.clips, 0)[k]).start_time,
        plan_for(request, sources) matches Ok(plan) ==> forall|k: int|
            0 <= k < track_sequence(request.clips, 0).len() ==> #[trigger] plan.args.subrange(
                3 + 6 * k,
                9 + 6 * k,
            ) == input_args(track_sequence(request.clips, 0)[k]),
{
    let clips = request.clips;
    let order = track_order(clips, 0, clips.len());
    let primary = track_sequence(clips, 0);
    lemma_track_order_is_playing_order(clips, 0, clips.len());
    assert forall|j: int, k: int| 0 <= j < k < primary.len() implies (#[trigger] primary[j]).start_time
        <= (#[trigger] primary[k]).start_time by {
        assert(crate::order::plays_before(clips, order[j], order[k]));
    }
    lemma_sequence_args_layout(primary);
    let plan = plan_for(request, sources)->Ok_0;
    let head = seq!["-y"@, "-progress"@, "pipe:2"@];
    assert forall|k: int| 0 <= k < primary.len() implies #[trigger] plan.args.subrange(
        3 + 6 * k,
        9 + 6 * k,
    ) == input_args(primary[k]) by {
        assert(sequence_args(primary).subrange(6 * k, 6 * k + 6) == input_args(primary[k]));
        assert(plan.args.subrange(3 + 6 * k, 9 + 6 * k) =~= sequence_args(primary).subrange(
            6 * k,
            6 * k + 6,
        ));
    }
}

/// Sum of the play durations of the clips at the positions that `order`
/// lists.
pub open spec fn order_play_time(clips: Seq<ClipView>, order: Seq<int>) -> nat
    decreases order.len(),
{
    if order.len() == 0 {
        0
    } else {
        order_play_time(clips, order.drop_last()) + clips[order.last()].play_duration()
    }
}

/// Inserting a position adds its clip's play duration, wherever it goes.
proof fn lemma_insert_adds_play_time(clips: Seq<ClipView>, order: Seq<int>, p: int)
    ensures
        order_play_time(clips, insert_by_start(clips, order, p)) == order_play_time(clips, order)
            + clips[p].play_duration(),
    decreases order.len(),
{
    let result = insert_by_start(clips, order, p);
    if order.len() == 0 {
        assert(result.drop_last() =~= order);
        assert(result.last() == p);
    } else if clips[order.last()].start_time <= clips[p].start_time {
        assert(result.drop_last() =~= order);
        assert(result.last() == p);
    } else {
        let inner = insert_by_start(clips, order.drop_last(), p);
        lemma_insert_adds_play_time(clips, order.drop_last(), p);
        assert(result.drop_last() =~= inner);
        assert(result.last() == order.last());
    }
}

/// The expected duration of a plan is the sum of the lengths of the trim
/// windows of the clips on track 0, in whatever order they play; no clip of
/// another track counts.
pub proof fn lemma_expected_duration_is_primary_play_time(
    request: RequestView,
    sources: Seq<MetadataView>,
)
    requires
        plan_for(request, sources) is Ok,
    ensures
        plan_for(request, sources) matches Ok(plan) ==> plan.expected_duration == order_play_time(
            request.clips,
            track_order(request.clips, 0, request.clips.len()),
        ) && plan.expected_duration == play_time_on(request.clips, 0, request.clips.len()),
{
    lemma_order_play_time(request.clips, 0, request.clips.len());
}

/// Adding up along the playing order of a track gives the track's play
/// time.
pub proof fn lemma_order_play_time(clips: Seq<ClipView>, track: nat, n: nat)
    ensures
        order_play_time(clips, track_order(clips, track, n)) == play_time_on(clips, track, n),
    decreases n,
{
    if n > 0 {
        lemma_order_play_time(clips, track, (n - 1) as nat);
        if clips[n - 1].track == track {
            lemma_insert_adds_play_time(clips, track_order(clips, track, (n - 1) as nat), n - 1);
        }
    }
}

/// Clips that are not on a track do not count for its play time: two lists
/// that agree on the clips of the track have the same.
pub proof fn lemma_other_tracks_do_not_count(
    clips: Seq<ClipView>,
    other: Seq<ClipView>,
    track: nat,
    n: nat,
)
    requires
        forall|i: int|
            0 <= i < n && ((#[trigger] clips[i]).track == track || (#[trigger] other[i]).track
                == track) ==> clips[i] == other[i],
    ensures
        play_time_on(clips, track, n) == play_time_on(other, track, n),
    decreases n,
{
    if n > 0 {
        lemma_other_tracks_do_not_count(clips, other, track, (n - 1) as nat);
        assert(clips[n - 1].track == track || other[n - 1].track == track ==> clips[n - 1]
            == other[n - 1]);
    }
}

/// A request without a clip on track 0 has no plan, and always for the
/// same reason, whatever else it holds and whatever the snapshot.
pub proof fn lemma_empty_primary_track(request: RequestView, sources: Seq<MetadataView>)
    requires
        forall|i: int| 0 <= i < request.clips.len() ==> (#[trigger] request.clips[i]).track != 0,
    ensures
        plan_for(request, sources) == Err::<PlanView, PlanErrorView>(
            PlanErrorView::EmptyPrimaryTrack,
        ),
{
    lemma_track_order_empty(request.clips, 0, request.clips.len());
}

/// A request whose first clip in playing order, on track 0, plays a source
/// that the snapshot lacks has no plan: the failure names that source.
pub proof fn lemma_unknown_source(request: RequestView, sources: Seq<MetadataView>, k: int)
    requires
        0 <= k < track_sequence(request.clips, 0).len(),
        !source_known(sources, track_sequence(request.clips, 0)[k].clip_id),
        forall|j: int|
            0 <= j < k ==> source_known(
                sources,
                (#[trigger] track_sequence(request.clips, 0)[j]).clip_id,
            ),
    ensures
        plan_for(request, sources) == Err::<PlanView, PlanErrorView>(
            PlanErrorView::SourceNotFound { clip_id: track_sequence(request.clips, 0)[k].clip_id },
        ),
{
    lemma_first_unknown(track_sequence(request.clips, 0), sources, 0, k);
}

/// The first clip with an unknown source, looked for from `from` on, is
/// clip `k` if every clip from `from` up to `k` has a known one.
proof fn lemma_first_unknown(
    sequence: Seq<ClipView>,
    sources: Seq<MetadataView>,
    from: int,
    k: int,
)
    requires
        0 <= from <= k < sequence.len(),
        !source_known(sources, sequence[k].clip_id),
        forall|j: int| from <= j < k ==> source_known(sources, (#[trigger] sequence[j]).clip_id),
    ensures
        first_unknown(sequence, sources, from) == Some(k),
    decreases k - from,
{
    if from < k {
        assert(source_known(sources, sequence[from].clip_id));
        lemma_first_unknown(sequence, sources, from + 1, k);
    }
}

/// A search that finds no unknown source has met known sources only.
proof fn lemma_none_unknown(sequence: Seq<ClipView>, sources: Seq<MetadataView>, from: int)
    requires
        0 <= from,
        first_unknown(sequence, sources, from) is None,
    ensures
        forall|j: int|
            from <= j < sequence.len() ==> source_known(sources, (#[trigger] sequence[j]).clip_id),
    decreases sequence.len() - from,
{
    if from < sequence.len() {
        lemma_none_unknown(sequence, sources, from + 1);
    }
}

/// What a search for an unknown source finds is a clip of the sequence
/// whose source is unknown.
proof fn lemma_found_is_unknown(sequence: Seq<ClipView>, sources: Seq<MetadataView>, from: int)
    requires
        0 <= from,
        first_unknown(sequence, sources, from) is Some,
    ensures
        from <= first_unknown(sequence, sources, from)->0 < sequence.len(),
        !source_known(sources, sequence[first_unknown(sequence, sources, from)->0].clip_id),
    decreases sequence.len() - from,
{
    if from < sequence.len() && source_known(sources, sequence[from].clip_id) {
        lemma_found_is_unknown(sequence, sources, from + 1);
    }
}

/// A plan is built only where the snapshot knows the source of every clip
/// of the request, on whatever track, used in the plan or not.
pub proof fn lemma_plan_needs_every_source(request: RequestView, sources: Seq<MetadataView>)
    requires
        plan_for(request, sources) is Ok,
    ensures
        forall|i: int|
            0 <= i < request.clips.len() ==> source_known(
                sources,
                (#[trigger] request.clips[i]).clip_id,
            ),
{
    lemma_none_unknown(request.clips, sources, 0);
}

/// A request with a clip on track 0 and a clip whose source the snapshot
/// lacks fails with `SourceNotFound`, and the source it names is one that
/// the snapshot lacks.
pub proof fn lemma_missing_source_fails(request: RequestView, sources: Seq<MetadataView>, i: int)
    requires
        track_sequence(request.clips, 0).len() > 0,
        0 <= i < request.clips.len(),
        !source_known(sources, request.clips[i].clip_id),
    ensures
        plan_for(request, sources) matches Err(PlanErrorView::SourceNotFound { clip_id })
            && !source_known(sources, clip_id),
{
    let primary = track_sequence(request.clips, 0);
    let overlays = track_sequence(request.clips, 1);
    if first_unknown(primary, sources, 0) is Some {
        lemma_found_is_unknown(primary, sources, 0);
    } else if first_unknown(overlays, sources, 0) is Some {
        lemma_found_is_unknown(overlays, sources, 0);
    } else {
        if first_unknown(request.clips, sources, 0) is None {
            lemma_none_unknown(request.clips, sources, 0);
            assert(source_known(sources, request.clips[i].clip_id));
        }
        lemma_found_is_unknown(request.clips, sources, 0);
    }
}

} // verus!
