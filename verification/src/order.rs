//! The order in which the clips of one track play: ascending by start time,
//! clips that start together in the order in which the request lists them.

use vstd::prelude::*;
use vstd::seq_lib::lemma_seq_contains_after_push;
use crate::timeline::{clip_views, ClipView, TimelineClip};

verus! {

/// `order` with position `p` put behind every position whose clip starts no
/// later than clip `p`, and in front of the rest.
pub open spec fn insert_by_start(clips: Seq<ClipView>, order: Seq<int>, p: int) -> Seq<int>
    decreases order.len(),
{
    if order.len() == 0 {
        seq![p]
    } else if clips[order.last()].start_time <= clips[p].start_time {
        order.push(p)
    } else {
        insert_by_start(clips, order.drop_last(), p).push(order.last())
    }
}

/// The positions below `n` of the clips on `track`, in playing order.
pub open spec fn track_order(clips: Seq<ClipView>, track: nat, n: nat) -> Seq<int>
    decreases n,
{
    if n == 0 {
        Seq::empty()
    } else {
        let before = track_order(clips, track, (n - 1) as nat);
        if clips[n - 1].track == track {
            insert_by_start(clips, before, n - 1)
        } else {
            before
        }
    }
}

/// The clips on `track`, in playing order.
pub open spec fn track_sequence(clips: Seq<ClipView>, track: nat) -> Seq<ClipView> {
    let order = track_order(clips, track, clips.len());
    Seq::new(order.len(), |k: int| clips[order[k]])
}

/// Clip `p` plays before clip `q`: it starts earlier, or at the same time
/// and stands earlier in the request.
pub open spec fn plays_before(clips: Seq<ClipView>, p: int, q: int) -> bool {
    clips[p].start_time < clips[q].start_time || (clips[p].start_time == clips[q].start_time && p
        < q)
}

/// `order` lists exactly the positions below `n` of the clips on `track`,
/// each once, so that every clip plays before those listed after it.
pub open spec fn is_playing_order(clips: Seq<ClipView>, track: nat, n: nat, order: Seq<int>) -> bool {
    &&& forall|k: int|
        0 <= k < order.len() ==> 0 <= #[trigger] order[k] < n && clips[order[k]].track == track
    &&& forall|p: int| 0 <= p < n && #[trigger] clips[p].track == track ==> order.contains(p)
    &&& forall|j: int, k: int|
        0 <= j < k < order.len() ==> plays_before(clips, #[trigger] order[j], #[trigger] order[k])
}

/// Where `insert_by_start` puts a new position: at index `at`, if every
/// listed clip from `at` on starts later than the new one and the clip just
/// before `at` does not.
pub proof fn lemma_insert_at(clips: Seq<ClipView>, order: Seq<int>, p: int, at: int)
    requires
        0 <= at <= order.len(),
        forall|k: int|
            at <= k < order.len() ==> clips[#[trigger] order[k]].start_time
                > clips[p].start_time,
        at > 0 ==> clips[order[at - 1]].start_time <= clips[p].start_time,
    ensures
        insert_by_start(clips, order, p) == order.subrange(0, at).push(p) + order.subrange(
            at,
            order.len() as int,
        ),
    decreases order.len(),
{
    let expected = order.subrange(0, at).push(p) + order.subrange(at, order.len() as int);
    if order.len() == 0 {
        assert(expected =~= seq![p]);
    } else if at == order.len() {
        assert(expected =~= order.push(p));
    } else {
        let shorter = order.drop_last();
        lemma_insert_at(clips, shorter, p, at);
        assert(clips[order[order.len() - 1]].start_time > clips[p].start_time);
        assert(expected =~= (shorter.subrange(0, at).push(p) + shorter.subrange(
            at,
            shorter.len() as int,
        )).push(order.last()));
    }
}

/// What `insert_by_start` returns holds the new position and the old ones,
/// and nothing else.
pub proof fn lemma_insert_shape(clips: Seq<ClipView>, order: Seq<int>, p: int)
    ensures
        insert_by_start(clips, order, p).len() == order.len() + 1,
        forall|q: int| #[trigger]
            insert_by_start(clips, order, p).contains(q) <==> (q == p || order.contains(q)),
    decreases order.len(),
{
    broadcast use lemma_seq_contains_after_push;

    if order.len() == 0 {
        assert(order =~= Seq::<int>::empty());
        assert(seq![p] =~= Seq::<int>::empty().push(p));
    } else if clips[order.last()].start_time <= clips[p].start_time {
    } else {
        lemma_insert_shape(clips, order.drop_last(), p);
        assert(order =~= order.drop_last().push(order.last()));
    }
}

/// Inserting a position larger than all those listed keeps the list in
/// playing order.
pub proof fn lemma_insert_sorted(clips: Seq<ClipView>, order: Seq<int>, p: int)
    requires
        forall|j: int, k: int|
            0 <= j < k < order.len() ==> plays_before(
                clips,
                #[trigger] order[j],
                #[trigger] order[k],
            ),
        forall|k: int| 0 <= k < order.len() ==> #[trigger] order[k] < p,
    ensures
        forall|j: int, k: int|
            0 <= j < k < insert_by_start(clips, order, p).len() ==> plays_before(
                clips,
                #[trigger] insert_by_start(clips, order, p)[j],
                #[trigger] insert_by_start(clips, order, p)[k],
            ),
    decreases order.len(),
{
    let result = insert_by_start(clips, order, p);
    if order.len() == 0 {
    } else if clips[order.last()].start_time <= clips[p].start_time {
        assert forall|j: int, k: int| 0 <= j < k < result.len() implies plays_before(
            clips,
            #[trigger] result[j],
            #[trigger] result[k],
        ) by {
            if k == order.len() {
                assert(result[j] == order[j]);
                if j < order.len() - 1 {
                    assert(plays_before(clips, order[j], order[order.len() - 1]));
                }
            } else {
                assert(result[j] == order[j] && result[k] == order[k]);
            }
        }
    } else {
        let shorter = order.drop_last();
        let inner = insert_by_start(clips, shorter, p);
        assert forall|j: int, k: int| 0 <= j < k < shorter.len() implies plays_before(
            clips,
            #[trigger] shorter[j],
            #[trigger] shorter[k],
        ) by {
            assert(shorter[j] == order[j] && shorter[k] == order[k]);
        }
        assert forall|k: int| 0 <= k < shorter.len() implies #[trigger] shorter[k] < p by {
            assert(shorter[k] == order[k]);
        }
        lemma_insert_sorted(clips, shorter, p);
        lemma_insert_shape(clips, shorter, p);
        assert forall|j: int, k: int| 0 <= j < k < result.len() implies plays_before(
            clips,
            #[trigger] result[j],
            #[trigger] result[k],
        ) by {
            if k == result.len() - 1 {
                assert(result[j] == inner[j]);
                assert(inner.contains(inner[j]));
                if inner[j] != p {
                    let i = choose|i: int| 0 <= i < shorter.len() && shorter[i] == inner[j];
                    assert(plays_before(clips, order[i], order[order.len() - 1]));
                }
            } else {
                assert(result[j] == inner[j] && result[k] == inner[k]);
            }
        }
    }
}

/// The clips of a track come out in ascending order of start time, those
/// that start together in the order of the request, each clip of the track
/// once and no other clip.
pub proof fn lemma_track_order_is_playing_order(clips: Seq<ClipView>, track: nat, n: nat)
    ensures
        is_playing_order(clips, track, n, track_order(clips, track, n)),
    decreases n,
{
    let order = track_order(clips, track, n);
    if n > 0 {
        let before = track_order(clips, track, (n - 1) as nat);
        lemma_track_order_is_playing_order(clips, track, (n - 1) as nat);
        if clips[n - 1].track == track {
            lemma_insert_shape(clips, before, n - 1);
            lemma_insert_sorted(clips, before, n - 1);
            assert forall|k: int| 0 <= k < order.len() implies 0 <= #[trigger] order[k] < n
                && clips[order[k]].track == track by {
                assert(order.contains(order[k]));
                if order[k] != n - 1 {
                    let i = choose|i: int| 0 <= i < before.len() && before[i] == order[k];
                    assert(0 <= before[i] < n - 1);
                }
            }
            assert forall|p: int| 0 <= p < n && #[trigger] clips[p].track == track implies order.contains(
                p,
            ) by {
                if p < n - 1 {
                    assert(before.contains(p));
                }
            }
        } else {
            assert forall|p: int| 0 <= p < n && #[trigger] clips[p].track == track implies order.contains(
                p,
            ) by {
                assert(before.contains(p));
            }
        }
    }
}

/// `order` lists exactly the positions in `members`, each once, so that
/// every clip plays before those listed after it.
spec fn is_listing(clips: Seq<ClipView>, members: Set<int>, order: Seq<int>) -> bool {
    &&& forall|k: int| 0 <= k < order.len() ==> members.contains(#[trigger] order[k])
    &&& forall|p: int| #[trigger] members.contains(p) ==> order.contains(p)
    &&& forall|j: int, k: int|
        0 <= j < k < order.len() ==> plays_before(clips, #[trigger] order[j], #[trigger] order[k])
}

/// A set of positions has one listing at most.
proof fn lemma_listing_is_unique(
    clips: Seq<ClipView>,
    members: Set<int>,
    first: Seq<int>,
    second: Seq<int>,
)
    requires
        is_listing(clips, members, first),
        is_listing(clips, members, second),
    ensures
        first == second,
    decreases first.len(),
{
    if first.len() == 0 {
        if second.len() > 0 {
            assert(members.contains(second[0]));
            assert(first.contains(second[0]));
        }
        assert(first =~= second);
    } else {
        let last = first.last();
        assert(members.contains(first[first.len() - 1]));
        assert(second.contains(last));
        let other = second.last();
        assert(members.contains(second[second.len() - 1]));
        assert(first.contains(other));
        let at = choose|i: int| 0 <= i < second.len() && second[i] == last;
        let back = choose|i: int| 0 <= i < first.len() && first[i] == other;
        if at < second.len() - 1 {
            assert(plays_before(clips, second[at], second[second.len() - 1]));
            if back < first.len() - 1 {
                assert(plays_before(clips, first[back], first[first.len() - 1]));
            }
        }
        assert(last == other);
        let rest = members.remove(last);
        let shorter = first.drop_last();
        let other_shorter = second.drop_last();
        assert forall|p: int| #[trigger] rest.contains(p) implies shorter.contains(p) by {
            assert(first.contains(p));
            let i = choose|i: int| 0 <= i < first.len() && first[i] == p;
            assert(shorter[i] == p);
        }
        assert forall|p: int| #[trigger] rest.contains(p) implies other_shorter.contains(p) by {
            assert(second.contains(p));
            let i = choose|i: int| 0 <= i < second.len() && second[i] == p;
            assert(other_shorter[i] == p);
        }
        assert forall|k: int| 0 <= k < shorter.len() implies rest.contains(
            #[trigger] shorter[k],
        ) by {
            assert(plays_before(clips, first[k], first[first.len() - 1]));
        }
        assert forall|k: int| 0 <= k < other_shorter.len() implies rest.contains(
            #[trigger] other_shorter[k],
        ) by {
            assert(plays_before(clips, second[k], second[second.len() - 1]));
        }
        assert forall|j: int, k: int| 0 <= j < k < shorter.len() implies plays_before(
            clips,
            #[trigger] shorter[j],
            #[trigger] shorter[k],
        ) by {
            assert(shorter[j] == first[j] && shorter[k] == first[k]);
        }
        assert forall|j: int, k: int| 0 <= j < k < other_shorter.len() implies plays_before(
            clips,
            #[trigger] other_shorter[j],
            #[trigger] other_shorter[k],
        ) by {
            assert(other_shorter[j] == second[j] && other_shorter[k] == second[k]);
        }
        lemma_listing_is_unique(clips, rest, shorter, other_shorter);
        assert(first =~= shorter.push(last));
        assert(second =~= other_shorter.push(other));
    }
}

/// A track has one playing order only: whatever lists the clips of the
/// track in ascending order of start time, clips that start together in
/// the order of the request, is `track_order`.
pub proof fn lemma_playing_order_is_unique(
    clips: Seq<ClipView>,
    track: nat,
    n: nat,
    order: Seq<int>,
)
    requires
        is_playing_order(clips, track, n, order),
    ensures
        order == track_order(clips, track, n),
{
    let members = Set::new(|p: int| 0 <= p < n && clips[p].track == track);
    lemma_track_order_is_playing_order(clips, track, n);
    lemma_listing_is_unique(clips, members, order, track_order(clips, track, n));
}

/// A track with no clip has an empty playing order, and only such a track.
pub proof fn lemma_track_order_empty(clips: Seq<ClipView>, track: nat, n: nat)
    ensures
        track_order(clips, track, n).len() == 0 <==> forall|p: int|
            0 <= p < n ==> (#[trigger] clips[p]).track != track,
    decreases n,
{
    if n > 0 {
        lemma_track_order_empty(clips, track, (n - 1) as nat);
        if clips[n - 1].track == track {
            lemma_insert_shape(clips, track_order(clips, track, (n - 1) as nat), n - 1);
        }
    }
}

/// The views of a list of borrowed clips.
pub open spec fn borrowed_views(clips: Seq<&TimelineClip>) -> Seq<ClipView> {
    Seq::new(clips.len(), |k: int| clips[k]@)
}

/// The clips of `track` in playing order: ascending by start time, clips
/// that start together in the order of the list.
pub fn ordered_track<'a>(clips: &'a Vec<TimelineClip>, track: u32) -> (ordered: Vec<
    &'a TimelineClip,
>)
    ensures
        borrowed_views(ordered@) == track_sequence(clip_views(clips@), track as nat),
{
    let ghost views = clip_views(clips@);
    let ghost mut order: Seq<int> = Seq::empty();
    let mut ordered: Vec<&'a TimelineClip> = Vec::new();
    let mut i: usize = 0;
    while i < clips.len()
        invariant
            i <= clips.len(),
            views == clip_views(clips@),
            order == track_order(views, track as nat, i as nat),
            ordered@.len() == order.len(),
            forall|k: int|
                0 <= k < order.len() ==> 0 <= #[trigger] order[k] < i && ordered@[k]@
                    == views[order[k]],
        decreases clips.len() - i,
    {
        let clip = &clips[i];
        if clip.track == track {
            let mut at: usize = ordered.len();
            while at > 0 && ordered[at - 1].start_time > clip.start_time
                invariant
                    at <= ordered@.len(),
                    ordered@.len() == order.len(),
                    i < clips.len(),
                    views == clip_views(clips@),
                    *clip == clips@[i as int],
                    forall|k: int|
                        0 <= k < order.len() ==> 0 <= #[trigger] order[k] < i && ordered@[k]@
                            == views[order[k]],
                    forall|k: int|
                        at <= k < order.len() ==> views[#[trigger] order[k]].start_time
                            > views[i as int].start_time,
                decreases at,
            {
                at = at - 1;
            }
            proof {
                lemma_insert_at(views, order, i as int, at as int);
                order = order.subrange(0, at as int).push(i as int) + order.subrange(
                    at as int,
                    order.len() as int,
                );
            }
            ordered.insert(at, clip);
        }
        i = i + 1;
    }
    assert(borrowed_views(ordered@) =~= track_sequence(views, track as nat));
    ordered
}

} // verus!
