//! Laws of the mixer: what a read gives back of a write, how a full channel
//! drops, and that an empty channel reads as silence.

use crate::mixer::{drained, round_robin, written, MixerTrackSelector};
use crate::ring::SILENCE;
use vstd::prelude::*;

verus! {

/// How many of the first `n` stream positions `route` sends to channel `ch`.
pub open spec fn count_routed(route: spec_fn(int) -> int, n: nat, ch: int) -> nat
    decreases n,
{
    if n == 0 {
        0
    } else {
        count_routed(route, (n - 1) as nat, ch) + if route(n - 1) == ch {
            1nat
        } else {
            0nat
        }
    }
}

/// The samples of `input` that `route` sends to channel `ch`, in order.
pub open spec fn routed_part(input: Seq<u32>, route: spec_fn(int) -> int, ch: int) -> Seq<u32>
    decreases input.len(),
{
    if input.len() == 0 {
        Seq::<u32>::empty()
    } else {
        let p = routed_part(input.drop_last(), route, ch);
        if route(input.len() - 1) == ch {
            p.push(input.last())
        } else {
            p
        }
    }
}

/// `count` empty channels.
pub open spec fn empty_tracks(count: nat) -> Seq<Seq<u32>> {
    Seq::new(count, |i: int| Seq::<u32>::empty())
}

proof fn lemma_count_monotone(route: spec_fn(int) -> int, i: nat, n: nat, ch: int)
    requires
        i <= n,
    ensures
        count_routed(route, i, ch) <= count_routed(route, n, ch),
    decreases n - i,
{
    if i < n {
        lemma_count_monotone(route, i, (n - 1) as nat, ch);
    }
}

proof fn lemma_part_len(input: Seq<u32>, route: spec_fn(int) -> int, ch: int)
    ensures
        routed_part(input, route, ch).len() == count_routed(route, input.len(), ch),
    decreases input.len(),
{
    if input.len() > 0 {
        lemma_part_len(input.drop_last(), route, ch);
    }
}

proof fn lemma_part_index(input: Seq<u32>, route: spec_fn(int) -> int, i: int)
    requires
        0 <= i < input.len(),
    ensures
        routed_part(input, route, route(i))[count_routed(route, i as nat, route(i)) as int]
            == input[i],
        count_routed(route, i as nat, route(i)) < routed_part(input, route, route(i)).len(),
    decreases input.len(),
{
    let ch = route(i);
    let n = input.len();
    let p = routed_part(input.drop_last(), route, ch);
    lemma_part_len(input.drop_last(), route, ch);
    if i == n - 1 {
        assert(count_routed(route, i as nat, ch) == p.len());
    } else {
        lemma_part_index(input.drop_last(), route, i);
    }
    lemma_part_len(input, route, ch);
}

/// Writing without overflow appends to each channel exactly the samples
/// routed to it.
proof fn lemma_written_parts(tracks: Seq<Seq<u32>>, cap: nat, input: Seq<u32>, route: spec_fn(
    int,
) -> int)
    requires
        forall|j: int| 0 <= j < input.len() ==> 0 <= #[trigger] route(j) < tracks.len(),
        forall|ch: int|
            0 <= ch < tracks.len() ==> #[trigger] tracks[ch].len() + count_routed(
                route,
                input.len(),
                ch,
            ) <= cap,
    ensures
        written(tracks, cap, input, route).0 == Seq::new(
            tracks.len(),
            |ch: int| tracks[ch] + routed_part(input, route, ch),
        ),
        written(tracks, cap, input, route).1 == input.len(),
    decreases input.len(),
{
    let n = input.len();
    if n == 0 {
        assert(written(tracks, cap, input, route).0 =~= Seq::new(
            tracks.len(),
            |ch: int| tracks[ch] + routed_part(input, route, ch),
        ));
    } else {
        let pre = input.drop_last();
        assert forall|ch: int| 0 <= ch < tracks.len() implies #[trigger] tracks[ch].len()
            + count_routed(route, pre.len(), ch) <= cap by {
            lemma_count_monotone(route, pre.len(), n, ch);
        }
        lemma_written_parts(tracks, cap, pre, route);
        let c = route(n - 1);
        lemma_part_len(pre, route, c);
        let prev = written(tracks, cap, pre, route);
        assert(prev.0[c].len() < cap);
        assert(written(tracks, cap, input, route).0 =~= Seq::new(
            tracks.len(),
            |ch: int| tracks[ch] + routed_part(input, route, ch),
        )) by {
            assert forall|ch: int| 0 <= ch < tracks.len() implies written(
                tracks,
                cap,
                input,
                route,
            ).0[ch] =~= tracks[ch] + routed_part(input, route, ch) by {}
        }
    }
}

/// Reading `n` samples takes, from each channel, the oldest samples in turn;
/// a read finding its channel exhausted yields silence.
proof fn lemma_drained_shape(tracks: Seq<Seq<u32>>, n: nat, route: spec_fn(int) -> int)
    requires
        forall|j: int| 0 <= j < n ==> 0 <= #[trigger] route(j) < tracks.len(),
    ensures
        drained(tracks, n, route).0.len() == tracks.len(),
        drained(tracks, n, route).1.len() == n,
        forall|ch: int|
            0 <= ch < tracks.len() ==> #[trigger] drained(tracks, n, route).0[ch] == tracks[ch].skip(
                min_nat(count_routed(route, n, ch), tracks[ch].len()) as int,
            ),
        forall|i: int|
            0 <= i < n ==> #[trigger] drained(tracks, n, route).1[i] == (if count_routed(
                route,
                i as nat,
                route(i),
            ) < tracks[route(i)].len() {
                tracks[route(i)][count_routed(route, i as nat, route(i)) as int]
            } else {
                SILENCE
            }),
    decreases n,
{
    if n == 0 {
        assert forall|ch: int| 0 <= ch < tracks.len() implies #[trigger] drained(
            tracks,
            n,
            route,
        ).0[ch] == tracks[ch].skip(min_nat(count_routed(route, n, ch), tracks[ch].len()) as int) by {
            assert(tracks[ch].skip(0) =~= tracks[ch]);
        }
    } else {
        let m = (n - 1) as nat;
        lemma_drained_shape(tracks, m, route);
        let prev = drained(tracks, m, route);
        let c = route(m as int);
        let k = count_routed(route, m, c);
        let d = drained(tracks, n, route);
        assert forall|ch: int| 0 <= ch < tracks.len() implies #[trigger] d.0[ch] == tracks[ch].skip(
            min_nat(count_routed(route, n, ch), tracks[ch].len()) as int,
        ) by {
            if ch == c {
                if k < tracks[c].len() {
                    assert(d.0[ch] =~= tracks[ch].skip((k + 1) as int));
                } else {
                    assert(d.0[ch] =~= tracks[ch].skip(tracks[ch].len() as int));
                }
            }
        }
        assert forall|i: int| 0 <= i < n implies #[trigger] d.1[i] == (if count_routed(
            route,
            i as nat,
            route(i),
        ) < tracks[route(i)].len() {
            tracks[route(i)][count_routed(route, i as nat, route(i)) as int]
        } else {
            SILENCE
        }) by {
            if i < m {
                assert(d.1[i] == prev.1[i]);
            }
        }
    }
}

/// A read whose every position finds its channel still holding a sample
/// takes a sample at every position.
proof fn lemma_drained_all_taken(tracks: Seq<Seq<u32>>, n: nat, route: spec_fn(int) -> int)
    requires
        forall|j: int| 0 <= j < n ==> 0 <= #[trigger] route(j) < tracks.len(),
        forall|i: int|
            0 <= i < n ==> count_routed(route, i as nat, route(i)) < #[trigger] tracks[route(i)].len(),
    ensures
        drained(tracks, n, route).2 == n,
    decreases n,
{
    if n > 0 {
        let m = (n - 1) as nat;
        lemma_drained_all_taken(tracks, m, route);
        lemma_drained_shape(tracks, m, route);
        let c = route(m as int);
        assert(count_routed(route, m, c) < tracks[c].len());
        assert(drained(tracks, m, route).0[c].len() > 0);
    }
}

/// The smaller of two naturals.
pub open spec fn min_nat(a: nat, b: nat) -> nat {
    if a <= b {
        a
    } else {
        b
    }
}

/// Round trip through empty channels: when no channel overflows, reading back
/// along the same routing returns exactly what was written, takes a sample
/// at every position (none is silence), and leaves the channels empty.
pub proof fn law_round_trip(count: nat, cap: nat, input: Seq<u32>, route: spec_fn(int) -> int)
    requires
        forall|j: int| 0 <= j < input.len() ==> 0 <= #[trigger] route(j) < count,
        forall|ch: int| 0 <= ch < count ==> #[trigger] count_routed(route, input.len(), ch) <= cap,
    ensures
        written(empty_tracks(count), cap, input, route).1 == input.len(),
        drained(written(empty_tracks(count), cap, input, route).0, input.len(), route).1 == input,
        drained(written(empty_tracks(count), cap, input, route).0, input.len(), route).0
            == empty_tracks(count),
        drained(written(empty_tracks(count), cap, input, route).0, input.len(), route).2
            == input.len(),
{
    let tracks = empty_tracks(count);
    assert forall|ch: int| 0 <= ch < tracks.len() implies #[trigger] tracks[ch].len()
        + count_routed(route, input.len(), ch) <= cap by {}
    lemma_written_parts(tracks, cap, input, route);
    let w = written(tracks, cap, input, route).0;
    assert forall|ch: int| 0 <= ch < count implies #[trigger] w[ch] == routed_part(
        input,
        route,
        ch,
    ) by {
        assert(tracks[ch] + routed_part(input, route, ch) =~= routed_part(input, route, ch));
    }
    lemma_drained_shape(w, input.len(), route);
    let d = drained(w, input.len(), route);
    assert forall|i: int| 0 <= i < input.len() implies #[trigger] d.1[i] == input[i] by {
        lemma_part_index(input, route, i);
    }
    assert(d.1 =~= input);
    assert forall|ch: int| 0 <= ch < count implies #[trigger] d.0[ch] == empty_tracks(count)[ch] by {
        lemma_part_len(input, route, ch);
        assert(d.0[ch] =~= Seq::<u32>::empty());
    }
    assert(d.0 =~= empty_tracks(count));
    assert forall|i: int| 0 <= i < input.len() implies count_routed(route, i as nat, route(i))
        < #[trigger] w[route(i)].len() by {
        lemma_part_index(input, route, i);
    }
    lemma_drained_all_taken(w, input.len(), route);
}

proof fn lemma_count_mono(c: int, n: nat, ch: int)
    ensures
        count_routed(MixerTrackSelector::Mono(c as usize).router(), n, ch) == (if ch == c as usize {
            n
        } else {
            0
        }),
    decreases n,
{
    if n > 0 {
        lemma_count_mono(c, (n - 1) as nat, ch);
    }
}

proof fn lemma_count_stereo(l: usize, r: usize, n: nat, ch: int)
    ensures
        count_routed(MixerTrackSelector::Stereo(l, r).router(), n, ch) == (if l == r && ch == l {
            n
        } else if ch == l {
            (n + 1) / 2
        } else if ch == r {
            n / 2
        } else {
            0
        }),
    decreases n,
{
    if n > 0 {
        lemma_count_stereo(l, r, (n - 1) as nat, ch);
    }
}

/// Mono round trip: samples written to one empty channel with room for them
/// all are read back from that channel unchanged and in order.
pub proof fn law_mono_round_trip(count: nat, cap: nat, c: usize, input: Seq<u32>)
    requires
        c < count,
        input.len() <= cap,
    ensures
        ({
            let sel = MixerTrackSelector::Mono(c);
            let w = written(empty_tracks(count), cap, input, sel.router());
            &&& w.1 == input.len()
            &&& drained(w.0, input.len(), sel.router()).1 == input
            &&& drained(w.0, input.len(), sel.router()).2 == input.len()
        }),
{
    let route = MixerTrackSelector::Mono(c).router();
    assert forall|ch: int| 0 <= ch < count implies #[trigger] count_routed(
        route,
        input.len(),
        ch,
    ) <= cap by {
        lemma_count_mono(c as int, input.len(), ch);
    }
    law_round_trip(count, cap, input, route);
}

/// Stereo round trip: samples written alternately to two empty channels
/// (left, right, left, ...) with room for them are read back alternately in
/// the same order, unchanged. (With both sides on one channel, that channel
/// must hold them all.)
pub proof fn law_stereo_round_trip(count: nat, cap: nat, l: usize, r: usize, input: Seq<u32>)
    requires
        l < count,
        r < count,
        l != r ==> (input.len() + 1) / 2 <= cap,
        l == r ==> input.len() <= cap,
    ensures
        ({
            let sel = MixerTrackSelector::Stereo(l, r);
            let w = written(empty_tracks(count), cap, input, sel.router());
            &&& w.1 == input.len()
            &&& drained(w.0, input.len(), sel.router()).1 == input
            &&& drained(w.0, input.len(), sel.router()).2 == input.len()
        }),
{
    let route = MixerTrackSelector::Stereo(l, r).router();
    assert forall|ch: int| 0 <= ch < count implies #[trigger] count_routed(
        route,
        input.len(),
        ch,
    ) <= cap by {
        lemma_count_stereo(l, r, input.len(), ch);
    }
    law_round_trip(count, cap, input, route);
}

/// A stereo stream written to channels 0 and 1 of a two-channel mixer comes
/// back, through the interleaved round-robin device read, as the same
/// interleaved stream, every position read from a channel (none silent).
pub proof fn law_interleaved_round_trip(cap: nat, input: Seq<u32>)
    requires
        (input.len() + 1) / 2 <= cap,
    ensures
        ({
            let w = written(empty_tracks(2), cap, input, MixerTrackSelector::Stereo(0, 1).router());
            &&& w.1 == input.len()
            &&& drained(w.0, input.len(), round_robin(2)).1 == input
            &&& drained(w.0, input.len(), round_robin(2)).2 == input.len()
        }),
{
    let sel = MixerTrackSelector::Stereo(0, 1);
    assert(round_robin(2) =~= sel.router());
    law_stereo_round_trip(2, cap, 0, 1, input);
}

/// A mono stream written to the only channel of a one-channel mixer comes
/// back unchanged through the round-robin device read.
pub proof fn law_single_channel_round_trip(cap: nat, input: Seq<u32>)
    requires
        input.len() <= cap,
    ensures
        ({
            let w = written(empty_tracks(1), cap, input, MixerTrackSelector::Mono(0).router());
            &&& w.1 == input.len()
            &&& drained(w.0, input.len(), round_robin(1)).1 == input
            &&& drained(w.0, input.len(), round_robin(1)).2 == input.len()
        }),
{
    let sel = MixerTrackSelector::Mono(0);
    assert(round_robin(1) =~= sel.router());
    law_mono_round_trip(1, cap, 0, input);
}

/// Overflow: a mono write keeps as many samples as the channel has room
/// for, the first ones, and drops the rest; the other channels are untouched.
pub proof fn law_mono_overflow(tracks: Seq<Seq<u32>>, cap: nat, c: usize, input: Seq<u32>)
    requires
        c < tracks.len(),
        tracks[c as int].len() <= cap,
    ensures
        ({
            let room = (cap - tracks[c as int].len()) as nat;
            let kept = min_nat(input.len(), room);
            let w = written(tracks, cap, input, MixerTrackSelector::Mono(c).router());
            &&& w.0 == tracks.update(c as int, tracks[c as int] + input.take(kept as int))
            &&& w.1 == kept
        }),
    decreases input.len(),
{
    let route = MixerTrackSelector::Mono(c).router();
    let room = (cap - tracks[c as int].len()) as nat;
    if input.len() == 0 {
        assert(tracks.update(c as int, tracks[c as int] + input.take(0)) =~= tracks);
    } else {
        let pre = input.drop_last();
        law_mono_overflow(tracks, cap, c, pre);
        let kp = min_nat(pre.len(), room);
        let prev = written(tracks, cap, pre, route);
        assert(prev.0[c as int] =~= tracks[c as int] + pre.take(kp as int));
        if pre.len() < room {
            assert(tracks[c as int] + input.take(input.len() as int) =~= (tracks[c as int] + pre.take(
                kp as int,
            )).push(input.last()));
            assert(written(tracks, cap, input, route).0 =~= tracks.update(
                c as int,
                tracks[c as int] + input.take(input.len() as int),
            ));
        } else {
            assert(input.take(room as int) =~= pre.take(room as int));
        }
    }
}

/// Reading from empty channels yields silence throughout and takes nothing.
pub proof fn law_empty_reads_silence(count: nat, n: nat, route: spec_fn(int) -> int)
    requires
        forall|j: int| 0 <= j < n ==> 0 <= #[trigger] route(j) < count,
    ensures
        drained(empty_tracks(count), n, route).0 == empty_tracks(count),
        drained(empty_tracks(count), n, route).1 == Seq::new(n, |i: int| SILENCE),
        drained(empty_tracks(count), n, route).2 == 0,
    decreases n,
{
    if n > 0 {
        law_empty_reads_silence(count, (n - 1) as nat, route);
        assert(drained(empty_tracks(count), n, route).1 =~= Seq::new(n, |i: int| SILENCE));
    }
}

} // verus!
