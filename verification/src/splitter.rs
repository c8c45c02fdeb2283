//! Walking interleaved device buffers channel by channel.
//!
//! A device buffer of `c` channels interleaves its samples: for two
//! channels (L, R) it reads `[L, R, L, R, ...]`. The splitter walks such a
//! buffer and tells, for each sample, its channel and whether that channel
//! is selected. The merger does the reverse: it produces an interleaved
//! buffer whose selected channels are fed from a sample FIFO and whose other
//! channels are silent.

use crate::flow::selected_samples;
use crate::mixer::MixerTrackSelector;
use crate::ring::{SampleRing, SILENCE};
use vstd::prelude::*;

verus! {

/// Errors of splitter and merger construction.
#[derive(Debug, Clone, Copy, PartialEq, Eq)]
pub enum SplitterMergerError {
    SelectedChannelsOverChannelCount,
}

impl SplitterMergerError {
    /// A human-readable description of the error.
    pub fn to_string(&self) -> (s: String)
        ensures
            s@ == "more channels selected than there are available on the device"@,
    {
        match self {
            SplitterMergerError::SelectedChannelsOverChannelCount => String::from_str(
                "more channels selected than there are available on the device",
            ),
        }
    }
}

/// `s` with every run of equal neighbours collapsed to one element (what
/// `Vec::dedup` leaves).
pub open spec fn dedup_seq(s: Seq<usize>) -> Seq<usize>
    decreases s.len(),
{
    if s.len() <= 1 {
        s
    } else {
        let d = dedup_seq(s.drop_last());
        if s.last() == s[s.len() - 2] {
            d
        } else {
            d.push(s.last())
        }
    }
}

proof fn lemma_dedup_last(s: Seq<usize>)
    requires
        s.len() >= 1,
    ensures
        dedup_seq(s).len() >= 1,
        dedup_seq(s).last() == s.last(),
        dedup_seq(s).len() <= s.len(),
    decreases s.len(),
{
    if s.len() > 1 {
        lemma_dedup_last(s.drop_last());
    }
}

/// Removes consecutive repeated channel numbers, as `Vec::dedup` does.
pub fn dedup_channels(v: &Vec<usize>) -> (r: Vec<usize>)
    ensures
        r@ == dedup_seq(v@),
{
    let mut r: Vec<usize> = Vec::new();
    let mut i: usize = 0;
    while i < v.len()
        invariant
            i <= v@.len(),
            r@ == dedup_seq(v@.take(i as int)),
        decreases v@.len() - i,
    {
        proof {
            assert(v@.take(i + 1).drop_last() =~= v@.take(i as int));
            if i > 0 {
                lemma_dedup_last(v@.take(i as int));
            }
        }
        if i == 0 || v[i] != v[i - 1] {
            r.push(v[i]);
        }
        i = i + 1;
    }
    proof {
        assert(v@.take(i as int) =~= v@);
    }
    r
}

/// Whether `ch` occurs in `v`.
pub fn contains_channel(v: &Vec<usize>, ch: usize) -> (r: bool)
    ensures
        r == v@.contains(ch),
{
    let mut i: usize = 0;
    while i < v.len()
        invariant
            i <= v@.len(),
            forall|j: int| 0 <= j < i ==> v@[j] != ch,
        decreases v@.len() - i,
    {
        if v[i] == ch {
            assert(v@[i as int] == ch);
            return true;
        }
        i = i + 1;
    }
    false
}

/// One step of a splitter at position `pos` over `data` of `cc` channels
/// with the channels `selected`: the item (sample, its channel
/// `pos % cc`, whether that channel is selected) and the position after;
/// past the end no item, and the position stays.
pub open spec fn split_step<T>(data: Seq<T>, selected: Seq<usize>, cc: nat, pos: nat) -> (
    Option<(T, nat, bool)>,
    nat,
) {
    if pos < data.len() {
        let ch = pos % cc;
        (Some((data[pos as int], ch, selected.contains(ch as usize))), pos + 1)
    } else {
        (None, pos)
    }
}

/// What a splitter item says: the sample, its channel, whether selected.
pub open spec fn split_item<'a, T>(r: Option<SplitChannelSample<'a, T>>) -> Option<(T, nat, bool)> {
    match r {
        Some(s) => Some((*s.sample, s.current_channel as nat, s.on_selected_channel)),
        None => None,
    }
}

/// The first `k` steps of a fresh splitter: its items in order and the
/// position after them.
pub open spec fn split_run<T>(data: Seq<T>, selected: Seq<usize>, cc: nat, k: nat) -> (
    Seq<Option<(T, nat, bool)>>,
    nat,
)
    decreases k,
{
    if k == 0 {
        (Seq::empty(), 0)
    } else {
        let prev = split_run(data, selected, cc, (k - 1) as nat);
        let step = split_step(data, selected, cc, prev.1);
        (prev.0.push(step.0), step.1)
    }
}

/// A splitter yields one item per sample of its buffer, in order, then
/// nothing on every later call: the `i`-th item is the `i`-th sample with
/// its channel `i % cc` and whether that channel is selected.
pub proof fn law_split_items<T>(data: Seq<T>, selected: Seq<usize>, cc: nat, k: nat)
    requires
        cc > 0,
    ensures
        split_run(data, selected, cc, k).0 == Seq::new(
            k,
            |i: int|
                if i < data.len() {
                    Some((data[i], (i % (cc as int)) as nat, selected.contains((i % (cc as int)) as usize)))
                } else {
                    None
                },
        ),
        split_run(data, selected, cc, k).1 == if k <= data.len() {
            k
        } else {
            data.len()
        },
    decreases k,
{
    if k > 0 {
        law_split_items(data, selected, cc, (k - 1) as nat);
        assert(split_run(data, selected, cc, k).0 =~= Seq::new(
            k,
            |i: int|
                if i < data.len() {
                    Some((data[i], (i % (cc as int)) as nat, selected.contains((i % (cc as int)) as usize)))
                } else {
                    None
                },
        ));
    }
}

/// Walks an interleaved buffer, one sample at a time (see `next`).
pub struct ChannelSplitter<'a, T> {
    data: &'a [T],
    selected_channels: Vec<usize>,
    channel_count: u16,
    index: usize,
}

/// One sample of an interleaved buffer, with its channel and whether that
/// channel is selected.
#[derive(Debug)]
pub struct SplitChannelSample<'a, T> {
    pub sample: &'a T,
    pub current_channel: usize,
    pub on_selected_channel: bool,
}

impl<'a, T> ChannelSplitter<'a, T> {
    pub closed spec fn data(&self) -> Seq<T> {
        self.data@
    }

    pub closed spec fn selected(&self) -> Seq<usize> {
        self.selected_channels@
    }

    pub closed spec fn spec_channel_count(&self) -> nat {
        self.channel_count as nat
    }

    /// How many samples have been walked.
    pub closed spec fn position(&self) -> nat {
        self.index as nat
    }

    /// Builds a splitter over `data`. Consecutive repeats are removed from
    /// the selection; more selected channels than the device has is an
    /// error.
    pub fn new(data: &'a [T], selected_channels: Vec<usize>, channel_count: u16) -> (r: Result<
        Self,
        SplitterMergerError,
    >)
        ensures
            dedup_seq(selected_channels@).len() > channel_count ==> r == Err::<
                Self,
                SplitterMergerError,
            >(SplitterMergerError::SelectedChannelsOverChannelCount),
            dedup_seq(selected_channels@).len() <= channel_count ==> (r matches Ok(s) && s.data()
                == data@ && s.selected() == dedup_seq(selected_channels@) && s.spec_channel_count()
                == channel_count && s.position() == 0),
    {
        let selection = dedup_channels(&selected_channels);
        if selection.len() > channel_count as usize {
            Err(SplitterMergerError::SelectedChannelsOverChannelCount)
        } else {
            Ok(ChannelSplitter { data, selected_channels: selection, channel_count, index: 0 })
        }
    }

    /// The next sample with its channel (`position % channel_count`) and
    /// whether that channel is selected; `None` once the buffer is walked.
    pub fn next(&mut self) -> (r: Option<SplitChannelSample<'a, T>>)
        requires
            old(self).spec_channel_count() > 0,
        ensures
            final(self).data() == old(self).data(),
            final(self).selected() == old(self).selected(),
            final(self).spec_channel_count() == old(self).spec_channel_count(),
            (split_item(r), final(self).position()) == split_step(
                old(self).data(),
                old(self).selected(),
                old(self).spec_channel_count(),
                old(self).position(),
            ),
    {
        let current_channel = self.index % (self.channel_count as usize);
        if self.index < self.data.len() {
            let data: &'a [T] = self.data;
            let sample = SplitChannelSample {
                sample: &data[self.index],
                current_channel,
                on_selected_channel: contains_channel(&self.selected_channels, current_channel),
            };
            self.index = self.index + 1;
            Some(sample)
        } else {
            None
        }
    }
}

/// One step of the merger at position `pos` of an output of `len` samples
/// over `cc` channels, drawing from `src`: what it yields, the source
/// after, and the position after. At a selected channel it takes the oldest
/// sample of the source (`None` if the source is empty); at any other
/// channel it yields silence; past the end it yields `None`.
pub open spec fn merge_step(src: Seq<u32>, sel: MixerTrackSelector, cc: nat, pos: nat, len: nat) -> (
    Option<u32>,
    Seq<u32>,
    nat,
) {
    let ch = (pos % cc) as int;
    if pos >= len {
        (None, src, pos)
    } else if !sel.selects(ch) {
        (Some(SILENCE), src, pos + 1)
    } else if src.len() > 0 {
        (Some(src[0]), src.drop_first(), pos + 1)
    } else {
        (None, src, pos + 1)
    }
}

/// What drawing from a merger until it yields nothing gives, from position
/// `pos` of an output of `len` samples over `cc` channels with source `src`:
/// the samples drawn, in order, then the source and the position after the
/// last step (the step that yielded nothing included).
pub open spec fn merge_collected(src: Seq<u32>, sel: MixerTrackSelector, cc: nat, pos: nat, len: nat) -> (
    Seq<u32>,
    Seq<u32>,
    nat,
)
    decreases len - pos,
{
    if pos >= len {
        (Seq::<u32>::empty(), src, pos)
    } else {
        let step = merge_step(src, sel, cc, pos, len);
        match step.0 {
            None => (Seq::<u32>::empty(), step.1, step.2),
            Some(x) => {
                let rest = merge_collected(step.1, sel, cc, pos + 1, len);
                (seq![x] + rest.0, rest.1, rest.2)
            },
        }
    }
}

/// The channels a selector names, as a list.
pub open spec fn sel_channels(sel: MixerTrackSelector) -> Seq<usize> {
    match sel {
        MixerTrackSelector::Mono(c) => seq![c],
        MixerTrackSelector::Stereo(l, r) => seq![l, r],
    }
}

proof fn lemma_sel_channels(sel: MixerTrackSelector, ch: int)
    requires
        0 <= ch <= usize::MAX,
    ensures
        sel_channels(sel).contains(ch as usize) == sel.selects(ch),
{
    match sel {
        MixerTrackSelector::Mono(c) => {
            if c == ch {
                assert(sel_channels(sel)[0] == ch as usize);
            }
        },
        MixerTrackSelector::Stereo(l, r) => {
            if l == ch {
                assert(sel_channels(sel)[0] == ch as usize);
            } else if r == ch {
                assert(sel_channels(sel)[1] == ch as usize);
            }
        },
    }
}

proof fn lemma_selected_prefix(data: Seq<u32>, chans: Seq<usize>, cc: nat, k: int)
    requires
        0 <= k <= data.len(),
    ensures
        selected_samples(data.take(k), chans, cc).len() <= selected_samples(data, chans, cc).len(),
        selected_samples(data, chans, cc).subrange(
            0,
            selected_samples(data.take(k), chans, cc).len() as int,
        ) == selected_samples(data.take(k), chans, cc),
    decreases data.len(),
{
    let q = selected_samples(data, chans, cc);
    if k == data.len() {
        assert(data.take(k) =~= data);
        assert(q.subrange(0, q.len() as int) =~= q);
    } else {
        assert(data.take(k) =~= data.drop_last().take(k));
        lemma_selected_prefix(data.drop_last(), chans, cc, k);
        let p = selected_samples(data.drop_last(), chans, cc);
        let t = selected_samples(data.take(k), chans, cc);
        assert(q.subrange(0, t.len() as int) =~= p.subrange(0, t.len() as int));
    }
}

proof fn lemma_collect_from(data: Seq<u32>, sel: MixerTrackSelector, cc: u16, k: nat)
    requires
        cc > 0,
        k <= data.len(),
    ensures
        ({
            let chans = sel_channels(sel);
            let q = selected_samples(data, chans, cc as nat);
            let t = selected_samples(data.take(k as int), chans, cc as nat);
            merge_collected(q.skip(t.len() as int), sel, cc as nat, k, data.len()) == (
                Seq::new(
                    (data.len() - k) as nat,
                    |j: int|
                        if sel.selects((k + j) % (cc as int)) {
                            data[k + j]
                        } else {
                            SILENCE
                        },
                ),
                Seq::<u32>::empty(),
                data.len(),
            )
        }),
    decreases data.len() - k,
{
    let chans = sel_channels(sel);
    let c = cc as nat;
    let n = data.len();
    let q = selected_samples(data, chans, c);
    let t = selected_samples(data.take(k as int), chans, c);
    let src = q.skip(t.len() as int);
    lemma_selected_prefix(data, chans, c, k as int);
    if k == n {
        assert(data.take(k as int) =~= data);
        assert(src =~= Seq::<u32>::empty());
        assert(Seq::new(
            0,
            |j: int|
                if sel.selects((k + j) % (cc as int)) {
                    data[k + j]
                } else {
                    SILENCE
                },
        ) =~= Seq::<u32>::empty());
    } else {
        let k1 = (k + 1) as nat;
        lemma_collect_from(data, sel, cc, k1);
        let t1 = selected_samples(data.take(k1 as int), chans, c);
        let ch = (k % c) as int;
        assert(data.take(k1 as int).drop_last() =~= data.take(k as int));
        assert(data.take(k1 as int).last() == data[k as int]);
        assert(((data.take(k1 as int).len() - 1) % (c as int)) == ch);
        lemma_sel_channels(sel, ch);
        lemma_selected_prefix(data, chans, c, k1 as int);
        let x = if sel.selects(ch) {
            data[k as int]
        } else {
            SILENCE
        };
        if sel.selects(ch) {
            assert(t1 == t.push(data[k as int]));
            assert(q[t.len() as int] == t1[t.len() as int]);
            assert(src[0] == data[k as int]);
            assert(src.drop_first() =~= q.skip(t1.len() as int));
        } else {
            assert(t1 == t);
        }
        let rest = merge_collected(q.skip(t1.len() as int), sel, c, k1, n);
        assert(seq![x] + rest.0 =~= Seq::new(
            (n - k) as nat,
            |j: int|
                if sel.selects((k + j) % (cc as int)) {
                    data[k + j]
                } else {
                    SILENCE
                },
        ));
    }
}

/// Merging what the splitter kept restores the stream: walk `data`, an
/// interleaved buffer of `cc` channels, keep the samples on the channels
/// `sel` names (as `ChannelSplitter` marks them), and draw from a fresh
/// merger of `data.len()` samples with the same selector until it yields
/// nothing (`ChannelMerger::collect`). It yields every sample of `data` on a
/// selected channel and silence on every other channel, and leaves the
/// source empty.
pub proof fn law_merge_restores_split(data: Seq<u32>, sel: MixerTrackSelector, cc: u16)
    requires
        cc > 0,
    ensures
        merge_collected(selected_samples(data, sel_channels(sel), cc as nat), sel, cc as nat, 0, data.len())
            == (
            Seq::new(
                data.len(),
                |i: int|
                    if sel.selects(i % (cc as int)) {
                        data[i]
                    } else {
                        SILENCE
                    },
            ),
            Seq::<u32>::empty(),
            data.len(),
        ),
{
    let q = selected_samples(data, sel_channels(sel), cc as nat);
    lemma_collect_from(data, sel, cc, 0);
    assert(data.take(0) =~= Seq::<u32>::empty());
    assert(q.skip(0) =~= q);
    assert(Seq::new(
        data.len(),
        |j: int|
            if sel.selects((0 + j) % (cc as int)) {
                data[0 + j]
            } else {
                SILENCE
            },
    ) =~= Seq::new(
        data.len(),
        |i: int|
            if sel.selects(i % (cc as int)) {
                data[i]
            } else {
                SILENCE
            },
    ));
}

/// Produces an interleaved buffer of `output_length` samples (see `next`):
/// the reverse of `ChannelSplitter`.
pub struct ChannelMerger<'a> {
    data: &'a mut SampleRing,
    selected_channels: MixerTrackSelector,
    channel_count: u16,
    index: usize,
    output_length: usize,
}

impl<'a> ChannelMerger<'a> {
    pub closed spec fn source(&self) -> Seq<u32> {
        self.data@
    }

    pub closed spec fn selected(&self) -> MixerTrackSelector {
        self.selected_channels
    }

    /// The borrowed source buffer.
    pub closed spec fn source_ref(&self) -> &'a mut SampleRing {
        self.data
    }

    pub closed spec fn spec_channel_count(&self) -> nat {
        self.channel_count as nat
    }

    pub closed spec fn position(&self) -> nat {
        self.index as nat
    }

    pub closed spec fn output_length(&self) -> nat {
        self.output_length as nat
    }

    /// Builds a merger that draws the selected channels from `data`.
    /// Selecting more channels than the device has is an error.
    pub fn new(
        data: &'a mut SampleRing,
        selected_channels: MixerTrackSelector,
        channel_count: u16,
        output_length: usize,
    ) -> (r: Result<Self, SplitterMergerError>)
        ensures
            selected_channels.selected_count() > channel_count ==> r is Err,
            selected_channels.selected_count() <= channel_count ==> (r matches Ok(m) && m.source()
                == old(data)@ && m.selected() == selected_channels && m.spec_channel_count()
                == channel_count && m.position() == 0 && m.output_length() == output_length),
            r matches Ok(m) ==> *final(data) == *final(m.source_ref()),
            r is Err ==> *final(data) == *old(data),
    {
        if selected_channels.channel_count() > channel_count as usize {
            Err(SplitterMergerError::SelectedChannelsOverChannelCount)
        } else {
            Ok(ChannelMerger {
                data,
                selected_channels,
                channel_count,
                output_length,
                index: 0,
            })
        }
    }
    /// The next interleaved sample, at channel `position % channel_count`:
    /// for a selected channel the oldest sample taken from the source (`None`
    /// if the source is empty), for any other channel silence; `None` once
    /// `output_length` samples have been produced.
    pub fn next(&mut self) -> (r: Option<u32>)
        requires
            old(self).spec_channel_count() > 0,
        ensures
            final(self).selected() == old(self).selected(),
            final(self).spec_channel_count() == old(self).spec_channel_count(),
            final(self).output_length() == old(self).output_length(),
            *final(final(self).source_ref()) == *final(old(self).source_ref()),
            (r, final(self).source(), final(self).position()) == merge_step(
                old(self).source(),
                old(self).selected(),
                old(self).spec_channel_count(),
                old(self).position(),
                old(self).output_length(),
            ),
    {
        let current_channel = self.index % (self.channel_count as usize);
        if self.index < self.output_length {
            self.index = self.index + 1;
            if self.selected_channels.contains(current_channel) {
                SampleRing::rb_try_pop(&mut *self.data)
            } else {
                Some(SILENCE)
            }
        } else {
            None
        }
    }

    /// Draws samples until the merger yields nothing, in order, as
    /// collecting the merger into a vector does.
    pub fn collect(&mut self) -> (v: Vec<u32>)
        requires
            old(self).spec_channel_count() > 0,
        ensures
            final(self).selected() == old(self).selected(),
            final(self).spec_channel_count() == old(self).spec_channel_count(),
            final(self).output_length() == old(self).output_length(),
            *final(final(self).source_ref()) == *final(old(self).source_ref()),
            (v@, final(self).source(), final(self).position()) == merge_collected(
                old(self).source(),
                old(self).selected(),
                old(self).spec_channel_count(),
                old(self).position(),
                old(self).output_length(),
            ),
    {
        let ghost sel = self.selected();
        let ghost cc = self.spec_channel_count();
        let ghost len = self.output_length();
        let ghost all = merge_collected(self.source(), sel, cc, self.position(), len);
        let mut v: Vec<u32> = Vec::new();
        loop
            invariant_except_break
                self.selected() == sel,
                self.spec_channel_count() == cc,
                self.output_length() == len,
                cc > 0,
                *final(self.source_ref()) == *final(old(self).source_ref()),
                ({
                    let rest = merge_collected(self.source(), sel, cc, self.position(), len);
                    (v@ + rest.0, rest.1, rest.2) == all
                }),
            ensures
                self.selected() == sel,
                self.spec_channel_count() == cc,
                self.output_length() == len,
                *final(self.source_ref()) == *final(old(self).source_ref()),
                (v@, self.source(), self.position()) == all,
            decreases self.output_length() - self.position(),
        {
            let r = self.next();
            match r {
                Some(x) => {
                    proof {
                        let rest = merge_collected(self.source(), sel, cc, self.position(), len);
                        assert(v@.push(x) + rest.0 =~= v@ + (seq![x] + rest.0));
                    }
                    v.push(x);
                },
                None => {
                    proof {
                        assert(v@ + Seq::<u32>::empty() =~= v@);
                    }
                    break ;
                },
            }
        }
        v
    }
}

} // verus!
