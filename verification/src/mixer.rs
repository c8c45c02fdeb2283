//! The channel mixer: one bounded FIFO of samples per output channel.
//!
//! Writers route a stream of samples onto one channel (mono) or alternately
//! onto two channels (stereo); readers drain the channels either through a
//! selector or round-robin over all channels (interleaved device buffers).
//! A write into a full channel drops the sample; a read from an empty
//! channel yields silence.

use crate::ring::{SampleRing, SILENCE};
use crate::text::{
    lemma_number_has_no_comma, lemma_split_append, parse_usize, parse_usize_spec, split_bytes, split_on,
};
use vstd::prelude::*;
use vstd::utf8::encode_utf8;

verus! {

/// Selects one channel (mono) or a pair of channels (stereo, left then right).
#[derive(Debug, Clone, Copy, PartialEq, Eq)]
pub enum MixerTrackSelector {
    Mono(usize),
    Stereo(usize, usize),
}

/// The selector written as text: one channel number (mono), two separated by
/// a comma (stereo, left then right), or, with any other number of commas,
/// the default pair of channels 0 and 1. `None` where a channel number is
/// not a valid `usize`.
pub open spec fn selector_from_text(b: Seq<u8>) -> Option<MixerTrackSelector> {
    let parts = split_on(b, 44);
    if parts.len() == 1 {
        match parse_usize_spec(parts[0]) {
            Some(v) => Some(MixerTrackSelector::Mono(v as usize)),
            None => None,
        }
    } else if parts.len() == 2 {
        match (parse_usize_spec(parts[0]), parse_usize_spec(parts[1])) {
            (Some(l), Some(r)) => Some(MixerTrackSelector::Stereo(l as usize, r as usize)),
            _ => None,
        }
    } else {
        Some(MixerTrackSelector::Stereo(0, 1))
    }
}

/// One channel number alone selects that channel (mono).
pub proof fn law_mono_text(x: Seq<u8>, c: nat)
    requires
        parse_usize_spec(x) == Some(c),
    ensures
        selector_from_text(x) == Some(MixerTrackSelector::Mono(c as usize)),
{
    lemma_number_has_no_comma(x);
    lemma_split_append(Seq::<u8>::empty(), x, 44);
    assert(Seq::<u8>::empty() + x =~= x);
    assert(split_on(Seq::<u8>::empty(), 44) =~= seq![Seq::<u8>::empty()]);
    assert(Seq::<u8>::empty() + x =~= x);
    assert(split_on(x, 44) =~= seq![x]);
}

/// Two channel numbers joined by a comma select them as a stereo pair in the
/// order written: the first is the left channel, the second the right.
pub proof fn law_stereo_text(x: Seq<u8>, y: Seq<u8>, l: nat, r: nat)
    requires
        parse_usize_spec(x) == Some(l),
        parse_usize_spec(y) == Some(r),
    ensures
        selector_from_text(x + seq![44u8] + y) == Some(
            MixerTrackSelector::Stereo(l as usize, r as usize),
        ),
{
    lemma_number_has_no_comma(x);
    lemma_number_has_no_comma(y);
    let e = Seq::<u8>::empty();
    lemma_split_append(e, x, 44);
    assert(e + x =~= x);
    assert(split_on(e, 44) =~= seq![e]);
    assert(split_on(x, 44) =~= seq![x]);
    let xc = x + seq![44u8];
    assert(xc.drop_last() =~= x);
    assert(split_on(xc, 44) =~= seq![x, e]);
    lemma_split_append(xc, y, 44);
    assert(e + y =~= y);
    assert(split_on(x + seq![44u8] + y, 44) =~= seq![x, y]);
}

impl MixerTrackSelector {
    /// How many channels the selector names.
    pub open spec fn selected_count(self) -> nat {
        match self {
            MixerTrackSelector::Mono(_) => 1,
            MixerTrackSelector::Stereo(_, _) => 2,
        }
    }

    /// Whether the selector names channel `ch`.
    pub open spec fn selects(self, ch: int) -> bool {
        match self {
            MixerTrackSelector::Mono(c) => c == ch,
            MixerTrackSelector::Stereo(l, r) => l == ch || r == ch,
        }
    }

    /// Whether every channel the selector names exists among `channel_count`
    /// channels.
    pub open spec fn fits(self, channel_count: nat) -> bool {
        match self {
            MixerTrackSelector::Mono(c) => c < channel_count,
            MixerTrackSelector::Stereo(l, r) => l < channel_count && r < channel_count,
        }
    }

    /// The channel that the `i`-th sample of a stream goes to (or comes
    /// from): always the mono channel, or left for even and right for odd
    /// positions.
    pub open spec fn target(self, i: int) -> int {
        match self {
            MixerTrackSelector::Mono(c) => c as int,
            MixerTrackSelector::Stereo(l, r) => if i % 2 == 0 {
                l as int
            } else {
                r as int
            },
        }
    }

    /// `target` as a routing function.
    pub open spec fn router(self) -> spec_fn(int) -> int {
        |i: int| self.target(i)
    }

    /// The selector that `text` writes (see `selector_from_text`), or `None`
    /// where a channel number in it is not a valid `usize`.
    fn parse_text(text: &str) -> (r: Option<MixerTrackSelector>)
        ensures
            r == selector_from_text(encode_utf8(text@)),
    {
        let bytes = text.as_bytes();
        let parts = split_bytes(bytes, 44);
        if parts.len() == 1 {
            match parse_usize(parts[0].as_slice()) {
                Some(v) => Some(MixerTrackSelector::Mono(v)),
                None => None,
            }
        } else if parts.len() == 2 {
            let l = parse_usize(parts[0].as_slice());
            let r = parse_usize(parts[1].as_slice());
            match (l, r) {
                (Some(l), Some(r)) => Some(MixerTrackSelector::Stereo(l, r)),
                _ => None,
            }
        } else {
            Some(MixerTrackSelector::Stereo(0, 1))
        }
    }

    /// Whether `text` writes a selector: whether every channel number in it
    /// is a valid `usize` (see `selector_from_text`).
    pub fn is_selector_text(text: &str) -> (b: bool)
        ensures
            b == selector_from_text(encode_utf8(text@)) is Some,
    {
        Self::parse_text(text).is_some()
    }

    /// Reads a selector from text (see `selector_from_text`): `"3"` is
    /// `Mono(3)`, `"0,1"` is `Stereo(0, 1)`, and any other number of commas
    /// selects channels 0 and 1. Every channel number must be a valid
    /// `usize` (test with `is_selector_text`).
    pub fn from_string(value: String) -> (r: MixerTrackSelector)
        requires
            selector_from_text(encode_utf8(value@)) is Some,
        ensures
            selector_from_text(encode_utf8(value@)) == Some(r),
    {
        match Self::parse_text(value.as_str()) {
            Some(s) => s,
            None => {
                proof {
                    assert(false);
                }
                MixerTrackSelector::Mono(0)
            },
        }
    }

    /// The number of channels selected: 1 for mono, 2 for stereo.
    pub fn channel_count(&self) -> (r: usize)
        ensures
            r == self.selected_count(),
    {
        match self {
            MixerTrackSelector::Mono(_) => 1,
            MixerTrackSelector::Stereo(_, _) => 2,
        }
    }

    /// Whether channel `ch` is selected.
    pub fn contains(&self, ch: usize) -> (r: bool)
        ensures
            r == self.selects(ch as int),
    {
        match self {
            MixerTrackSelector::Mono(c) => *c == ch,
            MixerTrackSelector::Stereo(l, r) => *l == ch || *r == ch,
        }
    }
}

/// Errors of channel lookup.
#[derive(Debug, Clone, Copy, PartialEq, Eq)]
pub enum MixerError {
    InputChannelNotFound,
    OutputChannelNotFound,
}

/// The channel(s) a selector resolved to.
#[derive(Debug, Clone, Copy, PartialEq, Eq)]
pub enum MixerTrack<T> {
    Mono(T),
    Stereo(T, T),
}

/// Round-robin routing over `channel_count` channels: the `i`-th sample of an
/// interleaved buffer belongs to channel `i % channel_count`.
pub open spec fn round_robin(channel_count: nat) -> spec_fn(int) -> int {
    |i: int| i % (channel_count as int)
}

/// The routing of a read: through a selector, or round-robin over all
/// channels when there is none.
pub open spec fn read_route(sel: Option<MixerTrackSelector>, channel_count: nat) -> spec_fn(int) -> int {
    match sel {
        Some(s) => s.router(),
        None => round_robin(channel_count),
    }
}

/// The channels after writing `input` sample by sample, the `i`-th sample to
/// channel `route(i)`, each channel holding at most `cap` samples; and how
/// many samples were accepted. A sample meeting a full channel is dropped.
pub open spec fn written(
    tracks: Seq<Seq<u32>>,
    cap: nat,
    input: Seq<u32>,
    route: spec_fn(int) -> int,
) -> (Seq<Seq<u32>>, nat)
    decreases input.len(),
{
    if input.len() == 0 {
        (tracks, 0)
    } else {
        let prev = written(tracks, cap, input.drop_last(), route);
        let ch = route(input.len() - 1);
        if prev.0[ch].len() < cap {
            (prev.0.update(ch, prev.0[ch].push(input.last())), prev.1 + 1)
        } else {
            prev
        }
    }
}

/// The channels after reading `n` samples, the `i`-th from channel
/// `route(i)`; the samples read, silence where a channel was empty; and how
/// many samples were taken from a channel.
pub open spec fn drained(tracks: Seq<Seq<u32>>, n: nat, route: spec_fn(int) -> int) -> (
    Seq<Seq<u32>>,
    Seq<u32>,
    nat,
)
    decreases n,
{
    if n == 0 {
        (tracks, Seq::<u32>::empty(), 0)
    } else {
        let prev = drained(tracks, (n - 1) as nat, route);
        let ch = route(n - 1);
        if prev.0[ch].len() > 0 {
            (prev.0.update(ch, prev.0[ch].drop_first()), prev.1.push(prev.0[ch][0]), prev.2 + 1)
        } else {
            (prev.0, prev.1.push(SILENCE), prev.2)
        }
    }
}

/// The mixer: `channel_count` channels, each a FIFO of at most `buffer_size`
/// samples, tagged with the sample rate of the stream it carries.
pub struct Mixer {
    tracks: Vec<SampleRing>,
    channel_count: usize,
    buffer_size: usize,
    sample_rate: usize,
}

impl View for Mixer {
    type V = Seq<Seq<u32>>;

    /// The samples held by each channel, oldest first.
    closed spec fn view(&self) -> Seq<Seq<u32>> {
        self.tracks@.map_values(|r: SampleRing| r@)
    }
}

impl Mixer {
    pub closed spec fn spec_channel_count(&self) -> nat {
        self.channel_count as nat
    }

    pub closed spec fn spec_buffer_size(&self) -> nat {
        self.buffer_size as nat
    }

    pub closed spec fn spec_sample_rate(&self) -> nat {
        self.sample_rate as nat
    }

    /// Well-formedness: one channel per channel index, every channel of
    /// capacity `buffer_size` and within it.
    pub closed spec fn wf(&self) -> bool {
        &&& self.tracks@.len() == self.channel_count
        &&& forall|i: int|
            0 <= i < self.tracks@.len() ==> {
                &&& (#[trigger] self.tracks@[i]).cap() == self.buffer_size
                &&& self.tracks@[i]@.len() <= self.buffer_size
            }
    }

    /// Every channel within the capacity (a consequence of `wf`).
    pub proof fn lemma_bounded(&self)
        requires
            self.wf(),
        ensures
            self@.len() == self.spec_channel_count(),
            forall|i: int| 0 <= i < self@.len() ==> #[trigger] self@[i].len() <= self.spec_buffer_size(),
    {
    }

    /// The number of channels.
    pub fn channel_count(&self) -> (r: usize)
        ensures
            r == self.spec_channel_count(),
    {
        self.channel_count
    }

    /// The capacity of each channel.
    pub fn buffer_size(&self) -> (r: usize)
        ensures
            r == self.spec_buffer_size(),
    {
        self.buffer_size
    }

    /// The sample rate of the stream the mixer carries.
    pub fn sample_rate(&self) -> (r: usize)
        ensures
            r == self.spec_sample_rate(),
    {
        self.sample_rate
    }

    /// Resolves a channel index: `Ok(channel)` if the mixer has it, else
    /// `InputChannelNotFound`.
    pub fn get_raw_channel(&self, channel: usize) -> (r: Result<usize, MixerError>)
        ensures
            channel < self.spec_channel_count() ==> r == Ok::<usize, MixerError>(channel),
            channel >= self.spec_channel_count() ==> r == Err::<usize, MixerError>(
                MixerError::InputChannelNotFound,
            ),
    {
        if channel < self.channel_count {
            Ok(channel)
        } else {
            Err(MixerError::InputChannelNotFound)
        }
    }

    /// Resolves a selector: the selected channels if the mixer has all of
    /// them, else `InputChannelNotFound`.
    pub fn get_channel(&self, selector: MixerTrackSelector) -> (r: Result<
        MixerTrack<usize>,
        MixerError,
    >)
        ensures
            selector.fits(self.spec_channel_count()) ==> r == Ok::<MixerTrack<usize>, MixerError>(
                match selector {
                    MixerTrackSelector::Mono(c) => MixerTrack::Mono(c),
                    MixerTrackSelector::Stereo(l, r) => MixerTrack::Stereo(l, r),
                },
            ),
            !selector.fits(self.spec_channel_count()) ==> r == Err::<MixerTrack<usize>, MixerError>(
                MixerError::InputChannelNotFound,
            ),
    {
        match selector {
            MixerTrackSelector::Stereo(l, r) => {
                let left = self.get_raw_channel(l)?;
                let right = self.get_raw_channel(r)?;
                Ok(MixerTrack::Stereo(left, right))
            },
            MixerTrackSelector::Mono(c) => Ok(MixerTrack::Mono(self.get_raw_channel(c)?)),
        }
    }

    /// Builds a mixer of `chcount` empty channels of `bufsize_per_channel`
    /// samples each. A channel of zero capacity cannot be built.
    fn build(chcount: usize, bufsize_per_channel: usize, sample_rate: usize) -> (m: Mixer)
        requires
            chcount > 0 ==> bufsize_per_channel > 0,
        ensures
            m.wf(),
            m@ == Seq::new(chcount as nat, |i: int| Seq::<u32>::empty()),
            m.spec_channel_count() == chcount,
            m.spec_buffer_size() == bufsize_per_channel,
            m.spec_sample_rate() == sample_rate,
    {
        let mut tracks: Vec<SampleRing> = Vec::new();
        let mut k: usize = 0;
        while k < chcount
            invariant
                k <= chcount,
                chcount > 0 ==> bufsize_per_channel > 0,
                tracks@.len() == k,
                forall|i: int|
                    0 <= i < k ==> (#[trigger] tracks@[i]).cap() == bufsize_per_channel
                        && tracks@[i]@ == Seq::<u32>::empty(),
            decreases chcount - k,
        {
            tracks.push(SampleRing::new(bufsize_per_channel));
            k = k + 1;
        }
        let m = Mixer {
            tracks,
            channel_count: chcount,
            buffer_size: bufsize_per_channel,
            sample_rate,
        };
        assert(m@ =~= Seq::new(chcount as nat, |i: int| Seq::<u32>::empty()));
        m
    }

    /// Writes `input` along `sel`, which the mixer must fit: each sample is
    /// pushed onto channel `sel.target(i)`, or dropped when that channel is
    /// full. Returns (accepted, dropped).
    fn push_routed(&mut self, input: &[u32], sel: MixerTrackSelector) -> (r: (usize, usize))
        requires
            old(self).wf(),
            sel.fits(old(self).spec_channel_count()),
        ensures
            final(self).wf(),
            final(self).spec_channel_count() == old(self).spec_channel_count(),
            final(self).spec_buffer_size() == old(self).spec_buffer_size(),
            final(self).spec_sample_rate() == old(self).spec_sample_rate(),
            ({
                let w = written(old(self)@, old(self).spec_buffer_size(), input@, sel.router());
                final(self)@ == w.0 && r.0 == w.1 && r.0 + r.1 == input@.len()
            }),
    {
        let ghost old_view = self@;
        let ghost cap = self.buffer_size as nat;
        let ghost route = sel.router();
        let mut consumed: usize = 0;
        let mut dropped: usize = 0;
        let mut i: usize = 0;
        let mut ch: usize = 0;
        while i < input.len()
            invariant
                self.wf(),
                self.channel_count == old(self).channel_count,
                self.buffer_size == old(self).buffer_size,
                self.sample_rate == old(self).sample_rate,
                cap == self.buffer_size,
                route == sel.router(),
                sel.fits(self.channel_count as nat),
                i <= input@.len(),
                ch == i % 2,
                self@ == written(old_view, cap, input@.take(i as int), route).0,
                consumed == written(old_view, cap, input@.take(i as int), route).1,
                consumed + dropped == i,
            decreases input@.len() - i,
        {
            let c = match sel {
                MixerTrackSelector::Mono(c) => c,
                MixerTrackSelector::Stereo(l, r) => if ch == 0 {
                    l
                } else {
                    r
                },
            };
            let ghost prev = self@;
            proof {
                assert(input@.take(i + 1).drop_last() =~= input@.take(i as int));
                assert(route(i as int) == c);
            }
            let pushed = SampleRing::rb_try_push(&mut self.tracks[c], input[i]);
            proof {
                assert(self@ =~= prev.update(c as int, self.tracks@[c as int]@));
            }
            if pushed.is_ok() {
                consumed = consumed + 1;
            } else {
                dropped = dropped + 1;
            }
            i = i + 1;
            ch = (ch + 1) % 2;
        }
        proof {
            assert(input@.take(i as int) =~= input@);
        }
        (consumed, dropped)
    }

    /// Pushes one sample onto channel `ch`, dropping it if the channel is full.
    fn push_one(&mut self, ch: usize, x: u32) -> (accepted: bool)
        requires
            old(self).wf(),
            ch < old(self).spec_channel_count(),
        ensures
            final(self).wf(),
            final(self).spec_channel_count() == old(self).spec_channel_count(),
            final(self).spec_buffer_size() == old(self).spec_buffer_size(),
            final(self).spec_sample_rate() == old(self).spec_sample_rate(),
            accepted == (old(self)@[ch as int].len() < old(self).spec_buffer_size()),
            accepted ==> final(self)@ == old(self)@.update(ch as int, old(self)@[ch as int].push(x)),
            !accepted ==> final(self)@ == old(self)@,
    {
        let ghost prev = self@;
        let pushed = SampleRing::rb_try_push(&mut self.tracks[ch], x);
        proof {
            assert(self@ =~= prev.update(ch as int, self.tracks@[ch as int]@));
            if pushed.is_err() {
                assert(self@ =~= prev);
            }
        }
        pushed.is_ok()
    }

    /// Fills `output` sample by sample, the `i`-th sample popped from channel
    /// `read_route(sel, channel_count)(i)`, or silence when that channel is
    /// empty. Returns how many samples were popped.
    fn pop_routed(&mut self, output: &mut [u32], sel: Option<MixerTrackSelector>) -> (r: usize)
        requires
            old(self).wf(),
            match sel {
                Some(s) => s.fits(old(self).spec_channel_count()),
                None => old(output)@.len() > 0 ==> old(self).spec_channel_count() > 0,
            },
        ensures
            final(self).wf(),
            final(self).spec_channel_count() == old(self).spec_channel_count(),
            final(self).spec_buffer_size() == old(self).spec_buffer_size(),
            final(self).spec_sample_rate() == old(self).spec_sample_rate(),
            ({
                let d = drained(
                    old(self)@,
                    old(output)@.len(),
                    read_route(sel, old(self).spec_channel_count()),
                );
                final(self)@ == d.0 && final(output)@ == d.1 && r == d.2
            }),
            r <= old(output)@.len(),
            final(output)@.len() == old(output)@.len(),
    {
        let ghost old_view = self@;
        let ghost old_out = output@;
        let ghost route = read_route(sel, self.channel_count as nat);
        let mut consumed: usize = 0;
        let mut i: usize = 0;
        while i < output.len()
            invariant
                self.wf(),
                self.channel_count == old(self).channel_count,
                self.buffer_size == old(self).buffer_size,
                self.sample_rate == old(self).sample_rate,
                route == read_route(sel, self.channel_count as nat),
                match sel {
                    Some(s) => s.fits(self.channel_count as nat),
                    None => output@.len() > 0 ==> self.channel_count > 0,
                },
                output@.len() == old_out.len(),
                i <= output@.len(),
                self@ == drained(old_view, i as nat, route).0,
                output@.take(i as int) == drained(old_view, i as nat, route).1,
                consumed == drained(old_view, i as nat, route).2,
                consumed <= i,
            decreases output@.len() - i,
        {
            let c = match sel {
                Some(MixerTrackSelector::Mono(c)) => c,
                Some(MixerTrackSelector::Stereo(l, r)) => if i % 2 == 0 {
                    l
                } else {
                    r
                },
                None => i % self.channel_count,
            };
            let ghost prev = self@;
            let ghost prev_out = output@;
            proof {
                assert(route(i as int) == c);
            }
            let popped = SampleRing::rb_try_pop(&mut self.tracks[c]);
            proof {
                assert(self@ =~= prev.update(c as int, self.tracks@[c as int]@));
            }
            match popped {
                Some(v) => {
                    output[i] = v;
                    consumed = consumed + 1;
                },
                None => {
                    output[i] = SILENCE;
                },
            }
            proof {
                assert(output@.take(i + 1) =~= prev_out.take(i as int).push(output@[i as int]));
            }
            i = i + 1;
        }
        proof {
            assert(output@.take(i as int) =~= output@);
        }
        consumed
    }
}

/// Builds a mixer of `chcount` empty channels holding `bufsize_per_channel`
/// samples each. A channel of zero capacity cannot be built.
pub fn custom_mixer(chcount: usize, bufsize_per_channel: usize, sample_rate: usize) -> (m: Mixer)
    requires
        chcount > 0 ==> bufsize_per_channel > 0,
    ensures
        m.wf(),
        m@ == Seq::new(chcount as nat, |i: int| Seq::<u32>::empty()),
        m.spec_channel_count() == chcount,
        m.spec_buffer_size() == bufsize_per_channel,
        m.spec_sample_rate() == sample_rate,
{
    Mixer::build(chcount, bufsize_per_channel, sample_rate)
}

/// The mixer of the receiving side: network writers, device reader.
pub fn default_server_mixer(chcount: usize, bufsize_per_channel: usize, sample_rate: usize) -> (m:
    Mixer)
    requires
        chcount > 0 ==> bufsize_per_channel > 0,
    ensures
        m.wf(),
        m@ == Seq::new(chcount as nat, |i: int| Seq::<u32>::empty()),
        m.spec_channel_count() == chcount,
        m.spec_buffer_size() == bufsize_per_channel,
        m.spec_sample_rate() == sample_rate,
{
    custom_mixer(chcount, bufsize_per_channel, sample_rate)
}

/// The mixer of the sending side: device writer, network reader.
pub fn default_client_mixer(chcount: usize, bufsize_per_channel: usize, sample_rate: usize) -> (m:
    Mixer)
    requires
        chcount > 0 ==> bufsize_per_channel > 0,
    ensures
        m.wf(),
        m@ == Seq::new(chcount as nat, |i: int| Seq::<u32>::empty()),
        m.spec_channel_count() == chcount,
        m.spec_buffer_size() == bufsize_per_channel,
        m.spec_sample_rate() == sample_rate,
{
    custom_mixer(chcount, bufsize_per_channel, sample_rate)
}

/// Writes `input_buffer` into the selected channel(s): all samples onto the
/// mono channel, or alternately left and right. A sample meeting a full
/// channel is dropped. If the mixer lacks a selected channel nothing is
/// written. Returns (accepted, dropped).
pub fn write_to_mixer_sync(mixer: &mut Mixer, input_buffer: &[u32], sel: MixerTrackSelector) -> (r: (
    usize,
    usize,
))
    requires
        old(mixer).wf(),
    ensures
        final(mixer).wf(),
        final(mixer).spec_channel_count() == old(mixer).spec_channel_count(),
        final(mixer).spec_buffer_size() == old(mixer).spec_buffer_size(),
        final(mixer).spec_sample_rate() == old(mixer).spec_sample_rate(),
        sel.fits(old(mixer).spec_channel_count()) ==> ({
            let w = written(old(mixer)@, old(mixer).spec_buffer_size(), input_buffer@, sel.router());
            final(mixer)@ == w.0 && r.0 == w.1 && r.1 == input_buffer@.len() - w.1
        }),
        !sel.fits(old(mixer).spec_channel_count()) ==> final(mixer)@ == old(mixer)@ && r == (
            0usize,
            0usize,
        ),
{
    match mixer.get_channel(sel) {
        Ok(_) => mixer.push_routed(input_buffer, sel),
        Err(_) => (0, 0),
    }
}

/// The same transfer as `write_to_mixer_sync`, for writers that run on the
/// network side.
pub fn write_to_mixer_async(mixer: &mut Mixer, input_buffer: &[u32], sel: MixerTrackSelector) -> (r: (
    usize,
    usize,
))
    requires
        old(mixer).wf(),
    ensures
        final(mixer).wf(),
        final(mixer).spec_channel_count() == old(mixer).spec_channel_count(),
        final(mixer).spec_buffer_size() == old(mixer).spec_buffer_size(),
        final(mixer).spec_sample_rate() == old(mixer).spec_sample_rate(),
        sel.fits(old(mixer).spec_channel_count()) ==> ({
            let w = written(old(mixer)@, old(mixer).spec_buffer_size(), input_buffer@, sel.router());
            final(mixer)@ == w.0 && r.0 == w.1 && r.1 == input_buffer@.len() - w.1
        }),
        !sel.fits(old(mixer).spec_channel_count()) ==> final(mixer)@ == old(mixer)@ && r == (
            0usize,
            0usize,
        ),
{
    write_to_mixer_sync(mixer, input_buffer, sel)
}

/// Fills an interleaved device buffer from all channels round-robin: the
/// `i`-th sample comes from channel `i % channel_count`, silence where that
/// channel is empty. Returns `Ok((popped, silent))`. (A non-empty buffer
/// needs at least one channel.)
pub fn read_from_mixer_sync(mixer: &mut Mixer, output_buffer: &mut [u32]) -> (r: Result<
    (usize, usize),
    MixerError,
>)
    requires
        old(mixer).wf(),
        old(output_buffer)@.len() > 0 ==> old(mixer).spec_channel_count() > 0,
    ensures
        final(mixer).wf(),
        final(mixer).spec_channel_count() == old(mixer).spec_channel_count(),
        final(mixer).spec_buffer_size() == old(mixer).spec_buffer_size(),
        final(mixer).spec_sample_rate() == old(mixer).spec_sample_rate(),
        final(output_buffer)@.len() == old(output_buffer)@.len(),
        ({
            let d = drained(
                old(mixer)@,
                old(output_buffer)@.len(),
                round_robin(old(mixer).spec_channel_count()),
            );
            &&& final(mixer)@ == d.0
            &&& final(output_buffer)@ == d.1
            &&& r matches Ok((consumed, dropped)) && consumed == d.2 && consumed + dropped
                == old(output_buffer)@.len()
        }),
{
    let n = output_buffer.len();
    let consumed = mixer.pop_routed(output_buffer, None);
    Ok((consumed, n - consumed))
}

/// Fills `output_buffer` from the selected channel(s): every sample from the
/// mono channel, or alternately from left and right; silence where a channel
/// is empty. If the mixer lacks a selected channel nothing is read and the
/// buffer is left as it was. Returns (popped, silent).
pub fn read_from_mixer_async(mixer: &mut Mixer, output_buffer: &mut [u32], sel: MixerTrackSelector) -> (r: (
    usize,
    usize,
))
    requires
        old(mixer).wf(),
    ensures
        final(mixer).wf(),
        final(mixer).spec_channel_count() == old(mixer).spec_channel_count(),
        final(mixer).spec_buffer_size() == old(mixer).spec_buffer_size(),
        final(mixer).spec_sample_rate() == old(mixer).spec_sample_rate(),
        final(output_buffer)@.len() == old(output_buffer)@.len(),
        sel.fits(old(mixer).spec_channel_count()) ==> ({
            let d = drained(old(mixer)@, old(output_buffer)@.len(), sel.router());
            &&& final(mixer)@ == d.0
            &&& final(output_buffer)@ == d.1
            &&& r.0 == d.2 && r.0 + r.1 == old(output_buffer)@.len()
        }),
        !sel.fits(old(mixer).spec_channel_count()) ==> final(mixer)@ == old(mixer)@ && final(output_buffer)@ == old(output_buffer)@ && r == (0usize, 0usize),
{
    match mixer.get_channel(sel) {
        Ok(_) => {
            let n = output_buffer.len();
            let consumed = mixer.pop_routed(output_buffer, Some(sel));
            (consumed, n - consumed)
        },
        Err(_) => (0, 0),
    }
}

/// Mixes all channels down into an interleaved device buffer, round-robin as
/// `read_from_mixer_sync` does. Returns the number of samples written: all of
/// the buffer, or none for a mixer without channels.
pub fn mixdown(mixer: &mut Mixer, output_buffer: &mut [u32]) -> (r: usize)
    requires
        old(mixer).wf(),
    ensures
        final(mixer).wf(),
        final(mixer).spec_channel_count() == old(mixer).spec_channel_count(),
        final(mixer).spec_buffer_size() == old(mixer).spec_buffer_size(),
        final(mixer).spec_sample_rate() == old(mixer).spec_sample_rate(),
        final(output_buffer)@.len() == old(output_buffer)@.len(),
        old(mixer).spec_channel_count() > 0 ==> ({
            let d = drained(
                old(mixer)@,
                old(output_buffer)@.len(),
                round_robin(old(mixer).spec_channel_count()),
            );
            final(mixer)@ == d.0 && final(output_buffer)@ == d.1 && r == old(output_buffer)@.len()
        }),
        old(mixer).spec_channel_count() == 0 ==> final(mixer)@ == old(mixer)@ && final(output_buffer)@ == old(output_buffer)@ && r == 0,
{
    if mixer.channel_count() == 0 {
        return 0;
    }
    mixer.pop_routed(output_buffer, None);
    output_buffer.len()
}

/// Writes the samples of a received packet across the packet's
/// `packet_channels` channels round-robin (the `b`-th sample to channel
/// `b % packet_channels`); samples meeting a full channel are dropped.
pub fn process_udp_server_output(mixer: &mut Mixer, samples: &[u32], packet_channels: usize)
    requires
        old(mixer).wf(),
        samples@.len() > 0 ==> 0 < packet_channels <= old(mixer).spec_channel_count(),
    ensures
        final(mixer).wf(),
        final(mixer).spec_channel_count() == old(mixer).spec_channel_count(),
        final(mixer).spec_buffer_size() == old(mixer).spec_buffer_size(),
        final(mixer).spec_sample_rate() == old(mixer).spec_sample_rate(),
        final(mixer)@ == written(
            old(mixer)@,
            old(mixer).spec_buffer_size(),
            samples@,
            round_robin(packet_channels as nat),
        ).0,
{
    let ghost old_view = mixer@;
    let ghost cap = mixer.spec_buffer_size();
    let ghost route = round_robin(packet_channels as nat);
    let mut b: usize = 0;
    while b < samples.len()
        invariant
            mixer.wf(),
            mixer.spec_channel_count() == old(mixer).spec_channel_count(),
            mixer.spec_buffer_size() == old(mixer).spec_buffer_size(),
            mixer.spec_sample_rate() == old(mixer).spec_sample_rate(),
            cap == mixer.spec_buffer_size(),
            route == round_robin(packet_channels as nat),
            samples@.len() > 0 ==> 0 < packet_channels <= mixer.spec_channel_count(),
            b <= samples@.len(),
            mixer@ == written(old_view, cap, samples@.take(b as int), route).0,
        decreases samples@.len() - b,
    {
        let ch = b % packet_channels;
        proof {
            assert(samples@.take(b + 1).drop_last() =~= samples@.take(b as int));
        }
        mixer.push_one(ch, samples[b]);
        b = b + 1;
    }
    proof {
        assert(samples@.take(b as int) =~= samples@);
    }
}

} // verus!
