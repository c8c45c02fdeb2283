//! The pooled streamer's flows: the capture callback that keeps the selected
//! channels of an interleaved device buffer, the network loops that ship
//! and take in sample packets, and the decisions of the TCP control
//! handshake.

use crate::cast::{bytes_to_samples, encodes, samples_to_bytes};
use crate::ring::SampleRing;
use crate::splitter::{dedup_seq, ChannelSplitter};
use crate::clock::clock_reading;
use crate::streamer::push_each;
use vstd::prelude::*;

verus! {

/// Messages to the device side.
#[derive(Debug, Clone, Copy, PartialEq, Eq)]
pub enum CpalStatus {
    DidEnd,
}

/// What the device callback reports after each call.
#[derive(Debug, Clone, Copy, PartialEq, Eq, Default)]
pub struct CpalStats {
    pub consumed: Option<usize>,
    pub requested: Option<usize>,
}

/// Messages to the network side.
#[derive(Debug, Clone, Copy, PartialEq, Eq)]
pub enum UdpStatus {
    DidEnd,
}

/// Commands to the receiving side.
#[derive(Debug, Clone, Copy, PartialEq, Eq)]
pub enum UdpReceiverCommands {
    Stop,
}

/// Commands to the sending side.
#[derive(Debug, Clone, Copy, PartialEq, Eq)]
pub enum UdpSenderCommands {
    Stop,
}

/// What the network loop reports after each send or receive.
#[derive(Debug, Clone, Copy, PartialEq, Eq, Default)]
pub struct NetworkUDPStats {
    pub sent: Option<usize>,
    pub received: Option<usize>,
    pub pre_occupied_buffer: usize,
    pub post_occupied_buffer: usize,
}

/// The most samples one UDP packet carries.
pub const MAX_UDP_PACKET_LENGTH: usize = 65535;

/// A packet of samples on the wire: its position in the stream, when it was
/// made (seconds and nanoseconds since the Unix epoch) and the bytes of its
/// samples.
#[derive(Debug, Clone, PartialEq, Eq)]
pub struct UdpAudioPacket {
    pub sequence: u64,
    pub timestamp_secs: u64,
    pub timestamp_nanos: u32,
    pub data: Vec<u8>,
}

/// The samples of an interleaved buffer of `channel_count` channels that lie
/// on a selected channel, in order.
pub open spec fn selected_samples(data: Seq<u32>, selected: Seq<usize>, channel_count: nat) -> Seq<
    u32,
>
    decreases data.len(),
{
    if data.len() == 0 {
        Seq::<u32>::empty()
    } else {
        let p = selected_samples(data.drop_last(), selected, channel_count);
        if selected.contains(((data.len() - 1) % (channel_count as int)) as usize) {
            p.push(data.last())
        } else {
            p
        }
    }
}

/// The capture callback: walks the interleaved buffer and appends each
/// sample on a selected channel to the FIFO, counting as dropped those that
/// meet a full FIFO. Returns (samples walked, samples dropped).
pub fn process_input(
    data: &[u32],
    output: &mut SampleRing,
    selected_channels: Vec<usize>,
    channel_count: u16,
) -> (r: (usize, usize))
    requires
        channel_count > 0,
        dedup_seq(selected_channels@).len() <= channel_count,
    ensures
        final(output).cap() == old(output).cap(),
        ({
            let kept = selected_samples(data@, dedup_seq(selected_channels@), channel_count as nat);
            let room = old(output).cap() - old(output)@.len();
            let n = if kept.len() <= room {
                kept.len() as int
            } else {
                room
            };
            &&& final(output)@ == old(output)@ + kept.take(n)
            &&& r.0 == data@.len()
            &&& r.1 == kept.len() - n
        }),
{
    let ghost sel = dedup_seq(selected_channels@);
    let ghost cc = channel_count as nat;
    let ghost old_out = output@;
    let ghost cap = output.cap();
    let c = output.rb_capacity();
    let splitter_r = ChannelSplitter::new(data, selected_channels, channel_count);
    let mut splitter = match splitter_r {
        Ok(s) => s,
        Err(_) => {
            return (0, 0);
        },
    };
    let mut consumed: usize = 0;
    let mut dropped: usize = 0;
    while consumed < data.len()
        invariant
            splitter.data() == data@,
            splitter.selected() == sel,
            splitter.spec_channel_count() == cc,
            cc > 0,
            splitter.position() == consumed,
            consumed <= data@.len(),
            dropped <= consumed,
            output.cap() == cap,
            c == cap,
            old_out.len() <= cap,
            ({
                let kept = selected_samples(data@.take(consumed as int), sel, cc);
                let room = cap - old_out.len();
                let n = if kept.len() <= room {
                    kept.len() as int
                } else {
                    room
                };
                &&& output@ == old_out + kept.take(n)
                &&& dropped == kept.len() - n
            }),
        decreases data@.len() - consumed,
    {
        let item = splitter.next();
        proof {
            assert(data@.take(consumed + 1).drop_last() =~= data@.take(consumed as int));
        }
        match item {
            Some(s) => {
                if s.on_selected_channel {
                    let ghost prev = output@;
                    let pushed = SampleRing::rb_try_push(output, *s.sample);
                    proof {
                        let kept = selected_samples(data@.take(consumed as int), sel, cc);
                        let room = cap - old_out.len();
                        if kept.len() < room {
                            assert(old_out + kept.push(data@[consumed as int]).take((kept.len() + 1) as int)
                                =~= (old_out + kept.take(kept.len() as int)).push(
                                data@[consumed as int],
                            ));
                        } else {
                            assert(kept.push(data@[consumed as int]).take(room) =~= kept.take(room));
                        }
                    }
                    if pushed.is_err() {
                        dropped = dropped + 1;
                    }
                }
            },
            None => {},
        }
        consumed = consumed + 1;
    }
    proof {
        assert(data@.take(consumed as int) =~= data@);
    }
    (consumed, dropped)
}

/// Whether the sender's network loop ships this round: when urged to, or
/// once the FIFO is full.
pub open spec fn ships(urged: bool, ring: SampleRing) -> bool {
    urged || ring@.len() >= ring.cap()
}

/// The concatenation of a sequence of sample chunks.
pub open spec fn concat(chunks: Seq<Seq<u32>>) -> Seq<u32>
    decreases chunks.len(),
{
    if chunks.len() == 0 {
        Seq::<u32>::empty()
    } else {
        concat(chunks.drop_last()) + chunks.last()
    }
}

/// Whether `chunks` cut a stream into packets of at most `max` samples:
/// every chunk but the last has exactly `max` samples, and none is empty.
pub open spec fn cut_into(chunks: Seq<Seq<u32>>, max: nat) -> bool {
    forall|k: int|
        0 <= k < chunks.len() ==> 0 < (#[trigger] chunks[k]).len() <= max && (k < chunks.len() - 1
            ==> chunks[k].len() == max)
}

/// One round of the sender's network loop at the time `secs`, `nanos`
/// (since the Unix epoch): when it ships (see `ships`), it empties the FIFO
/// into packets of at most `MAX_UDP_PACKET_LENGTH` samples, numbered on from
/// `sequence` and stamped with that time; otherwise it does nothing. Returns
/// the packets and the next sequence number.
pub fn udp_sender_round_at(
    buffer_consumer: &mut SampleRing,
    urged: bool,
    sequence: u64,
    secs: u64,
    nanos: u32,
) -> (r: (Vec<UdpAudioPacket>, u64))
    requires
        sequence + old(buffer_consumer)@.len() <= u64::MAX,
    ensures
        final(buffer_consumer).cap() == old(buffer_consumer).cap(),
        !ships(urged, *old(buffer_consumer)) ==> r.0@.len() == 0 && r.1 == sequence && final(
            buffer_consumer)@ == old(buffer_consumer)@,
        ships(urged, *old(buffer_consumer)) ==> final(buffer_consumer)@ == Seq::<u32>::empty()
            && r.1 == sequence + r.0@.len() && exists|chunks: Seq<Seq<u32>>|
            {
                &&& #[trigger] concat(chunks) == old(buffer_consumer)@
                &&& cut_into(chunks, MAX_UDP_PACKET_LENGTH as nat)
                &&& chunks.len() == r.0@.len()
                &&& forall|k: int|
                    0 <= k < chunks.len() ==> (#[trigger] r.0@[k]).sequence == sequence + k
                        && r.0@[k].data@.len() == 4 * chunks[k].len()
                        && encodes(r.0@[k].data@, chunks[k])
                        && r.0@[k].timestamp_secs == secs
                        && r.0@[k].timestamp_nanos == nanos
            },
{
    let ghost old_ring = buffer_consumer@;
    // the capacity bounds the occupancy, so "full" and "ships" agree
    let _capacity = buffer_consumer.rb_capacity();
    let mut packets: Vec<UdpAudioPacket> = Vec::new();
    if !(urged || buffer_consumer.rb_is_full()) {
        return (packets, sequence);
    }
    let mut seq = sequence;
    let ghost mut chunks: Seq<Seq<u32>> = Seq::empty();
    while !buffer_consumer.rb_is_empty()
        invariant
            buffer_consumer.cap() == old(buffer_consumer).cap(),
            concat(chunks) + buffer_consumer@ == old_ring,
            cut_into(chunks, MAX_UDP_PACKET_LENGTH as nat),
            chunks.len() > 0 && buffer_consumer@.len() > 0 ==> chunks.last().len()
                == MAX_UDP_PACKET_LENGTH,
            chunks.len() == packets@.len(),
            seq == sequence + packets@.len(),
            sequence + old_ring.len() <= u64::MAX,
            packets@.len() <= concat(chunks).len(),
            forall|k: int|
                0 <= k < chunks.len() ==> (#[trigger] packets@[k]).sequence == sequence + k
                    && packets@[k].data@.len() == 4 * chunks[k].len()
                    && encodes(packets@[k].data@, chunks[k])
                    && packets@[k].timestamp_secs == secs
                    && packets@[k].timestamp_nanos == nanos,
        decreases buffer_consumer@.len(),
    {
        let mut data_buf: Vec<u32> = Vec::new();
        let mut k: usize = 0;
        while k < MAX_UDP_PACKET_LENGTH
            invariant
                k <= MAX_UDP_PACKET_LENGTH,
                data_buf@.len() == k,
            decreases MAX_UDP_PACKET_LENGTH - k,
        {
            data_buf.push(0);
            k = k + 1;
        }
        let ghost before = buffer_consumer@;
        let consumed = SampleRing::rb_pop_slice(buffer_consumer, data_buf.as_mut_slice());
        let chunk = slice_prefix(&data_buf, consumed);
        let data = samples_to_bytes(chunk.as_slice());
        proof {
            let ck = before.take(consumed as int);
            assert(chunk@ == ck);
            assert(concat(chunks.push(ck)) =~= concat(chunks) + ck) by {
                assert(chunks.push(ck).drop_last() =~= chunks);
            }
            assert(concat(chunks) + ck + buffer_consumer@ =~= concat(chunks) + before);
            chunks = chunks.push(ck);
            assert(concat(chunks).len() >= packets@.len() + 1) by {
                assert(concat(chunks).len() == concat(chunks.drop_last()).len() + ck.len()) by {
                    assert(chunks.drop_last() =~= chunks.drop_last());
                }
            }
        }
        packets.push(UdpAudioPacket { sequence: seq, timestamp_secs: secs, timestamp_nanos: nanos, data });
        seq = seq + 1;
    }
    (packets, seq)
}

/// Failures of the sender's network loop.
#[derive(Debug, Clone, Copy, PartialEq, Eq)]
pub enum UdpSenderError {
    /// The system clock reads earlier than the Unix epoch, so the packets
    /// cannot be stamped (such a time cannot be sent).
    ClockBeforeEpoch,
}

/// One round of the sender's network loop: when it ships (see `ships`), it
/// reads the clock once and makes the round's packets for that time (see
/// `udp_sender_round_at`), so all of them carry the same time stamp;
/// otherwise it does nothing. Should the clock read
/// earlier than the Unix epoch, the round stops with an error before taking
/// anything from the FIFO.
pub fn udp_sender_round(buffer_consumer: &mut SampleRing, urged: bool, sequence: u64) -> (r: Result<
    (Vec<UdpAudioPacket>, u64),
    UdpSenderError,
>)
    requires
        sequence + old(buffer_consumer)@.len() <= u64::MAX,
    ensures
        final(buffer_consumer).cap() == old(buffer_consumer).cap(),
        !ships(urged, *old(buffer_consumer)) ==> (r matches Ok((packets, next)) && packets@.len() == 0
            && next == sequence) && final(buffer_consumer)@ == old(buffer_consumer)@,
        r matches Err(e) ==> e == UdpSenderError::ClockBeforeEpoch && ships(urged, *old(buffer_consumer))
            && final(buffer_consumer)@ == old(buffer_consumer)@,
        ships(urged, *old(buffer_consumer)) && r is Ok ==> ({
            let packets = r->Ok_0.0;
            &&& final(buffer_consumer)@ == Seq::<u32>::empty()
            &&& r->Ok_0.1 == sequence + packets@.len()
            &&& forall|k: int|
                0 <= k < packets@.len() ==> (#[trigger] packets@[k]).timestamp_secs
                    == packets@[0].timestamp_secs && packets@[k].timestamp_nanos
                    == packets@[0].timestamp_nanos && packets@[k].timestamp_nanos < 1_000_000_000
            &&& exists|chunks: Seq<Seq<u32>>|
                {
                    &&& #[trigger] concat(chunks) == old(buffer_consumer)@
                    &&& cut_into(chunks, MAX_UDP_PACKET_LENGTH as nat)
                    &&& chunks.len() == packets@.len()
                    &&& forall|k: int|
                        0 <= k < chunks.len() ==> (#[trigger] packets@[k]).sequence == sequence + k
                            && packets@[k].data@.len() == 4 * chunks[k].len()
                            && encodes(packets@[k].data@, chunks[k])
                }
        }),
{
    // the capacity bounds the occupancy, so "full" and "ships" agree
    let _capacity = buffer_consumer.rb_capacity();
    if !(urged || buffer_consumer.rb_is_full()) {
        return Ok((Vec::new(), sequence));
    }
    match clock_reading() {
        Some((secs, nanos)) => Ok(udp_sender_round_at(buffer_consumer, urged, sequence, secs, nanos)),
        None => Err(UdpSenderError::ClockBeforeEpoch),
    }
}

/// The first `n` samples of `v`.
fn slice_prefix(v: &Vec<u32>, n: usize) -> (r: Vec<u32>)
    requires
        n <= v@.len(),
    ensures
        r@ == v@.take(n as int),
{
    let mut r: Vec<u32> = Vec::new();
    let mut i: usize = 0;
    while i < n
        invariant
            i <= n,
            n <= v@.len(),
            r@ == v@.take(i as int),
        decreases n - i,
    {
        r.push(v[i]);
        proof {
            assert(v@.take(i + 1) =~= v@.take(i as int).push(v@[i as int]));
        }
        i = i + 1;
    }
    r
}

/// One received packet: views its data as samples and appends as many as
/// fit to the FIFO. A packet whose data cannot be viewed as samples is
/// skipped (`Err`), leaving the FIFO as it was.
pub fn udp_receiver_round(buffer_producer: &mut SampleRing, packet: &UdpAudioPacket) -> (r: Result<
    (),
    bytemuck::PodCastError,
>)
    ensures
        final(buffer_producer).cap() == old(buffer_producer).cap(),
        packet.data@.len() % 4 != 0 ==> r is Err,
        r is Err ==> final(buffer_producer)@ == old(buffer_producer)@,
        r is Ok ==> exists|samples: Seq<u32>|
            #[trigger] encodes(packet.data@, samples) && samples.len() * 4 == packet.data@.len() && ({
                let room = old(buffer_producer).cap() - old(buffer_producer)@.len();
                let n = if samples.len() <= room {
                    samples.len() as int
                } else {
                    room
                };
                final(buffer_producer)@ == old(buffer_producer)@ + samples.take(n)
            }),
{
    match bytes_to_samples(packet.data.as_slice()) {
        Ok(c_samples) => {
            push_each(buffer_producer, c_samples.as_slice());
            assert(encodes(packet.data@, c_samples@));
            Ok(())
        },
        Err(e) => Err(e),
    }
}

} // verus!
