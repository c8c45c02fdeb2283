//! The direct streamer: a device callback and a network loop joined by one
//! sample FIFO. The sending side appends captured samples and ships the
//! buffer once it is full; the receiving side appends what arrives and plays
//! it back, silence where the FIFO runs dry.

use crate::cast::{bytes_to_samples, encodes, samples_to_bytes};
use crate::ring::{SampleRing, SILENCE};
use vstd::prelude::*;

verus! {

pub use crate::device::Direction;

/// What the network loop reports after each send or receive.
#[derive(Debug, Clone, Copy, PartialEq, Eq, Default)]
pub struct UdpStats {
    pub sent: Option<usize>,
    pub received: Option<usize>,
    pub occupied_buffer: usize,
}

/// What the device callback reports after each call.
#[derive(Debug, Clone, Copy, PartialEq, Eq, Default)]
pub struct CpalStats {
    pub consumed: Option<usize>,
    pub requested: Option<usize>,
}

/// The sample formats an audio device may deliver.
#[derive(Debug, Clone, Copy, PartialEq, Eq)]
pub enum SampleFormat {
    I8,
    I16,
    I32,
    I64,
    U8,
    U16,
    U32,
    U64,
    F32,
    F64,
}

/// The formats a streamer can be built for.
pub open spec fn format_supported(format: SampleFormat) -> bool {
    format == SampleFormat::I8 || format == SampleFormat::I16 || format == SampleFormat::I32
        || format == SampleFormat::F32
}

/// Whether a streamer can be built for `format`: 8-, 16- and 32-bit signed
/// integers and 32-bit floats.
pub fn is_supported_format(format: SampleFormat) -> (b: bool)
    ensures
        b == format_supported(format),
        b == (format is I8 || format is I16 || format is I32 || format is F32),
{
    match format {
        SampleFormat::I16 | SampleFormat::I8 | SampleFormat::I32 | SampleFormat::F32 => true,
        _ => false,
    }
}

/// A streamer can be built exactly for the signed integer formats of 8, 16
/// and 32 bits and for 32-bit floats; every other format is refused. Each
/// supported format is built with the sample type of its own width.
pub proof fn law_supported_formats(format: SampleFormat)
    ensures
        format_supported(format) <==> (format is I8 || format is I16 || format is I32
            || format is F32),
        format is I32 ==> format_supported(format),
        format is I64 || format is U8 || format is U16 || format is U32 || format is U64
            || format is F64 ==> !format_supported(format),
{
}

/// The sample types a streamer is built for.
#[derive(Debug, Clone, Copy, PartialEq, Eq)]
pub enum StreamSampleType {
    I8,
    I16,
    I32,
    F32,
}

/// The sample type a streamer for `format` is built with: 8-, 16- and 32-bit
/// signed integers and 32-bit floats, each as itself. The format must be one
/// of these (see `format_supported`).
pub fn from_sample_format(format: SampleFormat) -> (t: StreamSampleType)
    requires
        format_supported(format),
    ensures
        t == match format {
            SampleFormat::I8 => StreamSampleType::I8,
            SampleFormat::I16 => StreamSampleType::I16,
            SampleFormat::I32 => StreamSampleType::I32,
            _ => StreamSampleType::F32,
        },
{
    match format {
        SampleFormat::I8 => StreamSampleType::I8,
        SampleFormat::I16 => StreamSampleType::I16,
        SampleFormat::I32 => StreamSampleType::I32,
        _ => StreamSampleType::F32,
    }
}

/// The device callback of a sender: appends as many captured samples as the
/// FIFO has room for (the first ones) and returns how many, with the
/// callback's report.
pub fn process_input(data: &[u32], output: &mut SampleRing) -> (r: (usize, CpalStats))
    ensures
        final(output).cap() == old(output).cap(),
        ({
            let room = old(output).cap() - old(output)@.len();
            let n = if data@.len() <= room {
                data@.len() as int
            } else {
                room
            };
            &&& r.0 == n
            &&& final(output)@ == old(output)@ + data@.take(n)
            &&& r.1 == CpalStats { consumed: None, requested: Some(data@.len() as usize) }
        }),
{
    let appended = SampleRing::rb_push_slice(output, data);
    (appended, CpalStats { consumed: None, requested: Some(data.len()) })
}

/// The device callback of a receiver: fills the device buffer from the FIFO,
/// oldest first, with silence once the FIFO runs dry; returns how many
/// samples were written (all of them) with the callback's report.
pub fn process_output(output: &mut [u32], input: &mut SampleRing) -> (r: (usize, CpalStats))
    ensures
        final(input).cap() == old(input).cap(),
        ({
            let n = old(output)@.len();
            let k = if n <= old(input)@.len() {
                n
            } else {
                old(input)@.len()
            };
            &&& final(output)@ == old(input)@.take(k as int) + Seq::new(
                (n - k) as nat,
                |i: int| SILENCE,
            )
            &&& final(input)@ == old(input)@.skip(k as int)
            &&& r.0 == n
            &&& r.1 == CpalStats { consumed: Some(n as usize), requested: None }
        }),
{
    let ghost old_in = input@;
    let ghost n = output@.len();
    let mut i: usize = 0;
    while i < output.len()
        invariant
            i <= output@.len(),
            output@.len() == n,
            input.cap() == old(input).cap(),
            ({
                let k = if i <= old_in.len() {
                    i as int
                } else {
                    old_in.len() as int
                };
                &&& output@.take(i as int) == old_in.take(k) + Seq::new(
                    (i - k) as nat,
                    |j: int| SILENCE,
                )
                &&& input@ == old_in.skip(k)
            }),
        decreases output@.len() - i,
    {
        let ghost prev_out = output@;
        let v = match SampleRing::rb_try_pop(input) {
            Some(v) => v,
            None => SILENCE,
        };
        output[i] = v;
        proof {
            let k = if i <= old_in.len() {
                i as int
            } else {
                old_in.len() as int
            };
            let k2 = if i + 1 <= old_in.len() {
                (i + 1) as int
            } else {
                old_in.len() as int
            };
            assert(output@.take(i + 1) =~= prev_out.take(i as int).push(v));
            if i < old_in.len() {
                assert(old_in.take(k2) =~= old_in.take(k).push(old_in[k]));
                assert(old_in.skip(k2) =~= old_in.skip(k).drop_first());
                assert(Seq::new((i + 1 - k2) as nat, |j: int| SILENCE) =~= Seq::<u32>::empty());
                assert(Seq::new((i - k) as nat, |j: int| SILENCE) =~= Seq::<u32>::empty());
                assert(old_in.take(k2) + Seq::new((i + 1 - k2) as nat, |j: int| SILENCE)
                    =~= (old_in.take(k) + Seq::new((i - k) as nat, |j: int| SILENCE)).push(v));
            } else {
                assert(Seq::new((i + 1 - k2) as nat, |j: int| SILENCE) =~= Seq::new(
                    (i - k) as nat,
                    |j: int| SILENCE,
                ).push(SILENCE));
                assert(old_in.take(k2) + Seq::new((i + 1 - k2) as nat, |j: int| SILENCE)
                    =~= (old_in.take(k) + Seq::new((i - k) as nat, |j: int| SILENCE)).push(v));
            }
        }
        i = i + 1;
    }
    proof {
        assert(output@.take(i as int) =~= output@);
    }
    (output.len(), CpalStats { consumed: Some(output.len()), requested: None })
}

/// One round of a sender's network loop: once the FIFO is full, empties it
/// and hands back the bytes of its samples, four per sample, with the
/// round's report (bytes sent, occupancy before); while it is not full,
/// nothing happens.
pub fn udp_sender_round(buffer_consumer: &mut SampleRing) -> (r: Option<(Vec<u8>, UdpStats)>)
    requires
        4 * old(buffer_consumer).cap() <= usize::MAX,
    ensures
        final(buffer_consumer).cap() == old(buffer_consumer).cap(),
        old(buffer_consumer)@.len() < old(buffer_consumer).cap() ==> r is None && final(
            buffer_consumer)@ == old(buffer_consumer)@,
        old(buffer_consumer)@.len() >= old(buffer_consumer).cap() ==> (r matches Some((bytes, stats))
            && bytes@.len() == 4 * old(buffer_consumer).cap() && encodes(bytes@, old(buffer_consumer)@)
            && stats == UdpStats {
            sent: Some(bytes@.len() as usize),
            received: None,
            occupied_buffer: old(buffer_consumer)@.len() as usize,
        } && final(buffer_consumer)@ == Seq::<u32>::empty()),
{
    let cap = buffer_consumer.rb_capacity();
    if !buffer_consumer.rb_is_full() {
        return None;
    }
    let mut network_buffer: Vec<u32> = Vec::new();
    let mut k: usize = 0;
    while k < cap
        invariant
            k <= cap,
            network_buffer@.len() == k,
        decreases cap - k,
    {
        network_buffer.push(0);
        k = k + 1;
    }
    let ghost before = buffer_consumer@;
    let pre_occupied_buffer = buffer_consumer.rb_occupied_len();
    SampleRing::rb_pop_slice(buffer_consumer, network_buffer.as_mut_slice());
    proof {
        assert(buffer_consumer@ =~= Seq::<u32>::empty());
        assert(network_buffer@ =~= before);
    }
    let udp_packet = samples_to_bytes(network_buffer.as_slice());
    let n = udp_packet.len();
    Some((udp_packet, UdpStats { sent: Some(n), received: None, occupied_buffer: pre_occupied_buffer }))
}

/// Appends each sample in turn, dropping those that meet a full FIFO: the
/// first ones, as many as there is room for, are kept.
pub fn push_each(ring: &mut SampleRing, samples: &[u32])
    ensures
        final(ring).cap() == old(ring).cap(),
        ({
            let room = old(ring).cap() - old(ring)@.len();
            let n = if samples@.len() <= room {
                samples@.len() as int
            } else {
                room
            };
            final(ring)@ == old(ring)@ + samples@.take(n)
        }),
{
    let ghost old_ring = ring@;
    let ghost cap = ring.cap();
    let c = ring.rb_capacity();
    let mut i: usize = 0;
    while i < samples.len()
        invariant
            i <= samples@.len(),
            ring.cap() == cap,
            c == cap,
            old_ring.len() <= cap,
            ({
                let room = cap - old_ring.len();
                let n = if i <= room {
                    i as int
                } else {
                    room
                };
                ring@ == old_ring + samples@.take(n)
            }),
        decreases samples@.len() - i,
    {
        let ghost prev = ring@;
        let _ = SampleRing::rb_try_push(ring, samples[i]);
        proof {
            let room = cap - old_ring.len();
            if i < room {
                assert(old_ring + samples@.take(i + 1) =~= (old_ring + samples@.take(i as int)).push(
                    samples@[i as int],
                ));
            }
        }
        i = i + 1;
    }
}

/// One round of a receiver's network loop: views the whole network buffer
/// (not just the `received` bytes) as samples and appends them to the FIFO,
/// dropping what does not fit; reports the bytes received and the occupancy
/// before. `None`, with the FIFO untouched, when the buffer cannot be viewed
/// as samples.
pub fn udp_receiver_round(buffer_producer: &mut SampleRing, network_buffer: &[u8], received: usize) -> (r:
    Option<UdpStats>)
    ensures
        final(buffer_producer).cap() == old(buffer_producer).cap(),
        network_buffer@.len() % 4 != 0 ==> r is None,
        r is None ==> final(buffer_producer)@ == old(buffer_producer)@,
        r is Some ==> r == Some(UdpStats {
            sent: None,
            received: Some(received),
            occupied_buffer: old(buffer_producer)@.len() as usize,
        }),
        r is Some ==> exists|samples: Seq<u32>|
            #[trigger] encodes(network_buffer@, samples) && samples.len() * 4 == network_buffer@.len() && ({
                let room = old(buffer_producer).cap() - old(buffer_producer)@.len();
                let n = if samples.len() <= room {
                    samples.len() as int
                } else {
                    room
                };
                final(buffer_producer)@ == old(buffer_producer)@ + samples.take(n)
            }),
{
    match bytes_to_samples(network_buffer) {
        Ok(converted_samples) => {
            let pre_occupied_buffer = buffer_producer.rb_occupied_len();
            push_each(buffer_producer, converted_samples.as_slice());
            assert(encodes(network_buffer@, converted_samples@));
            Some(UdpStats { sent: None, received: Some(received), occupied_buffer: pre_occupied_buffer })
        },
        Err(_) => None,
    }
}

} // verus!
