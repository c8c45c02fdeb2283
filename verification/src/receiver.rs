//! The plain receiver: datagrams are appended to a FIFO, which the device
//! callback drains.

use crate::cast::{bytes_to_samples, encodes};
use crate::ring::SampleRing;
use crate::streamer::push_each;
use vstd::prelude::*;

verus! {

/// What the network loop reports after each datagram.
#[derive(Debug, Clone, Copy, PartialEq, Eq)]
pub struct UdpStats {
    pub received: usize,
    pub occupied_buffer: usize,
}

/// What the device callback reports after each call.
#[derive(Debug, Clone, Copy, PartialEq, Eq)]
pub struct CpalStats {
    pub requested_sample_length: usize,
}

/// One datagram: views the whole receive buffer as samples, appends as many
/// as fit, and reports the bytes received with the occupancy afterwards.
/// `None`, with the FIFO untouched, when the buffer cannot be viewed as
/// samples.
pub fn receive(prod: &mut SampleRing, buf: &[u8], received: usize) -> (r: Option<UdpStats>)
    ensures
        final(prod).cap() == old(prod).cap(),
        buf@.len() % 4 != 0 ==> r is None,
        r is None ==> final(prod)@ == old(prod)@,
        r matches Some(stats) ==> stats.received == received && stats.occupied_buffer == final(
            prod)@.len(),
        r is Some ==> exists|samples: Seq<u32>|
            #[trigger] encodes(buf@, samples) && samples.len() * 4 == buf@.len() && ({
                let room = old(prod).cap() - old(prod)@.len();
                let n = if samples.len() <= room {
                    samples.len() as int
                } else {
                    room
                };
                final(prod)@ == old(prod)@ + samples.take(n)
            }),
{
    match bytes_to_samples(buf) {
        Ok(float_samples) => {
            push_each(prod, float_samples.as_slice());
            assert(encodes(buf@, float_samples@));
            let occupied_buffer = prod.rb_occupied_len();
            Some(UdpStats { received, occupied_buffer })
        },
        Err(_) => None,
    }
}

/// The device callback: moves as many of the oldest samples into the front
/// of the device buffer as both hold, leaving the rest of the buffer as it
/// was; returns how many with the callback's report.
pub fn playback(cons: &mut SampleRing, output: &mut [u32]) -> (r: (usize, CpalStats))
    ensures
        final(cons).cap() == old(cons).cap(),
        ({
            let n = if old(output)@.len() <= old(cons)@.len() {
                old(output)@.len()
            } else {
                old(cons)@.len()
            };
            &&& r.0 == n
            &&& final(cons)@ == old(cons)@.skip(n as int)
            &&& final(output)@ == old(cons)@.take(n as int) + old(output)@.skip(n as int)
        }),
        r.1 == (CpalStats { requested_sample_length: old(output)@.len() as usize }),
{
    let len = output.len();
    let consumed = SampleRing::rb_pop_slice(cons, output);
    (consumed, CpalStats { requested_sample_length: len })
}

} // verus!
