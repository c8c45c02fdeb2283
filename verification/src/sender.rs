//! The plain sender: captured samples go into a FIFO, which is shipped
//! whole once it is full.

use crate::cast::encodes;
use crate::ring::SampleRing;
use crate::streamer::udp_sender_round;
use vstd::prelude::*;

verus! {

/// What the network loop reports after each send.
#[derive(Debug, Clone, Copy, PartialEq, Eq)]
pub struct UdpStats {
    pub sent: usize,
    pub occupied_buffer: usize,
}

/// What the device callback reports after each call.
#[derive(Debug, Clone, Copy, PartialEq, Eq)]
pub struct CpalStats {
    pub requested_sample_length: usize,
}

/// The device callback: appends as many captured samples as fit (the first
/// ones) and reports how many were delivered.
pub fn capture(prod: &mut SampleRing, data: &[u32]) -> (r: CpalStats)
    ensures
        final(prod).cap() == old(prod).cap(),
        ({
            let room = old(prod).cap() - old(prod)@.len();
            let n = if data@.len() <= room {
                data@.len() as int
            } else {
                room
            };
            final(prod)@ == old(prod)@ + data@.take(n)
        }),
        r == (CpalStats { requested_sample_length: data@.len() as usize }),
{
    let _ = SampleRing::rb_push_slice(prod, data);
    CpalStats { requested_sample_length: data.len() }
}

/// One round of the network loop: once the FIFO is full, empties it and
/// hands back the bytes of its samples with the bytes sent and the occupancy
/// before; nothing while it is not full.
pub fn send_round(cons: &mut SampleRing) -> (r: Option<(Vec<u8>, UdpStats)>)
    requires
        4 * old(cons).cap() <= usize::MAX,
    ensures
        final(cons).cap() == old(cons).cap(),
        old(cons)@.len() < old(cons).cap() ==> r is None && final(cons)@ == old(cons)@,
        old(cons)@.len() >= old(cons).cap() ==> (r matches Some((bytes, stats)) && bytes@.len() == 4
            * old(cons).cap() && encodes(bytes@, old(cons)@) && stats == (UdpStats {
            sent: bytes@.len() as usize,
            occupied_buffer: old(cons)@.len() as usize,
        }) && final(cons)@ == Seq::<u32>::empty()),
{
    match udp_sender_round(cons) {
        Some((packet, stats)) => {
            let sent = packet.len();
            Some((packet, UdpStats { sent, occupied_buffer: stats.occupied_buffer }))
        },
        None => None,
    }
}

} // verus!
