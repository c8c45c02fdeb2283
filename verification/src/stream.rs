//! Audio packets: what the sender takes from its mixer and puts on the wire,
//! and what the receiver does with a packet that arrives.

use crate::clock::clock_reading;
use crate::cast::{bytes_to_samples, encodes, samples_to_bytes};
use crate::mixer::{drained, read_from_mixer_async, write_to_mixer_async, written, Mixer, MixerError, MixerTrackSelector};
use vstd::prelude::*;

verus! {

/// Commands to a running UDP receiver.
#[derive(Debug, Clone, Copy, PartialEq, Eq)]
pub enum UdpServerCommands {
    Stop,
}

/// Commands to a running UDP sender.
#[derive(Debug, Clone, Copy, PartialEq, Eq)]
pub enum UdpClientCommands {
    Stop,
}

/// Failures of the UDP receiver.
#[derive(Debug, Clone, PartialEq, Eq)]
pub enum UdpServerHandleError {
    TokioError(String),
    CastingError,
    SerializationError,
}

impl UdpServerHandleError {
    /// A human-readable description of the error.
    pub fn message(&self) -> (s: String)
        ensures
            s@ == match self {
                UdpServerHandleError::TokioError(e) => "tokio error: "@ + e@,
                UdpServerHandleError::CastingError => "casting error"@,
                UdpServerHandleError::SerializationError => "serialization error"@,
            },
    {
        match self {
            UdpServerHandleError::TokioError(e) => {
                let mut s = String::from_str("tokio error: ");
                s.append(e.as_str());
                s
            },
            UdpServerHandleError::CastingError => String::from_str("casting error"),
            UdpServerHandleError::SerializationError => String::from_str("serialization error"),
        }
    }
}

/// Failures of the UDP sender.
#[derive(Debug)]
pub enum UdpClientError {
    MixerError(MixerError),
    CastError(bytemuck::PodCastError),
    /// The system clock reads earlier than the Unix epoch, so the packet
    /// cannot be stamped (such a time cannot be sent).
    ClockBeforeEpoch,
}

/// The header of an audio packet.
#[derive(Debug, Clone, Copy, PartialEq, Eq)]
pub struct AudioPacketHeader {
    /// The id of the connection.
    pub connection_id: u128,
    /// When the packet was made: whole seconds since the Unix epoch.
    pub timestamp_secs: u64,
    /// When the packet was made: nanoseconds past `timestamp_secs`.
    pub timestamp_nanos: u32,
    /// The sample rate of the samples carried.
    pub sample_rate: usize,
    /// How many channels the packet interleaves.
    pub channels: usize,
}

/// An audio packet: a header and the bytes of its interleaved samples.
#[derive(Debug, Clone, PartialEq, Eq)]
pub struct AudioPacket {
    pub header: AudioPacketHeader,
    pub payload: Vec<u8>,
}

/// Makes the sender's packet for the time `secs`, `nanos` (since the Unix
/// epoch): takes `bufsize` samples per selected channel from the mixer
/// (interleaved as the selector routes them, silence where a channel runs
/// dry) and wraps their bytes in a packet with that time stamp.
pub fn stamp_audio_packet(
    mixer: &mut Mixer,
    bufsize: usize,
    sample_rate: usize,
    connection_id: u128,
    sel: MixerTrackSelector,
    secs: u64,
    nanos: u32,
) -> (p: AudioPacket)
    requires
        old(mixer).wf(),
        sel.fits(old(mixer).spec_channel_count()),
        nanos < 1_000_000_000,
        bufsize * sel.selected_count() <= usize::MAX,
        4 * bufsize * sel.selected_count() <= usize::MAX,
    ensures
        final(mixer).wf(),
        final(mixer).spec_channel_count() == old(mixer).spec_channel_count(),
        final(mixer).spec_buffer_size() == old(mixer).spec_buffer_size(),
        final(mixer).spec_sample_rate() == old(mixer).spec_sample_rate(),
        ({
            let n = bufsize * sel.selected_count();
            &&& final(mixer)@ == drained(old(mixer)@, n as nat, sel.router()).0
            &&& p.header == (AudioPacketHeader {
                connection_id,
                timestamp_secs: secs,
                timestamp_nanos: nanos,
                sample_rate,
                channels: sel.selected_count() as usize,
            })
            &&& p.payload@.len() == 4 * n
            &&& encodes(p.payload@, drained(old(mixer)@, n as nat, sel.router()).1)
        }),
{
    let n = bufsize * sel.channel_count();
    let mut buf: Vec<u32> = Vec::new();
    let mut k: usize = 0;
    while k < n
        invariant
            k <= n,
            buf@.len() == k,
        decreases n - k,
    {
        buf.push(0);
        k = k + 1;
    }
    read_from_mixer_async(mixer, buf.as_mut_slice(), sel);
    let payload = samples_to_bytes(buf.as_slice());
    AudioPacket {
        header: AudioPacketHeader {
            connection_id,
            timestamp_secs: secs,
            timestamp_nanos: nanos,
            sample_rate,
            channels: sel.channel_count(),
        },
        payload,
    }
}

/// One round of the sender: reads the clock and makes the packet for that
/// time (see `stamp_audio_packet`). If the mixer lacks a selected channel,
/// or the clock reads earlier than the Unix epoch (a time that cannot be
/// sent), nothing is taken and the error says so.
pub fn build_audio_packet(
    mixer: &mut Mixer,
    bufsize: usize,
    sample_rate: usize,
    connection_id: u128,
    sel: MixerTrackSelector,
) -> (r: Result<AudioPacket, UdpClientError>)
    requires
        old(mixer).wf(),
        bufsize * sel.selected_count() <= usize::MAX,
        4 * bufsize * sel.selected_count() <= usize::MAX,
    ensures
        final(mixer).wf(),
        final(mixer).spec_channel_count() == old(mixer).spec_channel_count(),
        final(mixer).spec_buffer_size() == old(mixer).spec_buffer_size(),
        final(mixer).spec_sample_rate() == old(mixer).spec_sample_rate(),
        !sel.fits(old(mixer).spec_channel_count()) ==> final(mixer)@ == old(mixer)@ && (r matches Err(
            UdpClientError::MixerError(e),
        ) && e == MixerError::InputChannelNotFound),
        sel.fits(old(mixer).spec_channel_count()) && r is Err ==> final(mixer)@ == old(mixer)@ && (r matches Err(
            e,
        ) && e is ClockBeforeEpoch),
        sel.fits(old(mixer).spec_channel_count()) && r is Ok ==> ({
            let n = bufsize * sel.selected_count();
            &&& final(mixer)@ == drained(old(mixer)@, n as nat, sel.router()).0
            &&& r matches Ok(p)
            &&& p.header.connection_id == connection_id
            &&& p.header.sample_rate == sample_rate
            &&& p.header.channels == sel.selected_count()
            &&& p.header.timestamp_nanos < 1_000_000_000
            &&& p.payload@.len() == 4 * n
            &&& encodes(p.payload@, drained(old(mixer)@, n as nat, sel.router()).1)
        }),
{
    if let Err(e) = mixer.get_channel(sel) {
        return Err(UdpClientError::MixerError(e));
    }
    match clock_reading() {
        Some((secs, nanos)) => Ok(
            stamp_audio_packet(mixer, bufsize, sample_rate, connection_id, sel, secs, nanos),
        ),
        None => Err(UdpClientError::ClockBeforeEpoch),
    }
}

/// One round of the receiver: views the packet's payload as samples and
/// writes them into the selected channel(s) of the mixer (see
/// `write_to_mixer_async`), returning (accepted, dropped). A payload that
/// cannot be viewed as samples leaves the mixer as it was.
pub fn receive_audio_packet(mixer: &mut Mixer, packet: &AudioPacket, sel: MixerTrackSelector) -> (r:
    Result<(usize, usize), bytemuck::PodCastError>)
    requires
        old(mixer).wf(),
    ensures
        final(mixer).wf(),
        final(mixer).spec_channel_count() == old(mixer).spec_channel_count(),
        final(mixer).spec_buffer_size() == old(mixer).spec_buffer_size(),
        final(mixer).spec_sample_rate() == old(mixer).spec_sample_rate(),
        packet.payload@.len() % 4 != 0 ==> r is Err,
        r is Err ==> final(mixer)@ == old(mixer)@,
        r matches Ok((accepted, dropped)) ==> exists|samples: Seq<u32>|
            {
                &&& #[trigger] encodes(packet.payload@, samples)
                &&& samples.len() * 4 == packet.payload@.len()
                &&& accepted + dropped == (if sel.fits(old(mixer).spec_channel_count()) {
                    samples.len()
                } else {
                    0
                })
                &&& sel.fits(old(mixer).spec_channel_count()) ==> final(mixer)@ == written(
                    old(mixer)@,
                    old(mixer).spec_buffer_size(),
                    samples,
                    sel.router(),
                ).0 && accepted == written(
                    old(mixer)@,
                    old(mixer).spec_buffer_size(),
                    samples,
                    sel.router(),
                ).1
                &&& !sel.fits(old(mixer).spec_channel_count()) ==> final(mixer)@ == old(mixer)@
            },
{
    match bytes_to_samples(packet.payload.as_slice()) {
        Ok(samples) => {
            let r = write_to_mixer_async(mixer, samples.as_slice(), sel);
            assert(encodes(packet.payload@, samples@));
            Ok(r)
        },
        Err(e) => Err(e),
    }
}

} // verus!
