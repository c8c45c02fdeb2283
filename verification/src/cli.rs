//! Command-line settings and the streamer configuration derived from them.

use crate::device::Direction;
use crate::mixer::MixerTrackSelector;
use crate::text::{parse_usize, parse_usize_spec, split_bytes, split_on};
use vstd::prelude::*;
use vstd::utf8::encode_utf8;

verus! {

/// Port used when none is specified.
pub const DEFAULT_PORT: u16 = 42069;

/// Port of the pooled streamer when none is specified.
pub const DEFAULT_POOLED_PORT: u16 = 22222;

/// Buffer size used when none is specified.
pub const SENDER_BUFFER_SIZE: usize = 1024;

/// Largest payload, in samples, of one UDP packet of the task-based sender.
pub const MAX_UDP_CLIENT_PAYLOAD_SIZE: usize = 512;

/// Sample rate used when none is specified.
pub const DEFAULT_SAMPLE_RATE: u32 = 44100;

/// A channel mapping could not be read.
#[derive(Debug, Clone, Copy, PartialEq, Eq)]
pub enum ChannelMappingError {
    InvalidStr,
}

/// A mapping from one channel to another.
#[derive(Debug, Clone, Copy, PartialEq, Eq, Default)]
pub struct ChannelMapping {
    from: usize,
    to: usize,
}

impl ChannelMapping {
    pub closed spec fn spec_from(&self) -> nat {
        self.from as nat
    }

    pub closed spec fn spec_to(&self) -> nat {
        self.to as nat
    }

    /// Reads `from=to`. Both ends are read from the text before the first
    /// `=`; `InvalidStr` when that is not a valid `usize`.
    pub fn from_str(s: &str) -> (r: Result<ChannelMapping, ChannelMappingError>)
        ensures
            match parse_usize_spec(split_on(encode_utf8(s@), 61)[0]) {
                Some(v) => r matches Ok(m) && m.spec_from() == v && m.spec_to() == v,
                None => r == Err::<ChannelMapping, ChannelMappingError>(ChannelMappingError::InvalidStr),
            },
    {
        proof {
            crate::text::lemma_split_nonempty(encode_utf8(s@), 61);
        }
        let sp = split_bytes(s.as_bytes(), 61);
        let from = parse_usize(sp[0].as_slice());
        let to = parse_usize(sp[0].as_slice());
        match (from, to) {
            (Some(from), Some(to)) => Ok(ChannelMapping { from, to }),
            _ => Err(ChannelMappingError::InvalidStr),
        }
    }
}

/// Options valid for every command.
#[derive(Debug, Clone, PartialEq, Eq)]
pub struct GlobalOptions {
    /// Name of the audio host (default: the system's).
    pub audio_host: Option<String>,
    /// Name of the audio device (default: the system's).
    pub device: Option<String>,
    /// Requested buffer size.
    pub buffer_size: Option<u32>,
    /// Requested sample rate.
    pub samplerate: Option<u32>,
    /// The mixer channel(s) to stream.
    pub track_selector: MixerTrackSelector,
}

/// Arguments of the sender command.
#[derive(Debug, Clone, PartialEq, Eq)]
pub struct SenderCommands {
    /// Address of the receiving server.
    pub target: String,
}

/// Arguments of the receiver command.
#[derive(Debug, Clone, PartialEq, Eq)]
pub struct ReceiverCommands {
    /// Address to listen on (default: all interfaces).
    pub addr: Option<String>,
}

/// The commands.
#[derive(Debug, Clone, PartialEq, Eq)]
pub enum Commands {
    Sender(SenderCommands),
    Receiver(ReceiverCommands),
    EnumDevices,
}

/// The command line.
#[derive(Debug, Clone, PartialEq, Eq)]
pub struct Cli {
    pub command: Commands,
    pub global: GlobalOptions,
}

/// The buffer size and sample rate to ask for: the given ones, else 1024
/// samples at 44100 Hz.
pub fn stream_settings(global: &GlobalOptions) -> (r: (u32, u32))
    ensures
        r.0 == match global.buffer_size {
            Some(b) => b,
            None => 1024u32,
        },
        r.1 == match global.samplerate {
            Some(s) => s,
            None => 44100u32,
        },
{
    let bsize = match global.buffer_size {
        Some(b) => b,
        None => 1024,
    };
    let srate = match global.samplerate {
        Some(s) => s,
        None => DEFAULT_SAMPLE_RATE,
    };
    (bsize, srate)
}

/// The plain sender's arguments.
#[derive(Debug, Clone, PartialEq, Eq)]
pub struct SenderCliArgs {
    pub audio_host: Option<String>,
    pub device: Option<String>,
    pub buffer_size: Option<u32>,
    pub channel: Option<u16>,
    pub enumerate: bool,
    pub target_server: String,
    pub ui: bool,
}

/// The plain receiver's arguments.
#[derive(Debug, Clone, PartialEq, Eq)]
pub struct ReceiverCliArgs {
    pub audio_host: Option<String>,
    pub device: Option<String>,
    pub buffer_size: Option<u32>,
    pub channel: Option<u16>,
    pub enumerate: bool,
    pub ui: bool,
    pub wave_output: bool,
    pub port: Option<u16>,
}

/// How a device sizes its buffers.
#[derive(Debug, Clone, Copy, PartialEq, Eq)]
pub enum BufferSize {
    Default,
    Fixed(u32),
}

/// A device stream configuration.
#[derive(Debug, Clone, Copy, PartialEq, Eq)]
pub struct StreamConfig {
    pub channels: u16,
    pub sample_rate: u32,
    pub buffer_size: BufferSize,
}

/// The device configuration of the plain sender and receiver, and their
/// buffer size: a channel count and a buffer size given together fix the
/// stream (at 44100 Hz); otherwise the device's default configuration is
/// used with a buffer of 1024 samples.
pub fn plain_stream_config(
    channel: Option<u16>,
    buffer_size: Option<u32>,
    default_config: StreamConfig,
) -> (r: (StreamConfig, u32))
    ensures
        r == match (channel, buffer_size) {
            (Some(c), Some(b)) => (
                StreamConfig { channels: c, sample_rate: 44100, buffer_size: BufferSize::Fixed(b) },
                b,
            ),
            _ => (default_config, 1024u32),
        },
{
    match (channel, buffer_size) {
        (Some(c), Some(b)) => (
            StreamConfig {
                channels: c,
                sample_rate: DEFAULT_SAMPLE_RATE,
                buffer_size: BufferSize::Fixed(b),
            },
            b,
        ),
        _ => (default_config, SENDER_BUFFER_SIZE as u32),
    }
}

/// Everything a streamer is built from.
#[derive(Debug, Clone, PartialEq, Eq)]
pub struct StreamerConfig {
    pub direction: Direction,
    pub cpal_config: StreamConfig,
    pub buffer_size: usize,
    pub channel_count: u16,
    pub send_network_stats: bool,
    pub send_cpal_stats: bool,
    pub selected_channels: Vec<usize>,
    pub port: u16,
}

impl StreamerConfig {
    /// The configuration for the command-line settings and the device's
    /// default configuration: a requested buffer size fixes the buffer and
    /// the rate (44100 Hz) on the device's channels, otherwise the default
    /// configuration is used with a buffer of 1024 samples; statistics follow
    /// the `ui` switch, channels 0 and 1 are selected and the port defaults
    /// to 42069.
    pub fn from_cli_args(
        direction: Direction,
        buffer_size: Option<u32>,
        port: Option<u16>,
        ui: bool,
        default_config: StreamConfig,
    ) -> (r: StreamerConfig)
        ensures
            r.direction == direction,
            r.cpal_config == match buffer_size {
                Some(b) => StreamConfig {
                    channels: default_config.channels,
                    sample_rate: 44100,
                    buffer_size: BufferSize::Fixed(b),
                },
                None => default_config,
            },
            r.buffer_size == match buffer_size {
                Some(b) => b as usize,
                None => 1024usize,
            },
            r.channel_count == r.cpal_config.channels,
            r.send_network_stats == ui,
            r.send_cpal_stats == ui,
            r.selected_channels@ == seq![0usize, 1usize],
            r.port == match port {
                Some(p) => p,
                None => 42069u16,
            },
    {
        let (cpal_config, buf_size) = match buffer_size {
            Some(b) => (
                StreamConfig {
                    channels: default_config.channels,
                    sample_rate: DEFAULT_SAMPLE_RATE,
                    buffer_size: BufferSize::Fixed(b),
                },
                b as usize,
            ),
            None => (default_config, SENDER_BUFFER_SIZE),
        };
        let mut selected_channels: Vec<usize> = Vec::new();
        selected_channels.push(0);
        selected_channels.push(1);
        StreamerConfig {
            direction,
            channel_count: cpal_config.channels,
            cpal_config,
            buffer_size: buf_size,
            send_network_stats: ui,
            send_cpal_stats: ui,
            selected_channels,
            port: match port {
                Some(p) => p,
                None => DEFAULT_PORT,
            },
        }
    }
}

} // verus!
