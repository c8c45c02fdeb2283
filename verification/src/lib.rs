//! Verified core of an audio-over-network streamer: per-channel sample
//! mixers, interleaved channel splitting, device configuration selection and
//! the stream control protocol.

pub mod ring;
pub mod mixer;
pub mod mixer_laws;
pub mod splitter;
pub mod text;
pub mod device;
pub mod cast;
pub mod clock;
pub mod stream;
pub mod control;
pub mod streamer;
pub mod sender;
pub mod receiver;
pub mod flow;
pub mod handshake;
pub mod cli;
pub mod tui;
