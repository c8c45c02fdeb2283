//! The TCP control handshakes of the pooled and the task-based streamers.
//!
//! Pooled: the sender opens with `Connect`; the receiver starts its stream
//! and answers with the stream's endpoint; either side ends the session with
//! `Disconnect`. Task-based: the client opens with a connect request naming
//! its sample rate, buffer size and channel count; the server starts a
//! receiver and answers with the connection id, port and its channel count.

use crate::control::{connection_id_text, id_text, StreamRegistry};
use crate::device::Direction;
use crate::flow::{UdpReceiverCommands, UdpSenderCommands};
use rand::Rng;
use vstd::prelude::*;

verus! {

/// The buffer layout a receiver announces with its endpoint.
#[derive(Debug, Clone, Copy, PartialEq, Eq)]
pub struct EndpointPayload {
    pub channels: u16,
    pub buffer_size: usize,
}

/// The kinds of control packet of the pooled streamer.
#[derive(Debug, Clone, PartialEq, Eq)]
pub enum TcpControlState {
    Connect,
    /// Sample rate, buffer size, channel count.
    ConnectRequest(u32, u32, usize),
    ConnectResponse(String, u16, usize),
    Disconnect,
    Error(String),
    /// The address of a started stream, and its layout.
    Endpoint(String, EndpointPayload),
    Ping,
}

/// A control packet of the pooled streamer.
#[derive(Debug, Clone, PartialEq, Eq)]
pub struct TcpControlPacket {
    pub state: TcpControlState,
}

/// The control endpoint of one side of a stream.
#[derive(Debug, Clone, Copy, PartialEq, Eq)]
pub struct TcpCommunication {
    pub direction: Direction,
}

/// What a side of the pooled handshake is to do next.
#[derive(Debug, Clone, PartialEq, Eq)]
pub enum HandshakeAction {
    /// Send this packet and end the session.
    SendAndStop(TcpControlPacket),
    /// (Sender) start streaming to this address.
    StartStream(String, EndpointPayload),
    /// (Receiver) start the stream, then send this packet.
    StartStreamAndRespond(TcpControlPacket),
    /// End the session.
    Stop,
}

/// The packet a sender opens the session with.
pub fn sender_opening() -> (p: TcpControlPacket)
    ensures
        p == (TcpControlPacket { state: TcpControlState::Connect }),
{
    TcpControlPacket { state: TcpControlState::Connect }
}

/// A sender told to stop says `Disconnect` and ends the session.
pub fn sender_command(cmd: UdpSenderCommands) -> (a: HandshakeAction)
    ensures
        a == HandshakeAction::SendAndStop(TcpControlPacket { state: TcpControlState::Disconnect }),
{
    match cmd {
        UdpSenderCommands::Stop => HandshakeAction::SendAndStop(
            TcpControlPacket { state: TcpControlState::Disconnect },
        ),
    }
}

/// A sender's answer to a packet: stream to an announced endpoint, end the
/// session on `Disconnect`. (No other packet is one a sender handles.)
pub fn sender_packet(packet: TcpControlPacket) -> (a: HandshakeAction)
    requires
        packet.state is Endpoint || packet.state is Disconnect,
    ensures
        match packet.state {
            TcpControlState::Endpoint(addr, payload) => a == HandshakeAction::StartStream(addr, payload),
            _ => a == HandshakeAction::Stop,
        },
{
    match packet.state {
        TcpControlState::Endpoint(addr, payload) => HandshakeAction::StartStream(addr, payload),
        _ => HandshakeAction::Stop,
    }
}

/// A receiver told to stop says `Disconnect` and ends the session.
pub fn receiver_command(cmd: UdpReceiverCommands) -> (a: HandshakeAction)
    ensures
        a == HandshakeAction::SendAndStop(TcpControlPacket { state: TcpControlState::Disconnect }),
{
    match cmd {
        UdpReceiverCommands::Stop => HandshakeAction::SendAndStop(
            TcpControlPacket { state: TcpControlState::Disconnect },
        ),
    }
}

/// A receiver's answer to a packet: on `Connect`, start the stream and
/// announce its address `own_addr` with the number of selected channels and
/// the buffer size; end the session on `Disconnect` or an error. (No other
/// packet is one a receiver handles.)
pub fn receiver_packet(
    packet: TcpControlPacket,
    own_addr: String,
    selected_channels: usize,
    buffer_size: usize,
) -> (a: HandshakeAction)
    requires
        packet.state is Connect || packet.state is Disconnect || packet.state is Error,
    ensures
        packet.state is Connect ==> a == HandshakeAction::StartStreamAndRespond(
            TcpControlPacket {
                state: TcpControlState::Endpoint(
                    own_addr,
                    EndpointPayload { channels: selected_channels as u16, buffer_size },
                ),
            },
        ),
        !(packet.state is Connect) ==> a == HandshakeAction::Stop,
{
    match packet.state {
        TcpControlState::Connect => HandshakeAction::StartStreamAndRespond(
            TcpControlPacket {
                state: TcpControlState::Endpoint(
                    own_addr,
                    EndpointPayload { channels: selected_channels as u16, buffer_size },
                ),
            },
        ),
        _ => HandshakeAction::Stop,
    }
}

/// `rand::rng().random_range(lo..hi)`: a random number from `lo` up to (not
/// including) `hi`; the range must not be empty.
#[verifier::external_body]
fn random_in(lo: u16, hi: u16) -> (p: u16)
    requires
        lo < hi,
    ensures
        lo <= p < hi,
{
    rand::rng().random_range(lo..hi)
}

/// The port a receiver announces its stream on: a random one from 30000 up
/// to (not including) 40000.
pub fn choose_stream_port() -> (p: u16)
    ensures
        30000 <= p < 40000,
{
    random_in(30000, 40000)
}

/// The kinds of control packet of the task-based streamer.
#[derive(Debug, Clone, PartialEq, Eq)]
pub enum TokioTcpControlState {
    /// Sample rate, buffer size, channel count.
    ConnectRequest(u32, u32, usize),
    /// Connection id, port, channel count.
    ConnectResponse(String, u16, usize),
    Disconnect,
    Error(String),
}

/// A control packet of the task-based streamer.
#[derive(Debug, Clone, PartialEq, Eq)]
pub struct TokioTcpControlPacket {
    pub state: TokioTcpControlState,
}

/// The request a task-based client opens with.
pub fn tokio_client_opening(sample_rate: u32, max_buffer_size: u32, channel_count: usize) -> (p:
    TokioTcpControlPacket)
    ensures
        p == (TokioTcpControlPacket {
            state: TokioTcpControlState::ConnectRequest(sample_rate, max_buffer_size, channel_count),
        }),
{
    TokioTcpControlPacket {
        state: TokioTcpControlState::ConnectRequest(sample_rate, max_buffer_size, channel_count),
    }
}

/// What a task-based client does with a packet.
#[derive(Debug, Clone, Copy, PartialEq, Eq)]
pub enum TokioClientAction {
    /// Start streaming to this port with this buffer size and channel count.
    StartClient(u16, u32, usize),
    /// Nothing.
    Ignore,
}

/// A task-based client's answer: the first connect response starts the
/// stream (to the granted port, with its own buffer size and the granted
/// channel count); a further one, or a disconnect, changes nothing. (Requests
/// and errors are not packets a client handles.)
pub fn tokio_client_packet(packet: TokioTcpControlPacket, streaming: bool, max_buffer_size: u32) -> (a:
    TokioClientAction)
    requires
        packet.state is ConnectResponse || packet.state is Disconnect,
    ensures
        match packet.state {
            TokioTcpControlState::ConnectResponse(_, port, chcount) => if streaming {
                a == TokioClientAction::Ignore
            } else {
                a == TokioClientAction::StartClient(port, max_buffer_size, chcount)
            },
            _ => a == TokioClientAction::Ignore,
        },
{
    match packet.state {
        TokioTcpControlState::ConnectResponse(_, port, chcount) => if streaming {
            TokioClientAction::Ignore
        } else {
            TokioClientAction::StartClient(port, max_buffer_size, chcount)
        },
        _ => TokioClientAction::Ignore,
    }
}

/// A task-based server's answer to a connect request once the receiver is
/// up: the connection id, the receiver's port and the server's channel
/// count.
pub fn tokio_server_response(connection_id: String, port: u16, channel_count: usize) -> (p:
    TokioTcpControlPacket)
    ensures
        p == (TokioTcpControlPacket {
            state: TokioTcpControlState::ConnectResponse(connection_id, port, channel_count),
        }),
{
    TokioTcpControlPacket {
        state: TokioTcpControlState::ConnectResponse(connection_id, port, channel_count),
    }
}

/// A task-based server's step for a connect request once the receiver is
/// up: the receiver is filed under the fresh connection `id`, and the answer
/// names the id in its text form, the receiver's port and the server's
/// channel count. (Should sending the answer fail, the server takes the
/// receiver out again with `StreamRegistry::remove`.)
pub fn tokio_server_connect<H>(
    registry: &mut StreamRegistry<H>,
    id: u128,
    handle: H,
    port: u16,
    channel_count: usize,
) -> (p: TokioTcpControlPacket)
    ensures
        final(registry)@ == old(registry)@.insert(id, handle),
        p.state matches TokioTcpControlState::ConnectResponse(text, answered_port, answered_channels)
            && text@ == id_text(id) && answered_port == port && answered_channels == channel_count,
{
    registry.insert(id, handle);
    tokio_server_response(connection_id_text(id), port, channel_count)
}

} // verus!
