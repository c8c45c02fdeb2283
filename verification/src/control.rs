//! The stream control protocol over TCP.
//!
//! A client asks the server to open an audio stream for a channel selector;
//! the server starts a UDP receiver, files its handle under a fresh
//! connection id and answers with the id, the receiver's port and the
//! stream's buffer size and sample rate. A client may ask to close a stream
//! by id; an unknown id is answered with `StreamIdNotFound`.

use crate::mixer::MixerTrackSelector;
use crate::stream::UdpServerHandleError;
use std::collections::HashMap;
use vstd::prelude::*;

verus! {

broadcast use vstd::std_specs::hash::group_hash_axioms;

/// General failure of the control connection.
#[derive(Debug, Clone, Copy, PartialEq, Eq)]
pub enum ConnectionControlError {
    GeneralError,
}

/// Errors a server reports to a client.
#[derive(Debug, Clone, PartialEq, Eq)]
pub enum ControlError {
    GeneralError,
    StreamIdNotFound,
    AudioStreamError(UdpServerHandleError),
}

impl ControlError {
    /// A human-readable description of the error.
    pub fn message(&self) -> (s: String)
        ensures
            s@ == match self {
                ControlError::GeneralError => "general error"@,
                ControlError::StreamIdNotFound => "stream not found"@,
                ControlError::AudioStreamError(e) => match e {
                    UdpServerHandleError::TokioError(m) => "tokio error: "@ + m@,
                    UdpServerHandleError::CastingError => "casting error"@,
                    UdpServerHandleError::SerializationError => "serialization error"@,
                },
            },
    {
        match self {
            ControlError::GeneralError => String::from_str("general error"),
            ControlError::StreamIdNotFound => String::from_str("stream not found"),
            ControlError::AudioStreamError(e) => e.message(),
        }
    }
}

/// What a client asks of the server.
#[derive(Debug, Clone, Copy, PartialEq, Eq)]
pub enum ControlRequest {
    /// Open a stream into the selected channel(s).
    OpenStream(MixerTrackSelector),
    /// Close the stream with this connection id.
    CloseStream(u128),
}

/// What the server answers.
#[derive(Debug, Clone, PartialEq, Eq)]
pub enum ControlResponse {
    /// A stream was opened: connection id, UDP port, buffer size, sample rate.
    Stream(u128, u16, usize, usize),
    /// The request was carried out.
    Ack,
    Error(ControlError),
}

/// Commands to a running control client.
#[derive(Debug, Clone, Copy, PartialEq, Eq)]
pub enum TcpClientCommands {
    Stop,
}

/// Commands to a running control server.
#[derive(Debug, Clone, Copy, PartialEq, Eq)]
pub enum TcpServerCommands {
    Stop,
}

/// Why a control connection on the server ended.
#[derive(Debug, Clone, PartialEq, Eq)]
pub enum TcpServerHandlerErrors {
    /// The audio receiver for an opened stream could not be started.
    AudioStreamError(UdpServerHandleError),
    /// The client went away or sent something unreadable; the id of the
    /// stream the connection last opened, if any.
    StreamClosed(Option<u128>),
    CleanExit,
}

/// A fresh connection id: `uuid::Uuid::new_v4()` as its 128-bit value. It is
/// random, so nothing is promised of it.
#[verifier::external_body]
fn new_connection_id() -> (id: u128) {
    uuid::Uuid::new_v4().as_u128()
}

/// An id under which no stream is filed: the first of 0, 1, 2, ... that is
/// free. Of the `len + 1` smallest ids one always is.
fn free_id<H>(registry: &StreamRegistry<H>) -> (id: u128)
    ensures
        !registry@.contains_key(id),
{
    let n = registry.len();
    let mut k: u128 = 0;
    let ghost mut tried: Set<u128> = Set::empty();
    proof {
        assert(registry.handles@.dom().finite());
    }
    while registry.contains(k)
        invariant
            n == registry@.len(),
            registry@.dom().finite(),
            tried.finite(),
            tried.len() == k,
            tried.subset_of(registry@.dom()),
            forall|x: u128| tried.contains(x) ==> x < k,
            k <= n,
        decreases n - k,
    {
        proof {
            assert(!tried.contains(k));
            let grown = tried.insert(k);
            vstd::set_lib::lemma_len_subset(grown, registry@.dom());
            tried = grown;
        }
        k = k + 1;
    }
    k
}

/// The lower-case hexadecimal digit of a nibble (0 to 15).
pub open spec fn hex_digit(n: int) -> char {
    if n < 10 {
        (48 + n) as char
    } else {
        (87 + n) as char
    }
}

/// The `d`-th of the 32 hexadecimal digits of `id`, most significant first.
pub open spec fn id_nibble(id: u128, d: int) -> int {
    ((id >> ((124 - 4 * d) as u128)) & 0xf) as int
}

/// The text form of a connection id: its 32 lower-case hexadecimal digits,
/// most significant first, in groups of 8, 4, 4, 4 and 12 joined by hyphens.
pub open spec fn id_text(id: u128) -> Seq<char> {
    Seq::new(
        36,
        |p: int|
            if p == 8 || p == 13 || p == 18 || p == 23 {
                '-'
            } else {
                let d = if p < 8 {
                    p
                } else if p < 13 {
                    p - 1
                } else if p < 18 {
                    p - 2
                } else if p < 23 {
                    p - 3
                } else {
                    p - 4
                };
                hex_digit(id_nibble(id, d))
            },
    )
}

/// `uuid::Uuid::from_u128(id).to_string()`: the hyphenated lower-case text
/// of the id, its 16 bytes taken most significant first (see `id_text`).
#[verifier::external_body]
pub(crate) fn connection_id_text(id: u128) -> (s: String)
    ensures
        s@ == id_text(id),
{
    uuid::Uuid::from_u128(id).to_string()
}

/// The open streams of a server, by connection id.
pub struct StreamRegistry<H> {
    handles: HashMap<u128, H>,
}

impl<H> View for StreamRegistry<H> {
    type V = Map<u128, H>;

    closed spec fn view(&self) -> Map<u128, H> {
        self.handles@
    }
}

impl<H> StreamRegistry<H> {
    /// No open streams.
    pub fn new() -> (r: Self)
        ensures
            r@ == Map::<u128, H>::empty(),
    {
        StreamRegistry { handles: HashMap::new() }
    }

    /// The number of open streams.
    pub fn len(&self) -> (r: usize)
        ensures
            r == self@.len(),
    {
        self.handles.len()
    }

    /// Whether a stream with this id is open.
    pub fn contains(&self, id: u128) -> (r: bool)
        ensures
            r == self@.contains_key(id),
    {
        self.handles.contains_key(&id)
    }

    /// Files `handle` under `id`.
    pub fn insert(&mut self, id: u128, handle: H)
        ensures
            final(self)@ == old(self)@.insert(id, handle),
    {
        self.handles.insert(id, handle);
    }

    /// Takes the stream filed under `id` out of the registry.
    pub fn remove(&mut self, id: u128) -> (r: Option<H>)
        ensures
            final(self)@ == old(self)@.remove(id),
            old(self)@.contains_key(id) ==> r == Some(old(self)@[id]),
            !old(self)@.contains_key(id) ==> r is None,
    {
        self.handles.remove(&id)
    }
}

/// Drops the stream filed under `id`: `Ok` if there was one, else
/// `StreamIdNotFound`.
pub fn remove_handle<H>(handles: &mut StreamRegistry<H>, id: u128) -> (r: Result<(), ControlError>)
    ensures
        final(handles)@ == old(handles)@.remove(id),
        old(handles)@.contains_key(id) ==> r is Ok,
        !old(handles)@.contains_key(id) ==> r == Err::<(), ControlError>(ControlError::StreamIdNotFound),
{
    match handles.remove(id) {
        Some(_) => Ok(()),
        None => Err(ControlError::StreamIdNotFound),
    }
}

/// What the connection handler is to do next.
pub enum ServerAction<H> {
    /// Start an audio receiver for this selector and report the outcome
    /// with `ServerConnection::stream_started`.
    StartStream(MixerTrackSelector),
    /// Stop this receiver, then send the response.
    StopAndRespond(H, ControlResponse),
    /// Send the response.
    Respond(ControlResponse),
    /// End the connection.
    Close(TcpServerHandlerErrors),
}

/// The state of one control connection on the server.
pub struct ServerConnection {
    current_id: Option<u128>,
    pending_id: Option<u128>,
}

/// The answer to closing stream `id` given the open streams, and the open
/// streams afterwards.
pub open spec fn close_outcome<H>(open: Map<u128, H>, id: u128) -> (Map<u128, H>, ServerAction<H>) {
    if open.contains_key(id) {
        (open.remove(id), ServerAction::StopAndRespond(open[id], ControlResponse::Ack))
    } else {
        (open, ServerAction::Respond(ControlResponse::Error(ControlError::StreamIdNotFound)))
    }
}

/// The answer once a receiver for a stream being opened under `id` has
/// started (or failed to), and the open streams afterwards.
pub open spec fn started_outcome<H>(
    open: Map<u128, H>,
    id: u128,
    started: Result<(H, u16), UdpServerHandleError>,
    buffer_size: usize,
    sample_rate: usize,
) -> (Map<u128, H>, ServerAction<H>) {
    match started {
        Ok((h, port)) => (
            open.insert(id, h),
            ServerAction::Respond(ControlResponse::Stream(id, port, buffer_size, sample_rate)),
        ),
        Err(e) => (open, ServerAction::Close(TcpServerHandlerErrors::AudioStreamError(e))),
    }
}

impl ServerConnection {
    /// The id of the stream this connection opened last.
    pub closed spec fn current(&self) -> Option<u128> {
        self.current_id
    }

    /// The id reserved for the stream being opened, if one is.
    pub closed spec fn pending(&self) -> Option<u128> {
        self.pending_id
    }

    /// A fresh connection: no stream opened yet.
    pub fn new() -> (r: Self)
        ensures
            r.current() is None,
            r.pending() is None,
    {
        ServerConnection { current_id: None, pending_id: None }
    }

    /// Handles what was read from the client: a request, or `None` when the
    /// read failed or the packet was unreadable. Opening reserves a fresh id,
    /// one under which no stream is filed, and asks for a receiver; closing takes the stream out of the registry
    /// and answers `Ack`, or answers `StreamIdNotFound` for an unknown id; a
    /// failed read ends the connection with the id of the last opened
    /// stream.
    pub fn request<H>(&mut self, request: Option<ControlRequest>, registry: &mut StreamRegistry<H>) -> (r:
        ServerAction<H>)
        ensures
            final(self).current() == old(self).current(),
            match request {
                Some(ControlRequest::OpenStream(sel)) => {
                    &&& r == ServerAction::<H>::StartStream(sel)
                    &&& final(self).pending() is Some
                    &&& !old(registry)@.contains_key(final(self).pending()->0)
                    &&& final(registry)@ == old(registry)@
                },
                Some(ControlRequest::CloseStream(id)) => {
                    &&& (final(registry)@, r) == close_outcome(old(registry)@, id)
                    &&& final(self).pending() == old(self).pending()
                },
                None => {
                    &&& r == ServerAction::<H>::Close(
                        TcpServerHandlerErrors::StreamClosed(old(self).current()),
                    )
                    &&& final(registry)@ == old(registry)@
                    &&& final(self).pending() == old(self).pending()
                },
            },
    {
        match request {
            Some(ControlRequest::OpenStream(sel)) => {
                let drawn = new_connection_id();
                // a drawn id that is already taken (which a random draw all but
                // never gives) is replaced by a free one
                let id = if registry.contains(drawn) {
                    free_id(registry)
                } else {
                    drawn
                };
                self.pending_id = Some(id);
                ServerAction::StartStream(sel)
            },
            Some(ControlRequest::CloseStream(id)) => match registry.remove(id) {
                Some(h) => ServerAction::StopAndRespond(h, ControlResponse::Ack),
                None => ServerAction::Respond(ControlResponse::Error(ControlError::StreamIdNotFound)),
            },
            None => ServerAction::Close(TcpServerHandlerErrors::StreamClosed(self.current_id)),
        }
    }

    /// Reports the outcome of starting the receiver asked for by
    /// `StartStream`: a started receiver (with its UDP port) is filed under
    /// the reserved id, which becomes the connection's current stream, and
    /// the client is told the id, port, buffer size and sample rate; a
    /// failure ends the connection.
    pub fn stream_started<H>(
        &mut self,
        started: Result<(H, u16), UdpServerHandleError>,
        registry: &mut StreamRegistry<H>,
        buffer_size: usize,
        sample_rate: usize,
    ) -> (r: ServerAction<H>)
        requires
            old(self).pending() is Some,
        ensures
            (final(registry)@, r) == started_outcome(
                old(registry)@,
                old(self).pending()->0,
                started,
                buffer_size,
                sample_rate,
            ),
            final(self).pending() is None,
            started is Ok ==> final(self).current() == old(self).pending(),
            started is Err ==> final(self).current() == old(self).current(),
    {
        let id = match self.pending_id {
            Some(id) => id,
            None => 0,
        };
        self.pending_id = None;
        match started {
            Ok((h, port)) => {
                registry.insert(id, h);
                self.current_id = Some(id);
                ServerAction::Respond(ControlResponse::Stream(id, port, buffer_size, sample_rate))
            },
            Err(e) => ServerAction::Close(TcpServerHandlerErrors::AudioStreamError(e)),
        }
    }
}

/// What the control client is to do with a response.
#[derive(Debug, Clone, PartialEq, Eq)]
pub enum ClientAction {
    /// Start sending audio to this UDP port of the server, under this
    /// connection id, with this buffer size, sample rate and selector.
    StartSender(u128, u16, usize, usize, MixerTrackSelector),
    /// The server reported an error: stop.
    Stop(ControlError),
}

/// The request a control client opens with: a stereo stream into the
/// server's first two channels.
pub fn tcp_client_opening() -> (r: ControlRequest)
    ensures
        r == ControlRequest::OpenStream(MixerTrackSelector::Stereo(0, 1)),
{
    ControlRequest::OpenStream(MixerTrackSelector::Stereo(0, 1))
}

/// The control client's answer to a response: start sending on a stream
/// grant, stop on an error. (A bare `Ack` is not a response a client
/// handles.)
pub fn tcp_client_response(response: ControlResponse, sel: MixerTrackSelector) -> (r: ClientAction)
    requires
        !(response is Ack),
    ensures
        match response {
            ControlResponse::Stream(id, port, bufsize, srate) => r == ClientAction::StartSender(
                id,
                port,
                bufsize,
                srate,
                sel,
            ),
            ControlResponse::Error(e) => r == ClientAction::Stop(e),
            ControlResponse::Ack => false,
        },
{
    match response {
        ControlResponse::Stream(id, port, bufsize, srate) => ClientAction::StartSender(
            id,
            port,
            bufsize,
            srate,
            sel,
        ),
        ControlResponse::Error(e) => ClientAction::Stop(e),
        ControlResponse::Ack => ClientAction::Stop(ControlError::GeneralError),
    }
}

/// A stream opened under `id` can be closed by that id: the close hands back
/// the receiver that was filed and is acknowledged, and afterwards no stream
/// is filed under `id`.
pub proof fn law_open_then_close<H>(
    open: Map<u128, H>,
    id: u128,
    handle: H,
    port: u16,
    buffer_size: usize,
    sample_rate: usize,
)
    ensures
        ({
            let opened = started_outcome(open, id, Ok((handle, port)), buffer_size, sample_rate);
            let closed = close_outcome(opened.0, id);
            &&& opened.1 == ServerAction::<H>::Respond(
                ControlResponse::Stream(id, port, buffer_size, sample_rate),
            )
            &&& opened.0.contains_key(id)
            &&& closed.1 == ServerAction::StopAndRespond(handle, ControlResponse::Ack)
            &&& closed.0 == open.remove(id)
            &&& !closed.0.contains_key(id)
        }),
{
    let opened = started_outcome(open, id, Ok((handle, port)), buffer_size, sample_rate);
    assert(opened.0.remove(id) =~= open.remove(id));
}

/// Closing an id under which no stream is open is refused with
/// `StreamIdNotFound` and changes nothing.
pub proof fn law_unknown_close_refused<H>(open: Map<u128, H>, id: u128)
    requires
        !open.contains_key(id),
    ensures
        close_outcome(open, id) == (
            open,
            ServerAction::<H>::Respond(ControlResponse::Error(ControlError::StreamIdNotFound)),
        ),
{
}

/// A stream can be closed once: closing it again is refused.
pub proof fn law_close_twice_refused<H>(open: Map<u128, H>, id: u128)
    ensures
        close_outcome(close_outcome(open, id).0, id).1 == ServerAction::<H>::Respond(
            ControlResponse::Error(ControlError::StreamIdNotFound),
        ),
{
}

/// Closing a stream leaves every other open stream as it was.
pub proof fn law_close_keeps_others<H>(open: Map<u128, H>, id: u128, other: u128)
    requires
        other != id,
        open.contains_key(other),
    ensures
        close_outcome(open, id).0.contains_key(other),
        close_outcome(open, id).0[other] == open[other],
{
}

/// Opening never replaces a stream: a receiver filed under an id that no
/// open stream holds (as `ServerConnection::request` reserves it) adds one
/// open stream and keeps every other one as it was.
pub proof fn law_open_adds_a_stream<H>(
    open: Map<u128, H>,
    id: u128,
    handle: H,
    port: u16,
    buffer_size: usize,
    sample_rate: usize,
)
    requires
        open.dom().finite(),
        !open.contains_key(id),
    ensures
        ({
            let opened = started_outcome(open, id, Ok((handle, port)), buffer_size, sample_rate).0;
            &&& opened.len() == open.len() + 1
            &&& opened[id] == handle
            &&& forall|other: u128|
                #![trigger open.contains_key(other)]
                open.contains_key(other) ==> opened.contains_key(other) && opened[other]
                    == open[other]
        }),
{
}

/// A receiver that fails to start files nothing.
pub proof fn law_failed_start_files_nothing<H>(
    open: Map<u128, H>,
    id: u128,
    e: UdpServerHandleError,
    buffer_size: usize,
    sample_rate: usize,
)
    ensures
        started_outcome(open, id, Err(e), buffer_size, sample_rate) == (
            open,
            ServerAction::<H>::Close(TcpServerHandlerErrors::AudioStreamError(e)),
        ),
{
}

} // verus!
