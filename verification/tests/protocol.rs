use audiopipe::control::{
    remove_handle, tcp_client_opening, tcp_client_response, ClientAction, ControlError,
    ControlRequest, ControlResponse, ServerAction, ServerConnection, StreamRegistry,
    TcpServerHandlerErrors,
};
use audiopipe::device::Direction;
use audiopipe::flow::{UdpReceiverCommands, UdpSenderCommands};
use audiopipe::handshake::{
    choose_stream_port, receiver_command, receiver_packet, sender_command, sender_opening,
    sender_packet, tokio_client_opening, tokio_server_connect, tokio_client_packet, tokio_server_response,
    EndpointPayload, HandshakeAction, TcpCommunication, TcpControlPacket, TcpControlState,
    TokioClientAction, TokioTcpControlPacket, TokioTcpControlState,
};
use audiopipe::mixer::MixerTrackSelector;
use audiopipe::stream::UdpServerHandleError;

#[test]
fn open_then_close_stream() {
    let mut registry: StreamRegistry<&'static str> = StreamRegistry::new();
    let mut conn = ServerConnection::new();
    let sel = MixerTrackSelector::Stereo(0, 1);
    let action = conn.request(Some(ControlRequest::OpenStream(sel)), &mut registry);
    assert!(matches!(action, ServerAction::StartStream(s) if s == sel));
    assert_eq!(registry.len(), 0);

    let granted = conn.stream_started(Ok(("receiver", 30001)), &mut registry, 1024, 44100);
    let id = match granted {
        ServerAction::Respond(ControlResponse::Stream(id, port, bufsize, srate)) => {
            assert_eq!((port, bufsize, srate), (30001, 1024, 44100));
            id
        }
        _ => panic!("expected a stream grant"),
    };
    assert!(registry.contains(id));
    assert_eq!(registry.len(), 1);

    let closed = conn.request(Some(ControlRequest::CloseStream(id)), &mut registry);
    assert!(matches!(closed, ServerAction::StopAndRespond("receiver", ControlResponse::Ack)));
    assert!(!registry.contains(id));

    // a stream can be closed once
    let again = conn.request(Some(ControlRequest::CloseStream(id)), &mut registry);
    assert!(matches!(
        again,
        ServerAction::Respond(ControlResponse::Error(ControlError::StreamIdNotFound))
    ));

    // a failed read ends the connection with the id of the last opened stream
    let gone = conn.request(None, &mut registry);
    assert!(matches!(gone, ServerAction::Close(TcpServerHandlerErrors::StreamClosed(Some(x))) if x == id));
}

#[test]
fn unknown_stream_close_is_refused() {
    let mut registry: StreamRegistry<u8> = StreamRegistry::new();
    registry.insert(7, 1);
    let mut conn = ServerConnection::new();
    let r = conn.request(Some(ControlRequest::CloseStream(8)), &mut registry);
    assert!(matches!(
        r,
        ServerAction::Respond(ControlResponse::Error(ControlError::StreamIdNotFound))
    ));
    assert!(registry.contains(7));
    assert_eq!(remove_handle(&mut registry, 8), Err(ControlError::StreamIdNotFound));
    assert_eq!(remove_handle(&mut registry, 7), Ok(()));
    assert_eq!(registry.len(), 0);
}

#[test]
fn failed_receiver_files_nothing() {
    let mut registry: StreamRegistry<u8> = StreamRegistry::new();
    let mut conn = ServerConnection::new();
    let _ = conn.request(Some(ControlRequest::OpenStream(MixerTrackSelector::Mono(0))), &mut registry);
    let r = conn.stream_started(
        Err(UdpServerHandleError::TokioError("bind failed".to_string())),
        &mut registry,
        512,
        48000,
    );
    assert!(matches!(
        r,
        ServerAction::Close(TcpServerHandlerErrors::AudioStreamError(UdpServerHandleError::TokioError(ref m))) if m == "bind failed"
    ));
    assert_eq!(registry.len(), 0);
    let closed = conn.request(None, &mut registry);
    assert!(matches!(closed, ServerAction::Close(TcpServerHandlerErrors::StreamClosed(None))));
}

#[test]
fn close_keeps_other_streams() {
    let mut registry: StreamRegistry<u32> = StreamRegistry::new();
    registry.insert(1, 10);
    registry.insert(2, 20);
    assert_eq!(registry.remove(1), Some(10));
    assert!(registry.contains(2));
    assert_eq!(registry.remove(2), Some(20));
    assert_eq!(registry.remove(2), None);
}

#[test]
fn control_client_flow() {
    let opening = tcp_client_opening();
    assert_eq!(opening, ControlRequest::OpenStream(MixerTrackSelector::Stereo(0, 1)));
    let sel = MixerTrackSelector::Stereo(0, 1);
    assert_eq!(
        tcp_client_response(ControlResponse::Stream(5, 30000, 1024, 44100), sel),
        ClientAction::StartSender(5, 30000, 1024, 44100, sel)
    );
    assert_eq!(
        tcp_client_response(ControlResponse::Error(ControlError::GeneralError), sel),
        ClientAction::Stop(ControlError::GeneralError)
    );
}

#[test]
fn control_error_messages() {
    assert_eq!(ControlError::GeneralError.message(), "general error");
    assert_eq!(ControlError::StreamIdNotFound.message(), "stream not found");
    assert_eq!(
        ControlError::AudioStreamError(UdpServerHandleError::CastingError).message(),
        "casting error"
    );
    assert_eq!(
        UdpServerHandleError::TokioError("x".to_string()).message(),
        "tokio error: x"
    );
    assert_eq!(UdpServerHandleError::SerializationError.message(), "serialization error");
}

#[test]
fn pooled_handshake() {
    assert_eq!(sender_opening(), TcpControlPacket { state: TcpControlState::Connect });
    let payload = EndpointPayload { channels: 2, buffer_size: 1024 };
    let reply = receiver_packet(
        TcpControlPacket { state: TcpControlState::Connect },
        "127.0.0.1:30005".to_string(),
        2,
        1024,
    );
    let endpoint = TcpControlPacket {
        state: TcpControlState::Endpoint("127.0.0.1:30005".to_string(), payload),
    };
    assert_eq!(reply, HandshakeAction::StartStreamAndRespond(endpoint.clone()));
    assert_eq!(
        sender_packet(endpoint),
        HandshakeAction::StartStream("127.0.0.1:30005".to_string(), payload)
    );
    assert_eq!(
        sender_packet(TcpControlPacket { state: TcpControlState::Disconnect }),
        HandshakeAction::Stop
    );
    assert_eq!(
        receiver_packet(
            TcpControlPacket { state: TcpControlState::Error("x".to_string()) },
            String::new(),
            2,
            1024
        ),
        HandshakeAction::Stop
    );
    let bye = HandshakeAction::SendAndStop(TcpControlPacket { state: TcpControlState::Disconnect });
    assert_eq!(sender_command(UdpSenderCommands::Stop), bye);
    assert_eq!(receiver_command(UdpReceiverCommands::Stop), bye);
    let side = TcpCommunication { direction: Direction::Receiver };
    assert_eq!(side.direction, Direction::Receiver);
}

#[test]
fn stream_port_in_range() {
    for _ in 0..100 {
        let p = choose_stream_port();
        assert!((30000..40000).contains(&p));
    }
}

#[test]
fn task_based_handshake() {
    assert_eq!(
        tokio_client_opening(44100, 512, 2),
        TokioTcpControlPacket { state: TokioTcpControlState::ConnectRequest(44100, 512, 2) }
    );
    let resp = tokio_server_response("id-1".to_string(), 31000, 8);
    assert_eq!(
        resp,
        TokioTcpControlPacket { state: TokioTcpControlState::ConnectResponse("id-1".to_string(), 31000, 8) }
    );
    assert_eq!(tokio_client_packet(resp.clone(), false, 512), TokioClientAction::StartClient(31000, 512, 8));
    assert_eq!(tokio_client_packet(resp, true, 512), TokioClientAction::Ignore);
    assert_eq!(
        tokio_client_packet(TokioTcpControlPacket { state: TokioTcpControlState::Disconnect }, false, 512),
        TokioClientAction::Ignore
    );
}

#[test]
fn control_test_protocol() {
    // the receiver runs with 2 selected channels and a buffer of 1024 samples
    let own_addr = format!("127.0.0.1:{}", choose_stream_port());
    let opening = sender_opening();
    let answer = receiver_packet(opening, own_addr.clone(), 2, 1024);
    let endpoint = match answer {
        HandshakeAction::StartStreamAndRespond(packet) => packet,
        other => panic!("unexpected answer {:?}", other),
    };
    assert_eq!(
        sender_packet(endpoint),
        HandshakeAction::StartStream(own_addr, EndpointPayload { channels: 2, buffer_size: 1024 })
    );
    // stop signals: each side says Disconnect, and the other side ends on it
    let HandshakeAction::SendAndStop(bye) = sender_command(UdpSenderCommands::Stop) else {
        panic!("the sender must say goodbye");
    };
    assert_eq!(receiver_packet(bye, String::new(), 2, 1024), HandshakeAction::Stop);
    let HandshakeAction::SendAndStop(bye) = receiver_command(UdpReceiverCommands::Stop) else {
        panic!("the receiver must say goodbye");
    };
    assert_eq!(sender_packet(bye), HandshakeAction::Stop);
}

#[test]
fn task_based_server_files_the_receiver() {
    let mut registry: StreamRegistry<&'static str> = StreamRegistry::new();
    let id: u128 = 0x67e5504410b1426f9247bb680e5fe0c8;
    let p = tokio_server_connect(&mut registry, id, "receiver", 31000, 2);
    assert_eq!(
        p,
        TokioTcpControlPacket {
            state: TokioTcpControlState::ConnectResponse(
                "67e55044-10b1-426f-9247-bb680e5fe0c8".to_string(),
                31000,
                2
            )
        }
    );
    assert!(registry.contains(id));
    // the answer could not be sent: the receiver is taken out again
    assert_eq!(registry.remove(id), Some("receiver"));
}
