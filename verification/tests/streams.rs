use vaiexia_obfs::client::{
    pump, stream_step, subscribe_envelope, ClientAction, ClientState, ConnectionState, PumpAction,
    PumpEvent, RequestError, StreamInput, StreamStep,
};
use vaiexia_obfs::envelope::{DiagnosticCode, Event, Request, Response};
use vaiexia_obfs::error::IoKind;
use vaiexia_obfs::framing::{
    read_frame, recv_frame, recv_raw, send_frame, write_frame, FrameIn, FramedReader, RawAction,
    RawEvent, RecvAction, RecvEvent, SendAction, SendEvent, MAX_FRAME,
};
use vaiexia_obfs::handshake_io::{
    client_handshake, client_handshake_in_place, server_handshake, server_handshake_in_place,
    Fault, HandshakeIo, HandshakeStep,
};
use vaiexia_obfs::server::{
    forward_step, handle_connection, handle_subscribe, handle_subscribe_dgram, inbound, ConnAction,
    ConnEvent, ConnState, ForwardStep, Inbound, Received, SubscribeStep,
};
use vaiexia_obfs::udp::client::{
    datagram_event, server_addr, udp_pump, RequestAction, RequestEvent, RequestInFlight, UdpPumpAction,
    UdpPumpEvent,
};
use vaiexia_obfs::udp::dataplane::{DataChannel, Opened};
use vaiexia_obfs::udp::peer::PeerAddr;
use vaiexia_obfs::udp::server::{answer, serve_record, Admission, ServerStep, UdpServer};
use vaiexia_obfs::{Envelope, ObfsError};

fn request(id: &str) -> Request<u8> {
    Request { id: id.to_string(), body: 1 }
}

fn response(id: &str) -> Response<u8> {
    Response { id: id.to_string(), body: 2 }
}

fn event(topic: &str, seq: u64) -> Event<u8> {
    Event { topic: topic.to_string(), seq, body: 3 }
}

fn subscribe(topic: &str, capability: Option<&str>) -> Envelope<u8> {
    subscribe_envelope(topic.to_string(), capability.map(|c| c.to_string()))
}

// Errors

#[test]
fn errors_describe_themselves() {
    let cases = [
        (ObfsError::Closed, "connection closed"),
        (ObfsError::FrameTooLarge(20, 10), "frame too large: 20 bytes (max 10)"),
        (ObfsError::Wire("w".to_string()), "wire error: w"),
        (ObfsError::Io(IoKind::Other, "i".to_string()), "IO error: i"),
        (ObfsError::Serde("s".to_string()), "serialization error: s"),
        (ObfsError::Core("c".to_string()), "core error: c"),
        (ObfsError::HandshakeFailed("h".to_string()), "handshake failed: h"),
    ];
    for (e, text) in cases {
        assert_eq!(e.message(), text);
    }
}

// Framing

#[test]
fn framed_writer_reader_vanilla_roundtrip() {
    let wire = write_frame(b"record").unwrap();
    assert_eq!(wire, b"\x00\x00\x00\x06record".to_vec());
    let mut buf = wire;
    assert!(matches!(read_frame(&mut buf), FrameIn::Record(r) if r == b"record"));
    assert!(buf.is_empty());
}

#[test]
fn partial_reads_reassemble_vanilla() {
    let mut stream = write_frame(b"ping").unwrap();
    stream.extend_from_slice(&write_frame(b"pong").unwrap());
    let mut reader = FramedReader::new();
    let mut records = Vec::new();
    for byte in stream {
        reader.feed(&[byte]);
        if let FrameIn::Record(r) = reader.next_frame() {
            records.push(r);
        }
    }
    assert_eq!(records, vec![b"ping".to_vec(), b"pong".to_vec()]);
    assert!(reader.into_buffer().is_empty());
}

/// Receives plain frames from chunks until the stream fails.
fn receive_all(chunks: &[&[u8]]) -> (Vec<Vec<u8>>, ObfsError, Vec<u8>) {
    let mut buf = Vec::new();
    let mut records = Vec::new();
    let mut next = 0;
    let mut event = RawEvent::Unframed(read_frame(&mut buf));
    loop {
        event = match recv_raw(&mut buf, event) {
            RawAction::Unframe => RawEvent::Unframed(read_frame(&mut buf)),
            RawAction::Read => {
                let chunk = chunks.get(next).map(|c| c.to_vec()).unwrap_or_default();
                next += 1;
                RawEvent::Read(chunk)
            }
            RawAction::Return(r) => {
                records.push(r);
                RawEvent::Unframed(read_frame(&mut buf))
            }
            RawAction::Fail(e) => return (records, e, buf),
        };
    }
}

#[test]
fn any_chunks_reassemble() {
    let mut stream = write_frame(b"first").unwrap();
    stream.extend_from_slice(&write_frame(b"second").unwrap());
    for size in 1..=stream.len() {
        let chunks: Vec<&[u8]> = stream.chunks(size).collect();
        let (records, end, buf) = receive_all(&chunks);
        assert_eq!(records, vec![b"first".to_vec(), b"second".to_vec()]);
        assert!(matches!(end, ObfsError::Closed));
        assert!(buf.is_empty());
    }
    let cut = stream.len() - 2;
    let (records, end, buf) = receive_all(&[&stream[..cut]]);
    assert_eq!(records, vec![b"first".to_vec()]);
    assert!(matches!(end, ObfsError::Io(IoKind::UnexpectedEof, _)));
    assert_eq!(buf.len(), 8);
}

#[test]
fn bytes_behind_the_handshake_are_kept() {
    let mut stream = vec![0xAA; 17];
    stream.extend_from_slice(&write_frame(b"one").unwrap());
    stream.extend_from_slice(&write_frame(b"three").unwrap());
    stream.extend_from_slice(b"behind");
    let mut hs = server_handshake_in_place(17);
    let mut reader = FramedReader::new();
    let mut received = Vec::new();
    let mut position = 0;
    while let Some(step) = hs.next() {
        match step {
            HandshakeStep::SkipPreamble(n) => position += n,
            HandshakeStep::ReceiveMessage => loop {
                match reader.next_frame() {
                    FrameIn::Record(r) => {
                        received.push(r);
                        break;
                    }
                    _ => {
                        let end = (position + 5).min(stream.len());
                        reader.feed(&stream[position..end]);
                        position = end;
                    }
                }
            },
            _ => {}
        }
        hs.advance(Ok(())).unwrap();
    }
    assert_eq!(received, vec![b"one".to_vec(), b"three".to_vec()]);
    let mut left = reader.into_buffer();
    left.extend_from_slice(&stream[position..]);
    assert_eq!(left, b"behind");
}

#[test]
fn bytes_behind_a_frame_are_kept() {
    let mut stream = write_frame(b"").unwrap();
    stream.extend_from_slice(b"\x00\x00");
    let mut reader = FramedReader::with_leftover(stream);
    assert!(matches!(reader.next_frame(), FrameIn::Record(r) if r.is_empty()));
    assert!(matches!(reader.next_frame(), FrameIn::NeedMore));
    assert_eq!(reader.into_buffer(), vec![0, 0]);
}

#[test]
fn frames_over_the_limit_are_refused() {
    let big = vec![0; MAX_FRAME + 1];
    assert!(matches!(
        write_frame(&big),
        Err(ObfsError::FrameTooLarge(n, m)) if n == MAX_FRAME + 1 && m == 16 * 1024 * 1024
    ));
    assert!(write_frame(&big[1..]).is_ok());
    let mut buf = vec![0x01, 0x00, 0x00, 0x01];
    assert!(matches!(read_frame(&mut buf), FrameIn::Invalid));
    let mut buf = vec![0x01, 0x00, 0x00, 0x00];
    assert!(matches!(read_frame(&mut buf), FrameIn::NeedMore));
}

#[test]
fn eof_returns_closed() {
    let mut buf = Vec::new();
    assert!(matches!(
        recv_raw(&mut buf, RawEvent::Read(vec![])),
        RawAction::Fail(ObfsError::Closed)
    ));
    let mut buf = vec![0];
    match recv_raw(&mut buf, RawEvent::Read(vec![])) {
        RawAction::Fail(ObfsError::Io(IoKind::UnexpectedEof, text)) => {
            assert_eq!(text, "EOF mid-frame")
        }
        _ => panic!("expected an end inside a frame"),
    }
}

#[test]
fn reception_goes_step_by_step() {
    let mut buf = vec![1];
    assert!(matches!(
        recv_raw(&mut buf, RawEvent::Unframed(FrameIn::NeedMore)),
        RawAction::Read
    ));
    assert!(matches!(recv_raw(&mut buf, RawEvent::Read(vec![2, 3])), RawAction::Unframe));
    assert_eq!(buf, vec![1, 2, 3]);
    let record = RecvEvent::<u8>::Raw(RawEvent::Unframed(FrameIn::Record(vec![9])));
    assert!(matches!(recv_frame(&mut buf, record), RecvAction::Decrypt(r) if r == vec![9]));
    let opened = RecvEvent::<u8>::Decrypted(Ok(vec![8]));
    assert!(matches!(recv_frame(&mut buf, opened), RecvAction::Parse(p) if p == vec![8]));
    let parsed = RecvEvent::<u8>::Parsed(Ok(Envelope::Ping));
    assert!(matches!(recv_frame(&mut buf, parsed), RecvAction::Return(Envelope::Ping)));
}

#[test]
fn reception_errors_are_told_apart() {
    let mut buf = vec![];
    let invalid = RecvEvent::<u8>::Raw(RawEvent::Unframed(FrameIn::Invalid));
    match recv_frame(&mut buf, invalid) {
        RecvAction::Fail(ObfsError::Io(IoKind::InvalidData, t)) => assert_eq!(t, "invalid framing"),
        _ => panic!("expected invalid framing"),
    }
    let forged = RecvEvent::<u8>::Decrypted(Err("tag".to_string()));
    assert!(matches!(recv_frame(&mut buf, forged), RecvAction::Fail(ObfsError::Wire(t)) if t == "tag"));
    let junk = RecvEvent::<u8>::Parsed(Err("json".to_string()));
    assert!(matches!(recv_frame(&mut buf, junk), RecvAction::Fail(ObfsError::Serde(t)) if t == "json"));
    let reset = RecvEvent::<u8>::Raw(RawEvent::ReadFailed(IoKind::ConnectionReset, "reset".to_string()));
    assert!(matches!(
        recv_frame(&mut buf, reset),
        RecvAction::Fail(ObfsError::Io(IoKind::ConnectionReset, t)) if t == "reset"
    ));
}

#[test]
fn sending_goes_step_by_step() {
    assert!(matches!(send_frame(SendEvent::Serialised(Ok(vec![1]))), SendAction::Encrypt(p) if p == vec![1]));
    assert!(matches!(send_frame(SendEvent::Encrypted(Ok(vec![2]))), SendAction::Frame(r) if r == vec![2]));
    assert!(matches!(send_frame(SendEvent::Framed(Ok(vec![3]))), SendAction::Write(w) if w == vec![3]));
    assert!(matches!(send_frame(SendEvent::Written), SendAction::Done));
    let failed = |e: SendEvent| match send_frame(e) {
        SendAction::Fail(e) => e.message(),
        _ => String::new(),
    };
    assert_eq!(failed(SendEvent::Serialised(Err("x".to_string()))), "serialization error: x");
    assert_eq!(failed(SendEvent::Encrypted(Err("x".to_string()))), "wire error: x");
    assert_eq!(failed(SendEvent::Framed(Err("x".to_string()))), "wire error: x");
    assert_eq!(failed(SendEvent::WriteFailed(IoKind::Other, "x".to_string())), "IO error: x");
}

// Handshake

fn steps_of(mut hs: HandshakeIo) -> Vec<HandshakeStep> {
    let mut steps = Vec::new();
    while let Some(step) = hs.next() {
        steps.push(step);
        hs.advance(Ok(())).unwrap();
    }
    steps
}

#[test]
fn handshake_completes() {
    let client = steps_of(client_handshake());
    let server = steps_of(server_handshake());
    assert_eq!(
        client,
        vec![
            HandshakeStep::SendMessage,
            HandshakeStep::ReceiveMessage,
            HandshakeStep::SendMessage,
            HandshakeStep::Finish,
        ]
    );
    assert_eq!(
        server,
        vec![
            HandshakeStep::ReceiveMessage,
            HandshakeStep::SendMessage,
            HandshakeStep::ReceiveMessage,
            HandshakeStep::Finish,
        ]
    );
}

#[test]
fn amnezia_preamble_shaped_handshake() {
    let client = steps_of(client_handshake_in_place(17));
    let server = steps_of(server_handshake_in_place(17));
    assert_eq!(client[0], HandshakeStep::SendPreamble(17));
    assert_eq!(server[0], HandshakeStep::SkipPreamble(17));
    assert_eq!(client.len(), 5);
    assert_eq!(server.len(), 5);
}

#[test]
fn handshake_io_wrong_server_key_fails() {
    let mut hs = client_handshake();
    hs.advance(Ok(())).unwrap();
    let e = hs.advance(Err(Fault::Wire("decrypt error".to_string()))).unwrap_err();
    assert_eq!(e.message(), "wire error: decrypt error");
    assert_eq!(hs.next(), None);
}

#[test]
fn stream_that_ends_in_the_preamble_is_closed() {
    let eof = || Fault::Io(IoKind::UnexpectedEof, "early eof".to_string());
    let mut hs = server_handshake_in_place(8);
    assert!(matches!(hs.advance(Err(eof())), Err(ObfsError::Closed)));
    assert_eq!(hs.next(), None);
    let mut hs = client_handshake_in_place(8);
    assert_eq!(hs.advance(Err(eof())).unwrap_err().message(), "IO error: early eof");
    let mut hs = server_handshake_in_place(8);
    let e = hs.advance(Err(Fault::Io(IoKind::ConnectionReset, "reset".to_string()))).unwrap_err();
    assert_eq!(e.message(), "IO error: reset");
    assert!(matches!(e, ObfsError::Io(IoKind::ConnectionReset, _)));
    let mut hs = server_handshake();
    assert!(matches!(
        hs.advance(Err(Fault::Frame(ObfsError::Closed))),
        Err(ObfsError::Closed)
    ));
}

// Server

#[test]
fn server_acts_on_client_envelopes_only() {
    assert!(matches!(inbound(Envelope::<u8>::Ping), Inbound::Reply(Envelope::Pong)));
    assert!(matches!(
        inbound(Envelope::Request(request("r1"))),
        Inbound::Dispatch(r) if r.id == "r1"
    ));
    assert!(matches!(
        inbound(subscribe("server.logs", Some("token"))),
        Inbound::Authorise { topic, capability }
            if topic == "server.logs" && capability.as_deref() == Some("token")
    ));
    assert!(matches!(inbound(Envelope::<u8>::Pong), Inbound::Ignore));
    assert!(matches!(inbound(Envelope::Response(response("r1"))), Inbound::Ignore));
    let gone = Envelope::<u8>::Unsubscribe { topic: "t".to_string() };
    assert!(matches!(inbound(gone), Inbound::Ignore));
}

#[test]
fn tcp_subscribe_denied_without_capability() {
    let denied = Err("subscribe requires valid-sub-token".to_string());
    match handle_subscribe::<u8>("server.logs".to_string(), denied, true) {
        SubscribeStep::Refuse(Envelope::SubscribeError { topic, error }) => {
            assert_eq!(topic, "server.logs");
            assert_eq!(error.code, DiagnosticCode::Forbidden);
            assert_eq!(error.message, "subscribe requires valid-sub-token");
        }
        _ => panic!("denied subscription must not deliver events"),
    }
}

#[test]
fn tcp_subscribe_allowed_with_capability() {
    let step = handle_subscribe::<u8>("server.logs".to_string(), Ok(()), true);
    assert!(matches!(step, SubscribeStep::Forward(t) if t == "server.logs"));
}

#[test]
fn subscription_without_source_is_refused_over_streams() {
    match handle_subscribe::<u8>("none".to_string(), Ok(()), false) {
        SubscribeStep::Refuse(Envelope::SubscribeError { error, .. }) => {
            assert_eq!(error.code, DiagnosticCode::MethodNotFound);
            assert_eq!(error.message, "no event source for topic");
        }
        _ => panic!("expected a refusal"),
    }
    let quiet = handle_subscribe_dgram::<u8>("none".to_string(), Ok(()), false);
    assert!(matches!(quiet, SubscribeStep::Nothing));
}

#[test]
fn udp_subscribe_denied_without_capability() {
    let step = handle_subscribe_dgram::<u8>("server.logs".to_string(), Err("no".to_string()), true);
    assert!(matches!(step, SubscribeStep::Refuse(Envelope::SubscribeError { .. })));
}

#[test]
fn udp_subscribe_allowed_with_capability() {
    let step = handle_subscribe_dgram::<u8>("server.logs".to_string(), Ok(()), true);
    assert!(matches!(step, SubscribeStep::Forward(_)));
}

#[test]
fn only_events_of_the_topic_are_forwarded() {
    let topic = "metrics.cpu".to_string();
    assert!(matches!(
        forward_step(&topic, Received::Event(event("metrics.cpu", 42))),
        ForwardStep::Send(Envelope::Event(ev)) if ev.seq == 42
    ));
    assert!(matches!(
        forward_step(&topic, Received::Event(event("metrics.mem", 1))),
        ForwardStep::Skip
    ));
    assert!(matches!(forward_step::<u8>(&topic, Received::Lagged), ForwardStep::Skip));
    assert!(matches!(forward_step::<u8>(&topic, Received::Closed), ForwardStep::Stop));
}

#[test]
fn connection_opens_serves_and_closes() {
    let mut state = ConnState::Handshaking;
    let action = handle_connection::<u8>(&mut state, ConnEvent::HandshakeDone(true));
    assert!(matches!(action, ConnAction::Continue));
    assert_eq!(state, ConnState::Open);
    let action = handle_connection::<u8>(&mut state, ConnEvent::Frame(Envelope::Ping));
    assert!(matches!(action, ConnAction::Write(Envelope::Pong)));
    let action = handle_connection(&mut state, ConnEvent::Frame(Envelope::Request(request("r"))));
    assert!(matches!(action, ConnAction::Serve(Inbound::Dispatch(_))));
    let action = handle_connection(&mut state, ConnEvent::Queued(Envelope::Event(event("t", 1))));
    assert!(matches!(action, ConnAction::Write(Envelope::Event(_))));
    let action = handle_connection::<u8>(&mut state, ConnEvent::Frame(Envelope::Pong));
    assert!(matches!(action, ConnAction::Continue));
    let action = handle_connection::<u8>(&mut state, ConnEvent::ReadFailed);
    assert!(matches!(action, ConnAction::Close));
    assert_eq!(state, ConnState::Closed);
    let action = handle_connection(&mut state, ConnEvent::Frame(Envelope::Request(request("r"))));
    assert!(matches!(action, ConnAction::Close));
}

#[test]
fn rejected_peer_is_not_served() {
    let mut state = ConnState::Handshaking;
    let action = handle_connection::<u8>(&mut state, ConnEvent::HandshakeDone(false));
    assert!(matches!(action, ConnAction::Close));
    let mut state = ConnState::Handshaking;
    let action = handle_connection(&mut state, ConnEvent::Frame(Envelope::Request(request("r"))));
    assert!(matches!(action, ConnAction::Close));
}

// Client

#[test]
fn response_resolves_its_request() {
    let mut client = ClientState::new();
    assert_eq!(client.begin_request("a".to_string(), 1), None);
    assert_eq!(client.begin_request("b".to_string(), 2), None);
    match client.on_envelope(Envelope::Response(response("b"))) {
        ClientAction::Resolve(waiter, resp) => {
            assert_eq!(waiter, 2);
            assert_eq!(resp.id, "b");
        }
        _ => panic!("expected the waiter of b"),
    }
    let again = client.on_envelope(Envelope::Response(response("b")));
    assert!(matches!(again, ClientAction::Ignore));
    assert_eq!(client.forget_request(&"a".to_string()), Some(1));
    assert_eq!(client.forget_request(&"a".to_string()), None);
}

#[test]
fn second_request_with_an_id_replaces_the_first() {
    let mut client = ClientState::new();
    client.begin_request("a".to_string(), 1);
    assert_eq!(client.begin_request("a".to_string(), 2), Some(1));
    assert!(matches!(
        client.on_envelope(Envelope::Response(response("a"))),
        ClientAction::Resolve(2, _)
    ));
}

#[test]
fn client_acts_on_server_envelopes_only() {
    let mut client: ClientState<u8> = ClientState::new();
    assert!(matches!(
        client.on_envelope(Envelope::Event(event("t", 4))),
        ClientAction::Broadcast(ev) if ev.seq == 4
    ));
    assert!(matches!(
        client.on_envelope(Envelope::<u8>::Ping),
        ClientAction::Send(Envelope::Pong)
    ));
    assert!(matches!(client.on_envelope(Envelope::<u8>::Pong), ClientAction::Ignore));
    assert!(matches!(
        client.on_envelope(Envelope::Request(request("r"))),
        ClientAction::Ignore
    ));
}

#[test]
fn connection_state_is_connected() {
    let client: ClientState<u8> = ClientState::new();
    assert_eq!(client.state(), ConnectionState::Connected);
}

#[test]
fn pump_that_stops_hands_out_all_waiters() {
    let mut client = ClientState::new();
    client.begin_request("a".to_string(), 1);
    client.begin_request("b".to_string(), 2);
    match pump::<u8, i32>(&mut client, PumpEvent::ReadFailed) {
        PumpAction::Stop(mut drained) => {
            drained.sort();
            assert_eq!(drained, vec![("a".to_string(), 1), ("b".to_string(), 2)]);
        }
        _ => panic!("expected the pump to stop"),
    }
    assert_eq!(client.state(), ConnectionState::Down);
    assert!(matches!(
        pump::<u8, i32>(&mut client, PumpEvent::Queued(Envelope::Ping)),
        PumpAction::Write(Envelope::Ping)
    ));
}

#[test]
fn datagram_pump_ignores_what_holds_no_envelope() {
    let mut client: ClientState<u8> = ClientState::new();
    client.begin_request("a".to_string(), 1);
    assert!(matches!(
        udp_pump::<u8, u8>(&mut client, datagram_event(None)),
        UdpPumpAction::Continue
    ));
    assert_eq!(client.state(), ConnectionState::Connected);
    assert!(matches!(
        udp_pump(&mut client, datagram_event(Some(Envelope::Response(response("a"))))),
        UdpPumpAction::Deliver(ClientAction::Resolve(1, _))
    ));
    client.begin_request("b".to_string(), 2);
    assert!(matches!(
        udp_pump::<u8, u8>(&mut client, UdpPumpEvent::RecvFailed),
        UdpPumpAction::Stop(drained) if drained == vec![("b".to_string(), 2)]
    ));
    assert_eq!(client.state(), ConnectionState::Down);
}

#[test]
fn malformed_record_is_dropped() {
    let channel = DataChannel::for_client(&[1; 32]);
    let malformed: Opened<u8> = Opened::Authentic(Err("missing field `kind`".to_string()));
    let dropped = channel.accept_record(malformed);
    assert!(dropped.is_none());
    assert!(channel.accept_record::<u8>(Opened::Rejected).is_none());
    assert!(matches!(
        channel.accept_record(Opened::Authentic(Ok(Envelope::<u8>::Ping))),
        Some(Envelope::Ping)
    ));
    let mut client: ClientState<u8> = ClientState::new();
    assert!(matches!(
        udp_pump(&mut client, datagram_event(dropped)),
        UdpPumpAction::Continue
    ));
}

#[test]
fn datagram_request_is_served_once() {
    let src = PeerAddr::V4 { ipv4: 0x7f00_0001, port: 4000 };
    let mut server: UdpServer<u8, u8> = UdpServer::new();
    server.finish_handshake::<u8>(src, Admission::Admitted(1), 0);
    let datagram = DataChannel::for_client(&[1; 32]).seal_envelope(b"record");
    let mut dispatched = 0;
    let opened = [
        Opened::Authentic(Ok(Envelope::Request(request("r1")))),
        Opened::Rejected,
        Opened::Authentic(Err("junk".to_string())),
    ];
    for (now, outcome) in opened.into_iter().enumerate() {
        match server.handle_dgram(src, Some(&datagram), false, now as u64) {
            ServerStep::Open { record } => assert_eq!(record, b"record"),
            _ => panic!("a peer's record must be opened"),
        }
        match serve_record(outcome) {
            Some(Inbound::Dispatch(r)) => {
                assert_eq!(r.id, "r1");
                dispatched += 1;
                server.sweep(now as u64);
            }
            None => {}
            _ => panic!("expected a request or nothing"),
        }
    }
    assert_eq!(dispatched, 1);
    let pong = serve_record(Opened::Authentic(Ok(Envelope::<u8>::Pong)));
    assert!(matches!(pong, Some(Inbound::Ignore)));

    let mut client: ClientState<u8> = ClientState::new();
    client.begin_request("r1".to_string(), 7);
    let channel = DataChannel::for_client(&[1; 32]);
    let reply = channel.accept_record(Opened::Authentic(Ok(answer(response("r1")))));
    assert!(matches!(
        udp_pump(&mut client, datagram_event(reply)),
        UdpPumpAction::Deliver(ClientAction::Resolve(7, r)) if r.id == "r1"
    ));
}

#[test]
fn request_is_sent_eleven_times_at_most() {
    let mut client = ClientState::new();
    let mut request = RequestInFlight::new("a".to_string());
    let mut sends = 0;
    loop {
        request.register(&mut client, sends);
        sends += 1;
        match request.step(&mut client, RequestEvent::TimedOut) {
            RequestAction::SendAgain => {}
            other => {
                assert_eq!(other, RequestAction::Fail(RequestError::Timeout));
                break;
            }
        }
    }
    assert_eq!(sends, 11);
    assert_eq!(client.forget_request(&"a".to_string()), None);
}

#[test]
fn request_ends_with_its_response_or_the_pump() {
    let mut client = ClientState::new();
    let mut request = RequestInFlight::new("a".to_string());
    request.register(&mut client, 1);
    assert_eq!(request.step(&mut client, RequestEvent::Answered), RequestAction::Return);
    assert_eq!(
        request.step(&mut client, RequestEvent::PumpGone),
        RequestAction::Fail(RequestError::Disconnected)
    );
    assert_eq!(
        request.step(&mut client, RequestEvent::SendFailed),
        RequestAction::Fail(RequestError::Disconnected)
    );
    assert_eq!(client.forget_request(&"a".to_string()), None);
}

#[test]
fn subscriber_stream_skips_lost_events() {
    assert!(matches!(
        stream_step(StreamInput::Event(event("t", 9))),
        StreamStep::Yield(ev) if ev.seq == 9
    ));
    assert!(matches!(stream_step::<u8>(StreamInput::Lagged), StreamStep::Skip));
    assert!(matches!(
        stream_step::<u8>(StreamInput::Closed),
        StreamStep::End(RequestError::Disconnected)
    ));
}

#[test]
fn first_resolved_address_is_taken() {
    let first = PeerAddr::V4 { ipv4: 1, port: 2 };
    let second = PeerAddr::V4 { ipv4: 3, port: 4 };
    assert_eq!(server_addr(&vec![first, second]).unwrap(), first);
    match server_addr(&vec![]) {
        Err(ObfsError::Io(IoKind::NotFound, text)) => assert_eq!(text, "addr not resolved"),
        _ => panic!("expected an unresolved address"),
    }
}
