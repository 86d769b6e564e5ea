use rand::rngs::SmallRng;
use rand::SeedableRng;
use std::sync::atomic::{AtomicUsize, Ordering};
use vaiexia_obfs::udp::cookie_jar::{CookieJar, COOKIE_ROTATION_NS};
use vaiexia_obfs::udp::dataplane::DataChannel;
use vaiexia_obfs::udp::handshake::{
    accept, after_cookie_check, challenge, complete_handshake_msg3, decode_cookie,
    decode_msg1_framed, encode_cookie, encode_msg1_framed, process_hs1, AcceptResult, Hs1Step,
    ResponderRun,
};
use vaiexia_obfs::udp::initiator::{client_udp_handshake, ClientHandshake, HsAction, HsEvent};
use vaiexia_obfs::udp::keys::{derive_record_keys, RecordKey};
use vaiexia_obfs::udp::peer::{from_expected, PeerAddr};
use vaiexia_obfs::udp::server::{
    admit_client, Admission, ServerStep, UdpServer, MAX_PEERS, MAX_PENDING, PENDING_SOFT_LIMIT,
    PENDING_STALE_NS, PEER_IDLE_NS,
};
use vaiexia_obfs::udp::wire_dgram::{decode_inner, encode_inner, DgramType};
use vaiexia_obfs::error::IoKind;
use vaiexia_obfs::{AllowAll, AlwaysOpen, AlwaysUnderLoad, Envelope, KeyAllowList, LoadGate, ObfsError};

fn addr(n: u32) -> PeerAddr {
    PeerAddr::V4 { ipv4: n, port: 4433 }
}

fn hex(bytes: &[u8]) -> String {
    bytes.iter().map(|b| format!("{b:02x}")).collect()
}

fn hs1(msg1: &[u8], cookie: Option<[u8; 16]>) -> Vec<u8> {
    encode_inner(DgramType::Hs1, &encode_msg1_framed(msg1, cookie))
}

// Inner framing

#[test]
fn roundtrip_all_types() {
    for ty in [DgramType::Hs1, DgramType::Hs2, DgramType::Hs3, DgramType::Cookie, DgramType::Data] {
        let body = b"test body data";
        let encoded = encode_inner(ty, body);
        let (got_ty, got_body) = decode_inner(&encoded).expect("should decode");
        assert_eq!(got_ty, ty);
        assert_eq!(got_body, body);
    }
}

#[test]
fn unknown_type_returns_none() {
    let data = [0xFF, 0x01, 0x02];
    assert_eq!(decode_inner(&data), None);
}

#[test]
fn empty_input_returns_none() {
    assert_eq!(decode_inner(&[]), None);
}

#[test]
fn empty_body_roundtrips() {
    let encoded = encode_inner(DgramType::Data, &[]);
    let (ty, body) = decode_inner(&encoded).unwrap();
    assert_eq!(ty, DgramType::Data);
    assert_eq!(body, &[] as &[u8]);
}

#[test]
fn type_bytes_are_fixed() {
    assert_eq!(encode_inner(DgramType::Cookie, &[9]), vec![0x04, 9]);
    assert_eq!(DgramType::from_byte(0x03), Some(DgramType::Hs3));
    assert_eq!(DgramType::from_byte(0x00), None);
    assert_eq!(DgramType::Data.as_byte(), 0x05);
}

// Keys and channels

#[test]
fn deterministic() {
    let seed = [0x42u8; 32];
    let (c2s_a, s2c_a) = derive_record_keys(&seed);
    let (c2s_c, s2c_c) = derive_record_keys(&seed);
    assert_eq!(c2s_a, c2s_c);
    assert_eq!(s2c_a, s2c_c);
}

#[test]
fn c2s_differs_from_s2c() {
    let seed = [0x11u8; 32];
    let (c2s, s2c) = derive_record_keys(&seed);
    assert_ne!(c2s, s2c, "c2s key must differ from s2c key");
}

#[test]
fn same_seed_both_sides() {
    let seed = [0xABu8; 32];
    let client = DataChannel::for_client(&seed);
    let server = DataChannel::for_server(&seed);
    assert_eq!(client.seal_key(), server.open_key());
    assert_eq!(server.seal_key(), client.open_key());
}

#[test]
fn keys_are_keyed_blake2s_of_the_labels() {
    let (c2s, s2c) = derive_record_keys(&[0x42; 32]);
    assert_eq!(
        hex(&c2s.as_bytes()),
        "ab3b0f438c4d831060e3d742dfa2f5328a6c73a937a866ec5703a8e7482df596"
    );
    assert_eq!(
        hex(&s2c.as_bytes()),
        "1b3e7c39c67847628e6aacc53a2416c4ef24794efdb677350342dcbcacfb9be6"
    );
}

#[test]
fn channel_uses_the_keys_it_is_given() {
    let channel = DataChannel::new(RecordKey::from_bytes([1; 32]), RecordKey::from_bytes([2; 32]));
    assert_eq!(channel.seal_key().as_bytes(), [1; 32]);
    assert_eq!(channel.open_key().as_bytes(), [2; 32]);
}

#[test]
fn junk_datagram_returns_none() {
    let seed = [0x99u8; 32];
    let server = DataChannel::for_server(&seed);
    assert!(server.open_datagram(Some(&[])).is_none());
    assert!(server.open_datagram(Some(&[0x42; 7])).is_none());
    assert!(server.open_datagram(None).is_none());
    let other = encode_inner(DgramType::Hs1, b"record");
    assert!(server.open_datagram(Some(&other)).is_none());
}

#[test]
fn record_reaches_the_other_end() {
    let client = DataChannel::for_client(&[0x55; 32]);
    let server = DataChannel::for_server(&[0x55; 32]);
    let inner = client.seal_envelope(b"sealed");
    assert_eq!(server.open_datagram(Some(&inner)), Some(b"sealed".to_vec()));
}

// First message and cookies

#[test]
fn first_message_roundtrips() {
    let body = encode_msg1_framed(b"noise", None);
    assert_eq!(body, vec![0, 5, b'n', b'o', b'i', b's', b'e']);
    assert_eq!(decode_msg1_framed(&body), Some((b"noise".to_vec(), None)));
    let body = encode_msg1_framed(b"noise", Some([7; 16]));
    assert_eq!(decode_msg1_framed(&body), Some((b"noise".to_vec(), Some([7; 16]))));
    let long = vec![3; 300];
    let body = encode_msg1_framed(&long, Some([1; 16]));
    assert_eq!(&body[..2], &[1, 44]);
    assert_eq!(decode_msg1_framed(&body), Some((long, Some([1; 16]))));
}

#[test]
fn short_first_message_is_malformed() {
    assert_eq!(decode_msg1_framed(&[]), None);
    assert_eq!(decode_msg1_framed(&[0]), None);
    assert_eq!(decode_msg1_framed(&[0, 3, 1, 2]), None);
    assert_eq!(decode_msg1_framed(&[0, 0]), Some((vec![], None)));
}

#[test]
fn incomplete_cookie_is_no_cookie() {
    let mut body = encode_msg1_framed(b"m", Some([9; 16]));
    body.pop();
    assert_eq!(decode_msg1_framed(&body), Some((b"m".to_vec(), None)));
}

#[test]
fn length_field_holds_the_low_bits() {
    let body = encode_msg1_framed(&vec![0; 65536 + 2], None);
    assert_eq!(&body[..2], &[0, 2]);
}

#[test]
fn cookie_body_roundtrips() {
    assert_eq!(decode_cookie(&encode_cookie([5; 16])), Some([5; 16]));
    assert_eq!(decode_cookie(&[5; 15]), None);
    assert_eq!(decode_cookie(&[6; 20]), Some([6; 16]));
}

#[test]
fn load_gate_decides_about_the_challenge() {
    let plain = encode_msg1_framed(b"m1", None);
    let with_cookie = encode_msg1_framed(b"m1", Some([4; 16]));
    assert!(matches!(process_hs1(&plain, &AlwaysOpen), Hs1Step::Respond { msg1 } if msg1 == b"m1"));
    assert!(matches!(process_hs1(&with_cookie, &AlwaysOpen), Hs1Step::Respond { .. }));
    assert!(matches!(process_hs1(&plain, &AlwaysUnderLoad), Hs1Step::Challenge));
    assert!(matches!(
        process_hs1(&with_cookie, &AlwaysUnderLoad),
        Hs1Step::CheckCookie { msg1, cookie } if msg1 == b"m1" && cookie == [4; 16]
    ));
    assert!(matches!(process_hs1(&[0], &AlwaysUnderLoad), Hs1Step::Drop));
    assert!(matches!(after_cookie_check(b"m1".to_vec(), true), Hs1Step::Respond { .. }));
    assert!(matches!(after_cookie_check(b"m1".to_vec(), false), Hs1Step::Challenge));
}

struct CountingGate(AtomicUsize);

impl LoadGate for CountingGate {
    fn under_load(&self) -> bool {
        self.0.fetch_add(1, Ordering::Relaxed);
        false
    }
}

#[test]
fn malformed_first_message_does_not_ask_the_load_gate() {
    let gate = CountingGate(AtomicUsize::new(0));
    assert!(matches!(process_hs1(&[0], &gate), Hs1Step::Drop));
    assert!(matches!(process_hs1(&[0, 3, 1], &gate), Hs1Step::Drop));
    assert_eq!(gate.0.load(Ordering::Relaxed), 0);
    let body = encode_msg1_framed(b"m1", None);
    assert!(matches!(process_hs1(&body, &gate), Hs1Step::Respond { .. }));
    assert_eq!(gate.0.load(Ordering::Relaxed), 1);
}

#[test]
fn responder_run_becomes_an_outcome() {
    let run: ResponderRun<u8> = ResponderRun::Replied { responder: 3, msg2: b"two".to_vec() };
    match accept(run, addr(1)).unwrap() {
        Some(AcceptResult::PartialHandshake { responder, msg2, client_addr }) => {
            assert_eq!(responder, 3);
            assert_eq!(msg2, b"\x02two".to_vec());
            assert_eq!(client_addr, addr(1));
        }
        _ => panic!("expected PartialHandshake"),
    }
    let rejected: ResponderRun<u8> = ResponderRun::Rejected;
    assert!(matches!(accept(rejected, addr(1)), Ok(None)));
    let unbuilt: ResponderRun<u8> = ResponderRun::NotBuilt("bad key".to_string());
    let e = accept(unbuilt, addr(1)).err().unwrap();
    assert_eq!(e.message(), "handshake failed: responder: bad key");
    let silent: ResponderRun<u8> = ResponderRun::NoReply("full".to_string());
    let e = accept(silent, addr(1)).err().unwrap();
    assert_eq!(e.message(), "handshake failed: write msg2: full");
    match challenge::<u8>([1; 16]) {
        AcceptResult::CookieReply(inner) => {
            assert_eq!(inner[0], 0x04);
            assert_eq!(&inner[1..], &[1; 16]);
        }
        _ => panic!("expected CookieReply"),
    }
}

#[test]
fn third_message_yields_channel_and_key() {
    let mut payload = vec![0x21; 32];
    payload.extend_from_slice(b"ignored");
    let (channel, key) = complete_handshake_msg3(Ok(payload), Some([8; 32])).unwrap();
    assert_eq!(key, [8; 32]);
    assert_eq!(channel.seal_key(), DataChannel::for_client(&[0x21; 32]).open_key());
    let e = complete_handshake_msg3(Err("decrypt".to_string()), Some([8; 32])).unwrap_err();
    assert_eq!(e.message(), "handshake failed: read msg3: decrypt");
    let e = complete_handshake_msg3(Ok(vec![1; 31]), None).unwrap_err();
    assert_eq!(e.message(), "handshake failed: msg3 payload too short for seed");
    let e = complete_handshake_msg3(Ok(vec![1; 32]), None).unwrap_err();
    assert_eq!(e.message(), "handshake failed: no remote static after msg3");
}

// Client handshake

fn start() -> (ClientHandshake, SmallRng) {
    let (hs, action) = client_udp_handshake();
    assert!(matches!(action, HsAction::Start));
    (hs, SmallRng::seed_from_u64(1))
}

#[test]
fn handshake_completes_and_channels_interop() {
    let (mut hs, mut rng) = start();
    let inner1 = match hs.step(HsEvent::Msg1(b"one".to_vec()), &mut rng) {
        HsAction::SendMsg1 { inner, wait_ms } => {
            assert_eq!(wait_ms, 250);
            inner
        }
        _ => panic!("expected the first message"),
    };
    let mut server: UdpServer<u8, DataChannel> = UdpServer::new();
    let msg1 = match server.handle_dgram(addr(1), Some(&inner1), false, 0) {
        ServerStep::Respond { msg1 } => msg1,
        _ => panic!("unexpected cookie"),
    };
    assert_eq!(msg1, b"one");
    let run = ResponderRun::Replied { responder: 9u8, msg2: b"two".to_vec() };
    let inner2 = server.on_accept(addr(1), accept(run, addr(1)), 0).unwrap();
    let seed = match hs.step(HsEvent::Datagram(Some(inner2)), &mut rng) {
        HsAction::WriteMsg3 { msg2, seed } => {
            assert_eq!(msg2, b"two");
            seed
        }
        _ => panic!("expected the second message to be taken"),
    };
    let (inner3, client) = match hs.step(HsEvent::Msg3(Some(b"three".to_vec())), &mut rng) {
        HsAction::SendMsg3 { inner, channel, wait_ms } => {
            assert_eq!(wait_ms, 2000);
            (inner, channel)
        }
        _ => panic!("expected the third message"),
    };
    match server.handle_dgram(addr(1), Some(&inner3), false, 1) {
        ServerStep::Complete { responder, msg3 } => {
            assert_eq!(responder, 9);
            assert_eq!(msg3, b"three");
        }
        _ => panic!("expected the responder to be found"),
    }
    let outcome = complete_handshake_msg3(Ok(seed.to_vec()), Some([6; 32]));
    let channel = match admit_client(outcome, &AllowAll) {
        Admission::Admitted(channel) => channel,
        _ => panic!("expected the client to be admitted"),
    };
    assert_eq!(channel.open_key(), client.seal_key());
    let ready = server.finish_handshake::<()>(addr(1), Admission::Admitted(channel), 2);
    assert!(matches!(ready, Some(Envelope::Pong)));
    assert!(matches!(hs.step(HsEvent::Record(false), &mut rng), HsAction::Wait));
    match hs.step(HsEvent::Record(true), &mut rng) {
        HsAction::Done(end) => {
            assert_eq!(end.seal_key(), channel.open_key());
            assert_eq!(end.open_key(), channel.seal_key());
        }
        _ => panic!("expected the handshake to be done"),
    }
    let data = client.seal_envelope(b"ping");
    assert!(matches!(
        server.handle_dgram(addr(1), Some(&data), false, 3),
        ServerStep::Open { record } if record == b"ping"
    ));
}

#[test]
fn cookie_path_completes() {
    let (mut hs, mut rng) = start();
    let inner = match hs.step(HsEvent::Msg1(b"one".to_vec()), &mut rng) {
        HsAction::SendMsg1 { inner, .. } => inner,
        _ => panic!("expected the first message"),
    };
    let mut server: UdpServer<u8, u8> = UdpServer::new();
    assert!(matches!(
        server.handle_dgram(addr(1), Some(&inner), true, 0),
        ServerStep::Challenge
    ));
    let reply = server.on_accept(addr(1), Ok(Some(challenge([0xCD; 16]))), 0).unwrap();
    assert_eq!(server.pending_len(), 0);
    let inner = match hs.step(HsEvent::Datagram(Some(reply)), &mut rng) {
        HsAction::SendMsg1 { inner, .. } => inner,
        _ => panic!("expected the cookie to be echoed"),
    };
    match server.handle_dgram(addr(1), Some(&inner), true, 0) {
        ServerStep::CheckCookie { msg1, cookie } => {
            assert_eq!(msg1, b"one");
            assert_eq!(cookie, [0xCD; 16]);
            assert!(matches!(
                server.on_cookie_checked(msg1.clone(), true),
                ServerStep::Respond { msg1: m } if m == b"one"
            ));
            assert!(matches!(server.on_cookie_checked(msg1, false), ServerStep::Challenge));
        }
        _ => panic!("expected the cookie to be checked"),
    }
}

#[test]
fn silent_server_exhausts_all_attempts() {
    let (mut hs, mut rng) = start();
    let mut sends = 0;
    let mut waited = 0;
    for attempt in 0..3 {
        let mut action = hs.step(HsEvent::Msg1(b"one".to_vec()), &mut rng);
        for _ in 0..12 {
            match action {
                HsAction::SendMsg1 { wait_ms, .. } => {
                    sends += 1;
                    waited += wait_ms;
                }
                _ => panic!("expected a first message"),
            }
            action = hs.step(HsEvent::TimedOut, &mut rng);
        }
        match action {
            HsAction::Start => assert!(attempt < 2),
            HsAction::Failed(e) => {
                assert_eq!(attempt, 2);
                assert_eq!(e.message(), "handshake failed: handshake exhausted all attempts");
            }
            _ => panic!("expected the attempt to be given up"),
        }
    }
    assert_eq!(sends, 36);
    assert_eq!(waited, 9000);
}

#[test]
fn longest_handshake_waits_nineteen_and_a_half_seconds() {
    let (mut hs, mut rng) = start();
    let mut waited = 0;
    for attempt in 0..3 {
        let mut action = hs.step(HsEvent::Msg1(b"one".to_vec()), &mut rng);
        for tries in 1..=12 {
            if let HsAction::SendMsg1 { wait_ms, .. } = action {
                waited += wait_ms;
            }
            let event = if tries == 12 {
                HsEvent::Datagram(Some(encode_inner(DgramType::Hs2, b"two")))
            } else {
                HsEvent::Datagram(None)
            };
            action = hs.step(event, &mut rng);
        }
        assert!(matches!(action, HsAction::WriteMsg3 { .. }));
        action = hs.step(HsEvent::Msg3(Some(b"three".to_vec())), &mut rng);
        while let HsAction::SendMsg3 { wait_ms, .. } = action {
            waited += wait_ms;
            action = hs.step(HsEvent::TimedOut, &mut rng);
        }
        assert_eq!(matches!(action, HsAction::Failed(_)), attempt == 2);
    }
    assert_eq!(waited, 19500);
}

#[test]
fn handshake_wrong_server_key_fails() {
    let (mut hs, mut rng) = start();
    for attempt in 0..3 {
        hs.step(HsEvent::Msg1(b"one".to_vec()), &mut rng);
        let reply = encode_inner(DgramType::Hs2, b"two");
        assert!(matches!(
            hs.step(HsEvent::Datagram(Some(reply)), &mut rng),
            HsAction::WriteMsg3 { .. }
        ));
        let action = hs.step(HsEvent::Msg3(None), &mut rng);
        assert_eq!(matches!(action, HsAction::Failed(_)), attempt == 2);
    }
}

#[test]
fn third_message_is_resent_three_times() {
    let (mut hs, mut rng) = start();
    hs.step(HsEvent::Msg1(b"one".to_vec()), &mut rng);
    let reply = encode_inner(DgramType::Hs2, b"two");
    hs.step(HsEvent::Datagram(Some(reply)), &mut rng);
    let mut action = hs.step(HsEvent::Msg3(Some(b"three".to_vec())), &mut rng);
    for expected in [2000, 500, 500, 500] {
        match action {
            HsAction::SendMsg3 { inner, wait_ms, .. } => {
                assert_eq!(inner, b"\x03three".to_vec());
                assert_eq!(wait_ms, expected);
            }
            _ => panic!("expected a third message"),
        }
        action = hs.step(HsEvent::TimedOut, &mut rng);
    }
    assert!(matches!(action, HsAction::Start));
}

#[test]
fn resent_third_message_may_fail_to_go_out() {
    let (mut hs, mut rng) = start();
    hs.step(HsEvent::Msg1(b"one".to_vec()), &mut rng);
    let reply = encode_inner(DgramType::Hs2, b"two");
    hs.step(HsEvent::Datagram(Some(reply)), &mut rng);
    hs.step(HsEvent::Msg3(Some(b"three".to_vec())), &mut rng);
    assert!(matches!(
        hs.step(HsEvent::RecvFailed(IoKind::ConnectionReset, "gone".to_string()), &mut rng),
        HsAction::SendMsg3 { wait_ms: 500, .. }
    ));
    assert!(matches!(
        hs.step(HsEvent::SendFailed(IoKind::Other, "gone".to_string()), &mut rng),
        HsAction::Wait
    ));
    assert!(matches!(hs.step(HsEvent::Record(true), &mut rng), HsAction::Done(_)));
}

#[test]
fn fatal_events_end_the_handshake() {
    let (mut hs, mut rng) = start();
    match hs.step(HsEvent::InitiatorFailed("no key".to_string()), &mut rng) {
        HsAction::Failed(e) => assert_eq!(e.message(), "handshake failed: initiator: no key"),
        _ => panic!("expected a failure"),
    }
    let (mut hs, mut rng) = start();
    match hs.step(HsEvent::Msg1Failed("bad".to_string()), &mut rng) {
        HsAction::Failed(e) => assert_eq!(e.message(), "handshake failed: write msg1: bad"),
        _ => panic!("expected a failure"),
    }
    let (mut hs, mut rng) = start();
    hs.step(HsEvent::Msg1(b"one".to_vec()), &mut rng);
    match hs.step(HsEvent::SendFailed(IoKind::HostUnreachable, "unreachable".to_string()), &mut rng) {
        HsAction::Failed(e) => {
            assert_eq!(e.message(), "IO error: unreachable");
            assert!(matches!(e, ObfsError::Io(IoKind::HostUnreachable, _)));
        }
        _ => panic!("expected a failure"),
    }
}

#[test]
fn attempts_use_different_seeds() {
    let (mut hs, mut rng) = start();
    let mut seeds = Vec::new();
    for _ in 0..2 {
        hs.step(HsEvent::Msg1(b"one".to_vec()), &mut rng);
        let reply = encode_inner(DgramType::Hs2, b"two");
        match hs.step(HsEvent::Datagram(Some(reply)), &mut rng) {
            HsAction::WriteMsg3 { seed, .. } => seeds.push(seed),
            _ => panic!("expected the second message to be taken"),
        }
        assert!(matches!(hs.step(HsEvent::Msg3(None), &mut rng), HsAction::Start));
    }
    assert_ne!(seeds[0], seeds[1]);
    assert_ne!(seeds[0], [0; 32]);
}

#[test]
fn only_the_server_is_listened_to() {
    assert!(from_expected(addr(1), addr(1)));
    assert!(!from_expected(addr(1), addr(2)));
    let v6 = PeerAddr::V6 { ipv6: 1, port: 4433, flowinfo: 0, scope_id: 0 };
    assert!(!from_expected(v6, addr(1)));
}

// Cookie secrets

#[test]
fn cookie_secret_survives_one_rotation() {
    let mut jar = CookieJar::with_secret([1; 32], 0);
    jar.rotate_with(COOKIE_ROTATION_NS - 1, [2; 32]);
    assert_eq!(jar.current(), [1; 32]);
    assert_eq!(jar.previous(), None);
    jar.rotate_with(COOKIE_ROTATION_NS, [2; 32]);
    assert_eq!(jar.current(), [2; 32]);
    assert_eq!(jar.previous(), Some([1; 32]));
    jar.rotate_with(2 * COOKIE_ROTATION_NS, [3; 32]);
    assert_eq!(jar.current(), [3; 32]);
    assert_eq!(jar.previous(), Some([2; 32]));
}

#[test]
fn late_rotation_does_not_keep_old_secrets() {
    let mut jar = CookieJar::with_secret([1; 32], 0);
    jar.rotate_with(COOKIE_ROTATION_NS + COOKIE_ROTATION_NS / 2, [2; 32]);
    assert_eq!(jar.previous(), Some([1; 32]));
    jar.rotate_with(2 * COOKIE_ROTATION_NS, [3; 32]);
    assert_eq!(jar.current(), [3; 32]);
    assert_eq!(jar.previous(), Some([2; 32]));
    jar.rotate_with(4 * COOKIE_ROTATION_NS, [4; 32]);
    assert_eq!(jar.current(), [4; 32]);
    assert_eq!(jar.previous(), None);
}

#[test]
fn cookie_is_accepted_from_current_and_previous_secret() {
    let mut jar = CookieJar::with_secret([1; 32], 0);
    assert!(jar.accepts(true, false));
    assert!(!jar.accepts(false, false));
    assert!(!jar.accepts(false, true));
    jar.rotate_with(COOKIE_ROTATION_NS, [2; 32]);
    assert!(jar.accepts(false, true));
}

#[test]
fn drawn_secrets_differ() {
    let mut rng = SmallRng::seed_from_u64(7);
    let mut jar = CookieJar::new(&mut rng, 5);
    let first = jar.current();
    assert_ne!(first, [0; 32]);
    assert!(!jar.due(5));
    jar.rotate(5, &mut rng);
    assert_eq!(jar.current(), first);
    jar.rotate(5 + COOKIE_ROTATION_NS, &mut rng);
    assert_ne!(jar.current(), first);
    assert_eq!(jar.previous(), Some(first));
}

// Server tables

fn keep(server: &mut UdpServer<u32, u32>, n: u32, now: u64) -> bool {
    let run = ResponderRun::Replied { responder: n, msg2: vec![] };
    server.on_accept(addr(n), accept(run, addr(n)), now).is_some()
}

#[test]
fn half_open_handshakes_trigger_the_challenge() {
    let mut server: UdpServer<u32, u32> = UdpServer::new();
    for n in 0..PENDING_SOFT_LIMIT as u32 {
        assert!(matches!(
            server.handle_dgram(addr(9999), Some(&hs1(b"m", None)), false, 0),
            ServerStep::Respond { .. }
        ));
        assert!(keep(&mut server, n, 0));
    }
    assert!(matches!(
        server.handle_dgram(addr(9999), Some(&hs1(b"m", None)), false, 0),
        ServerStep::Challenge
    ));
}

#[test]
fn half_open_handshakes_are_capped() {
    let mut server: UdpServer<u32, u32> = UdpServer::new();
    for n in 0..MAX_PENDING as u32 {
        assert!(keep(&mut server, n, 0));
    }
    assert!(!keep(&mut server, 5_000, 0));
    assert!(keep(&mut server, 7, 0));
    assert_eq!(server.pending_len(), MAX_PENDING);
    assert!(!keep(&mut server, 5_000, PENDING_STALE_NS));
    assert!(!keep(&mut server, 5_000, PENDING_STALE_NS));
    assert_eq!(server.pending_len(), MAX_PENDING);
    let reply = server.on_accept(addr(5_000), Ok(Some(challenge([1; 16]))), PENDING_STALE_NS);
    assert!(reply.is_some());
    assert_eq!(server.pending_len(), 0);
    assert!(keep(&mut server, 5_000, PENDING_STALE_NS));
    assert_eq!(server.pending_len(), 1);
}

#[test]
fn full_server_drops_first_messages_and_recovers() {
    let mut server: UdpServer<u32, u32> = UdpServer::new();
    for n in 0..MAX_PEERS as u32 {
        server.finish_handshake::<()>(addr(n), Admission::Admitted(n), 0);
    }
    assert_eq!(server.peer_count(), MAX_PEERS);
    assert!(keep(&mut server, 7_000, 0));
    let first = hs1(b"m", None);
    assert!(matches!(
        server.handle_dgram(addr(9999), Some(&first), false, PEER_IDLE_NS - 1),
        ServerStep::Drop
    ));
    assert_eq!(server.peer_count(), MAX_PEERS);
    assert!(matches!(
        server.handle_dgram(addr(9999), Some(&first), false, PEER_IDLE_NS),
        ServerStep::Drop
    ));
    assert_eq!(server.peer_count(), 0);
    assert_eq!(server.pending_len(), 1);
    assert!(matches!(
        server.handle_dgram(addr(9999), Some(&first), false, PEER_IDLE_NS),
        ServerStep::Respond { .. }
    ));
}

#[test]
fn load_gate_is_asked_about_first_messages_only() {
    let mut server: UdpServer<u32, u32> = UdpServer::new();
    let first = hs1(b"m", None);
    assert!(server.asks_load(Some(&first)));
    assert!(!server.asks_load(None));
    assert!(!server.asks_load(Some(&encode_inner(DgramType::Data, b"rec"))));
    for n in 0..MAX_PEERS as u32 {
        server.finish_handshake::<()>(addr(n), Admission::Admitted(n), 0);
    }
    assert!(!server.asks_load(Some(&first)));
}

#[test]
fn data_keeps_a_peer_alive() {
    let mut server: UdpServer<u32, u32> = UdpServer::new();
    server.finish_handshake::<()>(addr(1), Admission::Admitted(11), 0);
    server.finish_handshake::<()>(addr(2), Admission::Admitted(22), 0);
    let data = encode_inner(DgramType::Data, b"rec");
    assert!(matches!(
        server.handle_dgram(addr(1), Some(&data), false, PEER_IDLE_NS),
        ServerStep::Open { .. }
    ));
    assert_eq!(server.peer(addr(1)), Some(&11));
    assert_eq!(server.peer(addr(2)), Some(&22));
    server.sweep(PEER_IDLE_NS);
    assert_eq!(server.peer(addr(1)), Some(&11));
    assert_eq!(server.peer(addr(2)), None);
    assert!(matches!(
        server.handle_dgram(addr(3), Some(&data), false, PEER_IDLE_NS),
        ServerStep::Drop
    ));
}

#[test]
fn third_message_is_taken_once_and_in_time() {
    let mut server: UdpServer<u32, u32> = UdpServer::new();
    let third = encode_inner(DgramType::Hs3, b"m3");
    assert!(matches!(server.handle_dgram(addr(1), Some(&third), false, 0), ServerStep::Drop));
    keep(&mut server, 1, 0);
    assert!(matches!(
        server.handle_dgram(addr(1), Some(&third), false, 1),
        ServerStep::Complete { responder: 1, .. }
    ));
    assert!(matches!(server.handle_dgram(addr(1), Some(&third), false, 1), ServerStep::Drop));
    keep(&mut server, 1, 0);
    server.sweep(PENDING_STALE_NS);
    assert!(matches!(
        server.handle_dgram(addr(1), Some(&third), false, PENDING_STALE_NS),
        ServerStep::Drop
    ));
}

#[test]
fn foreign_datagrams_are_dropped() {
    let mut server: UdpServer<u32, u32> = UdpServer::new();
    for inner in [vec![], vec![0x77], encode_inner(DgramType::Hs2, b"x"), vec![0x01, 0xff]] {
        assert!(matches!(
            server.handle_dgram(addr(1), Some(&inner), false, 0),
            ServerStep::Drop
        ));
    }
    assert!(matches!(server.handle_dgram(addr(1), None, false, 0), ServerStep::Drop));
}

#[test]
fn old_handshake_outlives_junk() {
    let mut server: UdpServer<u32, u32> = UdpServer::new();
    let third = encode_inner(DgramType::Hs3, b"m3");
    let data = encode_inner(DgramType::Data, b"rec");
    assert!(keep(&mut server, 1, 0));
    let junk = [None, Some(vec![]), Some(vec![0x77]), Some(third.clone()), Some(data)];
    for inner in junk {
        let step = server.handle_dgram(addr(2), inner.as_deref(), false, PENDING_STALE_NS);
        assert!(matches!(step, ServerStep::Drop));
    }
    assert!(server.finish_handshake::<()>(addr(3), Admission::Refused, PENDING_STALE_NS).is_none());
    assert!(matches!(
        server.handle_dgram(addr(1), Some(&third), false, PENDING_STALE_NS),
        ServerStep::Complete { responder: 1, .. }
    ));
}

#[test]
fn other_datagrams_sweep_the_tables() {
    let malformed_first = vec![0x01, 0xff];
    let second = encode_inner(DgramType::Hs2, b"x");
    let cookie = encode_inner(DgramType::Cookie, &[0; 16]);
    for inner in [malformed_first, second, cookie] {
        let mut server: UdpServer<u32, u32> = UdpServer::new();
        assert!(keep(&mut server, 1, 0));
        server.handle_dgram(addr(2), Some(&inner), false, PENDING_STALE_NS - 1);
        assert_eq!(server.pending_len(), 1);
        server.handle_dgram(addr(2), Some(&inner), false, PENDING_STALE_NS);
        assert_eq!(server.pending_len(), 0);
    }
    let mut server: UdpServer<u32, u32> = UdpServer::new();
    assert!(keep(&mut server, 1, 0));
    server.finish_handshake::<()>(addr(3), Admission::Failed, PENDING_STALE_NS);
    assert_eq!(server.pending_len(), 0);
}

#[test]
fn gate_decides_about_a_completed_handshake() {
    let gate = KeyAllowList::new([[5; 32]]);
    let good = complete_handshake_msg3(Ok(vec![1; 32]), Some([5; 32]));
    assert!(matches!(admit_client(good, &gate), Admission::Admitted(_)));
    let stranger = complete_handshake_msg3(Ok(vec![1; 32]), Some([6; 32]));
    assert!(matches!(admit_client(stranger, &gate), Admission::Refused));
    let failed = complete_handshake_msg3(Ok(vec![]), Some([5; 32]));
    assert!(matches!(admit_client(failed, &gate), Admission::Failed));
    let mut server: UdpServer<u32, u32> = UdpServer::new();
    assert!(server.finish_handshake::<()>(addr(1), Admission::Failed, 0).is_none());
    assert!(server.finish_handshake::<()>(addr(1), Admission::Refused, 0).is_none());
    assert_eq!(server.peer_count(), 0);
    let broken: Result<Option<AcceptResult<u32>>, ObfsError> = Err(ObfsError::Closed);
    assert!(server.on_accept(addr(1), broken, 0).is_none());
}
