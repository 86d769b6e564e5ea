use vaiexia_obfs::proxy::http_connect::{
    base64_encode, connect_request, parse_response, parse_status, tunnel_http_connect, HttpStep,
};
use vaiexia_obfs::proxy::socks5::{tunnel_socks5, Socks5Action};
use vaiexia_obfs::proxy::{dial, parse_addr, DialStep, ProxyAuth, ProxyConfig, ProxyHop, ProxyKind};

fn creds(user: &str, pass: &str) -> ProxyAuth {
    ProxyAuth { user: user.to_string(), pass: pass.to_string() }
}

/// Runs a negotiation against the bytes that a proxy sends: returns what was
/// written, how many bytes were read, and the outcome.
fn run_socks5(
    host: &str,
    port: u16,
    auth: Option<&ProxyAuth>,
    replies: &[u8],
) -> (Vec<u8>, usize, Result<(), String>) {
    let mut written = Vec::new();
    let mut position = 0;
    let (mut machine, mut action) = tunnel_socks5(host, port, auth);
    loop {
        let n = match action {
            Socks5Action::Exchange { send, read } => {
                written.extend_from_slice(&send);
                read
            }
            Socks5Action::Read(n) => n,
            Socks5Action::Done => return (written, position, Ok(())),
            Socks5Action::Fail(e) => return (written, position, Err(e.message())),
        };
        assert_eq!(machine.expected(), n);
        let data = &replies[position..position + n];
        position += n;
        action = machine.step(data);
    }
}

const CONNECTED: [u8; 10] = [5, 0, 0, 1, 0, 0, 0, 0, 0, 0];

#[test]
fn socks5_tunnel_no_auth() {
    let mut replies = vec![5, 0];
    replies.extend_from_slice(&CONNECTED);
    replies.extend_from_slice(b"hello socks5");
    let (written, read, outcome) = run_socks5("127.0.0.1", 8080, None, &replies);
    assert_eq!(outcome, Ok(()));
    assert_eq!(read, 12);
    assert_eq!(&replies[read..], b"hello socks5");
    let mut expected = vec![5, 1, 0, 5, 1, 0, 3, 9];
    expected.extend_from_slice(b"127.0.0.1");
    expected.extend_from_slice(&[0x1f, 0x90]);
    assert_eq!(written, expected);
}

#[test]
fn socks5_tunnel_auth_success() {
    let auth = creds("alice", "s3cr3t");
    let mut replies = vec![5, 2, 1, 0];
    replies.extend_from_slice(&CONNECTED);
    replies.extend_from_slice(b"authenticated round-trip");
    let (written, read, outcome) = run_socks5("127.0.0.1", 80, Some(&auth), &replies);
    assert_eq!(outcome, Ok(()));
    assert_eq!(&replies[read..], b"authenticated round-trip");
    let mut expected = vec![5, 2, 0, 2, 1, 5];
    expected.extend_from_slice(b"alice");
    expected.push(6);
    expected.extend_from_slice(b"s3cr3t");
    assert_eq!(&written[..expected.len()], &expected[..]);
}

#[test]
fn socks5_tunnel_auth_wrong_password() {
    let auth = creds("alice", "wrong");
    let (_, _, outcome) = run_socks5("127.0.0.1", 1234, Some(&auth), &[5, 2, 1, 1]);
    assert_eq!(outcome, Err("IO error: SOCKS5: authentication failed".to_string()));
}

#[test]
fn socks5_errors() {
    let auth = creds("alice", "s3cr3t");
    let long = "x".repeat(256);
    let long_auth = creds(&long, "p");
    let cases: Vec<(&str, Option<&ProxyAuth>, Vec<u8>, &str)> = vec![
        ("h", None, vec![4, 0], "SOCKS5: invalid greeting reply version"),
        ("h", None, vec![5, 0xff], "SOCKS5: no acceptable authentication method"),
        ("h", None, vec![5, 2], "SOCKS5: server requires auth but none provided"),
        ("h", Some(&long_auth), vec![5, 2], "SOCKS5: username or password too long"),
        (&long, None, vec![5, 0], "SOCKS5: target hostname too long"),
        ("h", None, vec![5, 0, 4, 0, 0, 1], "SOCKS5: invalid reply version"),
        ("h", Some(&auth), vec![5, 0, 5, 0, 0, 9], "SOCKS5: unknown address type in reply"),
    ];
    for (host, auth, replies, text) in cases {
        let (_, _, outcome) = run_socks5(host, 1, auth, &replies);
        assert_eq!(outcome, Err(format!("IO error: {text}")));
    }
}

#[test]
fn socks5_refusals_are_named() {
    let texts = [
        (1, "general SOCKS server failure"),
        (2, "connection not allowed by ruleset"),
        (3, "network unreachable"),
        (4, "host unreachable"),
        (5, "connection refused"),
        (6, "TTL expired"),
        (7, "command not supported"),
        (8, "address type not supported"),
        (9, "unknown error"),
    ];
    for (code, text) in texts {
        let (_, _, outcome) = run_socks5("h", 1, None, &[5, 0, 5, code, 0, 1]);
        assert_eq!(outcome, Err(format!("IO error: SOCKS5: CONNECT failed: {text}")));
    }
}

#[test]
fn socks5_end_is_final() {
    let (mut machine, _) = tunnel_socks5("h", 1, None);
    assert!(matches!(machine.step(&[4, 0]), Socks5Action::Fail(_)));
    assert_eq!(machine.expected(), 0);
    match machine.step(&[]) {
        Socks5Action::Fail(e) => {
            assert_eq!(e.message(), "IO error: SOCKS5: invalid greeting reply version")
        }
        _ => panic!("a failed negotiation must stay failed"),
    }
    let (mut machine, _) = tunnel_socks5("h", 1, None);
    machine.step(&[5, 0]);
    machine.step(&[5, 0, 0, 1]);
    assert!(matches!(machine.step(&[0; 6]), Socks5Action::Done));
    assert!(matches!(machine.step(&[]), Socks5Action::Done));
}

#[test]
fn socks5_reads_every_address_type_to_its_end() {
    let mut v6 = vec![5, 0, 5, 0, 0, 4];
    v6.extend_from_slice(&[0; 18]);
    assert_eq!(run_socks5("h", 1, None, &v6).1, 24);
    let mut name = vec![5, 0, 5, 0, 0, 3, 4];
    name.extend_from_slice(b"name\x00\x50rest");
    let (_, read, outcome) = run_socks5("h", 1, None, &name);
    assert_eq!(outcome, Ok(()));
    assert_eq!(&name[read..], b"rest");
}

fn run_http(response: &[u8]) -> (usize, Result<(), String>) {
    let (mut machine, _) = tunnel_http_connect("h", 1, None);
    for (i, byte) in response.iter().enumerate() {
        match machine.step(*byte) {
            HttpStep::More => {}
            HttpStep::Done => return (i + 1, Ok(())),
            HttpStep::Fail(e) => return (i + 1, Err(e.message())),
        }
    }
    (response.len(), Err("starved".to_string()))
}

#[test]
fn http_connect_tunnel_no_auth() {
    let (_, request) = tunnel_http_connect("127.0.0.1", 8080, None);
    assert_eq!(request, "CONNECT 127.0.0.1:8080 HTTP/1.1\r\nHost: 127.0.0.1:8080\r\n\r\n");
    let response = b"HTTP/1.1 200 Connection Established\r\n\r\nhttp-connect round-trip";
    let (read, outcome) = run_http(response);
    assert_eq!(outcome, Ok(()));
    assert_eq!(&response[read..], b"http-connect round-trip");
}

#[test]
fn http_connect_tunnel_auth_success() {
    let auth = creds("bob", "passw0rd");
    let request = connect_request("127.0.0.1", 80, Some(&auth));
    assert_eq!(
        request,
        "CONNECT 127.0.0.1:80 HTTP/1.1\r\nHost: 127.0.0.1:80\r\n\
         Proxy-Authorization: Basic Ym9iOnBhc3N3MHJk\r\n\r\n"
    );
}

#[test]
fn http_connect_non_200_response() {
    let (_, outcome) = run_http(b"HTTP/1.1 407 Proxy Auth Required\r\n\r\n");
    let err = outcome.unwrap_err();
    assert!(err.contains("407"), "error should mention status 407, got: {err}");
    assert_eq!(err, "IO error: HTTP CONNECT: proxy returned status 407");
}

#[test]
fn http_connect_errors() {
    let cases: Vec<(&[u8], &str)> = vec![
        (b"HTTP/1.1\r\n\r\n", "HTTP CONNECT: malformed status line"),
        (b"HTTP/1.1 OK 200\r\n\r\n", "HTTP CONNECT: non-numeric status code"),
        (b"HTTP/1.1  200\r\n\r\n", "HTTP CONNECT: non-numeric status code"),
        (b"HTTP/1.1 70000 x\r\n\r\n", "HTTP CONNECT: non-numeric status code"),
        (b"\xff\xfe\r\n\r\n", "HTTP CONNECT: non-UTF8 response"),
    ];
    for (response, text) in cases {
        assert_eq!(run_http(response).1, Err(format!("IO error: {text}")));
    }
    assert_eq!(
        parse_response(b"").unwrap_err().message(),
        "IO error: HTTP CONNECT: empty response"
    );
    assert!(parse_response(b"HTTP/1.1 200").is_ok());
    assert!(parse_status("HTTP/1.0 +200 \u{e9}\nrest").is_ok());
}

#[test]
fn http_connect_header_is_limited() {
    let mut exact = b"HTTP/1.1 200 ".to_vec();
    exact.resize(8188, b'x');
    exact.extend_from_slice(b"\r\n\r\n");
    assert_eq!(exact.len(), 8192);
    assert_eq!(run_http(&exact), (8192, Ok(())));
    let mut over = b"HTTP/1.1 200 ".to_vec();
    over.resize(8189, b'x');
    over.extend_from_slice(b"\r\n\r\n");
    let (read, outcome) = run_http(&over);
    assert_eq!(read, 8193);
    assert_eq!(
        outcome,
        Err("IO error: HTTP CONNECT: response header too large".to_string())
    );
}

#[test]
fn base64_vectors() {
    assert_eq!(base64_encode(b""), "");
    assert_eq!(base64_encode(b"f"), "Zg==");
    assert_eq!(base64_encode(b"fo"), "Zm8=");
    assert_eq!(base64_encode(b"foo"), "Zm9v");
    assert_eq!(base64_encode(b"foob"), "Zm9vYg==");
    assert_eq!(base64_encode(b"foobar"), "Zm9vYmFy");
    assert_eq!(base64_encode(&[0xfb, 0xff, 0xfe]), "+//+");
}

#[test]
fn addresses_split_at_the_last_colon() {
    assert_eq!(parse_addr("proxy:3128").unwrap(), ("proxy".to_string(), 3128));
    assert_eq!(parse_addr("[::1]:80").unwrap(), ("[::1]".to_string(), 80));
    assert_eq!(parse_addr("h:+7").unwrap(), ("h".to_string(), 7));
    assert_eq!(parse_addr(":65535").unwrap(), (String::new(), 65535));
    assert_eq!(parse_addr("proxy").unwrap_err().message(), "IO error: invalid proxy addr");
    for bad in ["h:", "h:x", "h:65536", "h:-1", "h: 1"] {
        assert_eq!(parse_addr(bad).unwrap_err().message(), "IO error: invalid proxy port");
    }
}

fn hop(kind: ProxyKind, addr: &str, auth: Option<ProxyAuth>) -> ProxyHop {
    ProxyHop { kind, addr: addr.to_string(), auth }
}

fn config(addr: &str, chain: Vec<ProxyHop>) -> ProxyConfig {
    ProxyConfig { kind: ProxyKind::Socks5, addr: addr.to_string(), auth: None, chain }
}

#[test]
fn single_hop_socks5_chain() {
    let mut way = dial(&config("proxy:1080", vec![]), "127.0.0.1", 7);
    assert_eq!(way.first_addr(), "proxy:1080");
    match way.next() {
        DialStep::Tunnel { kind, host, port, auth } => {
            assert_eq!(kind, ProxyKind::Socks5);
            assert_eq!(host, "127.0.0.1");
            assert_eq!(port, 7);
            assert!(auth.is_none());
        }
        _ => panic!("expected a tunnel"),
    }
    assert!(matches!(way.next(), DialStep::Done));
}

#[test]
fn two_hop_socks5_chain() {
    let second = hop(ProxyKind::Socks5, "127.0.0.1:1081", None);
    let mut way = dial(&config("127.0.0.1:1080", vec![second]), "127.0.0.1", 7);
    assert_eq!(way.first_addr(), "127.0.0.1:1080");
    for expected in [1081, 7] {
        match way.next() {
            DialStep::Tunnel { kind, host, port, auth } => {
                assert_eq!(kind, ProxyKind::Socks5);
                assert_eq!(host, "127.0.0.1");
                assert_eq!(port, expected);
                assert!(auth.is_none());
            }
            _ => panic!("expected a tunnel"),
        }
    }
    assert!(matches!(way.next(), DialStep::Done));
}

#[test]
fn chain_mixes_kinds_and_credentials() {
    let second = hop(ProxyKind::HttpConnect, "second:3128", Some(creds("u", "p")));
    let mut way = dial(&config("first:1080", vec![second]), "127.0.0.1", 7);
    match way.next() {
        DialStep::Tunnel { kind, host, port, .. } => {
            assert_eq!(kind, ProxyKind::Socks5);
            assert_eq!(host, "second");
            assert_eq!(port, 3128);
        }
        _ => panic!("expected a tunnel"),
    }
    match way.next() {
        DialStep::Tunnel { kind, host, port, auth } => {
            assert_eq!(kind, ProxyKind::HttpConnect);
            assert_eq!(host, "127.0.0.1");
            assert_eq!(port, 7);
            assert_eq!(auth.unwrap().user, "u");
        }
        _ => panic!("expected a tunnel"),
    }
    assert!(matches!(way.next(), DialStep::Done));
}

#[test]
fn bad_address_is_met_when_its_hop_is_reached() {
    let chain = vec![
        hop(ProxyKind::Socks5, "second:1080", None),
        hop(ProxyKind::Socks5, "third", None),
    ];
    let mut way = dial(&config("first", chain), "t", 7);
    assert!(matches!(way.next(), DialStep::Tunnel { .. }));
    for _ in 0..2 {
        match way.next() {
            DialStep::Fail(e) => assert_eq!(e.message(), "IO error: invalid proxy addr"),
            _ => panic!("expected a failure"),
        }
    }
}
