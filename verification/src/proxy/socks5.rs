//! SOCKS5 CONNECT negotiation with optional username/password
//! authentication, as a state machine over the bytes of the stream.

use crate::error::{io_err, join, ErrorView, IoKind, ObfsError};
use crate::proxy::ProxyAuth;
use vstd::prelude::*;
use vstd::slice::slice_to_vec;
use vstd::string::*;
use vstd::utf8::encode_utf8;

verus! {

/// The reply that is waited for.
#[derive(Debug, Clone, Copy, PartialEq, Eq, Structural)]
pub enum Socks5Phase {
    /// The proxy's choice of a method.
    Method,
    /// The outcome of the authentication.
    Auth,
    /// The head of the reply to the CONNECT request.
    Reply,
    /// The length of the domain name in the reply.
    DomainLen,
    /// So many last bytes of the reply.
    Tail(usize),
    /// Nothing: the tunnel is open.
    Finished,
    /// Nothing: the negotiation has failed.
    Failed,
}

/// A negotiation in progress.
pub struct Socks5 {
    host: Vec<u8>,
    port: u16,
    auth: Option<(Vec<u8>, Vec<u8>)>,
    phase: Socks5Phase,
    failure: String,
}

/// A [`Socks5`] as a value.
#[verifier::ext_equal]
pub struct Socks5Model {
    /// The target's host name.
    pub host: Seq<u8>,
    /// The target's port.
    pub port: u16,
    /// Username and password.
    pub auth: Option<(Seq<u8>, Seq<u8>)>,
    /// The reply that is waited for.
    pub phase: Socks5Phase,
    /// Why the negotiation has failed; empty before.
    pub failure: Seq<char>,
}

impl View for Socks5 {
    type V = Socks5Model;

    closed spec fn view(&self) -> Socks5Model {
        Socks5Model {
            host: self.host@,
            port: self.port,
            auth: match self.auth {
                Some((u, p)) => Some((u@, p@)),
                None => None,
            },
            phase: self.phase,
            failure: self.failure@,
        }
    }
}

/// What to do on the stream.
pub enum Socks5Action {
    /// Write `send`, then read exactly `read` bytes.
    Exchange { send: Vec<u8>, read: usize },
    /// Read exactly so many bytes.
    Read(usize),
    /// The tunnel is open, and the stream is right behind the reply.
    Done,
    /// Give up.
    Fail(ObfsError),
}

/// A [`Socks5Action`] with its contents as sequences.
#[verifier::ext_equal]
pub enum Socks5View {
    Exchange { send: Seq<u8>, read: usize },
    Read(usize),
    Done,
    Fail(ErrorView),
}

impl View for Socks5Action {
    type V = Socks5View;

    open spec fn view(&self) -> Socks5View {
        match *self {
            Socks5Action::Exchange { send, read } => Socks5View::Exchange { send: send@, read },
            Socks5Action::Read(n) => Socks5View::Read(n),
            Socks5Action::Done => Socks5View::Done,
            Socks5Action::Fail(e) => Socks5View::Fail(e@),
        }
    }
}

/// How many bytes a phase waits for.
pub open spec fn expects(phase: Socks5Phase) -> nat {
    match phase {
        Socks5Phase::Method => 2,
        Socks5Phase::Auth => 2,
        Socks5Phase::Reply => 4,
        Socks5Phase::DomainLen => 1,
        Socks5Phase::Tail(n) => n as nat,
        Socks5Phase::Finished => 0,
        Socks5Phase::Failed => 0,
    }
}

/// The greeting: no authentication is always offered, username and password
/// only with credentials.
pub open spec fn greeting(with_auth: bool) -> Seq<u8> {
    if with_auth {
        seq![0x05u8, 0x02u8, 0x00u8, 0x02u8]
    } else {
        seq![0x05u8, 0x01u8, 0x00u8]
    }
}

/// The username/password request.
pub open spec fn auth_request(user: Seq<u8>, pass: Seq<u8>) -> Seq<u8> {
    seq![0x01u8, user.len() as u8] + user + seq![pass.len() as u8] + pass
}

/// The CONNECT request for a domain name.
pub open spec fn connect_request(host: Seq<u8>, port: u16) -> Seq<u8> {
    seq![0x05u8, 0x01u8, 0x00u8, 0x03u8, host.len() as u8] + host + seq![
        (port / 256) as u8,
        (port % 256) as u8,
    ]
}

/// What the reply code of a refused CONNECT means.
pub open spec fn reply_text(code: u8) -> Seq<char> {
    if code == 0x01 {
        "general SOCKS server failure"@
    } else if code == 0x02 {
        "connection not allowed by ruleset"@
    } else if code == 0x03 {
        "network unreachable"@
    } else if code == 0x04 {
        "host unreachable"@
    } else if code == 0x05 {
        "connection refused"@
    } else if code == 0x06 {
        "TTL expired"@
    } else if code == 0x07 {
        "command not supported"@
    } else if code == 0x08 {
        "address type not supported"@
    } else {
        "unknown error"@
    }
}

/// The negotiation ends with an error.
pub open spec fn socks5_fail(m: Socks5Model, text: Seq<char>) -> (Socks5Model, Socks5View) {
    (
        Socks5Model { phase: Socks5Phase::Failed, failure: text, ..m },
        Socks5View::Fail(ErrorView::Io(IoKind::Other, text)),
    )
}

/// The CONNECT request goes out, if the host name fits.
pub open spec fn socks5_connect(m: Socks5Model) -> (Socks5Model, Socks5View) {
    if m.host.len() > 255 {
        socks5_fail(m, "SOCKS5: target hostname too long"@)
    } else {
        (
            Socks5Model { phase: Socks5Phase::Reply, ..m },
            Socks5View::Exchange { send: connect_request(m.host, m.port), read: 4 },
        )
    }
}

/// The proxy has chosen a method.
pub open spec fn socks5_method(m: Socks5Model, data: Seq<u8>) -> (Socks5Model, Socks5View) {
    if data[0] != 0x05 {
        socks5_fail(m, "SOCKS5: invalid greeting reply version"@)
    } else if data[1] == 0xFF {
        socks5_fail(m, "SOCKS5: no acceptable authentication method"@)
    } else if data[1] == 0x02 {
        match m.auth {
            None => socks5_fail(m, "SOCKS5: server requires auth but none provided"@),
            Some((user, pass)) => if user.len() > 255 || pass.len() > 255 {
                socks5_fail(m, "SOCKS5: username or password too long"@)
            } else {
                (
                    Socks5Model { phase: Socks5Phase::Auth, ..m },
                    Socks5View::Exchange { send: auth_request(user, pass), read: 2 },
                )
            },
        }
    } else {
        socks5_connect(m)
    }
}

/// The head of the reply to the CONNECT request has come.
pub open spec fn socks5_reply(m: Socks5Model, data: Seq<u8>) -> (Socks5Model, Socks5View) {
    if data[0] != 0x05 {
        socks5_fail(m, "SOCKS5: invalid reply version"@)
    } else if data[1] != 0x00 {
        socks5_fail(m, "SOCKS5: CONNECT failed: "@ + reply_text(data[1]))
    } else if data[3] == 0x01 {
        (Socks5Model { phase: Socks5Phase::Tail(6), ..m }, Socks5View::Read(6))
    } else if data[3] == 0x03 {
        (Socks5Model { phase: Socks5Phase::DomainLen, ..m }, Socks5View::Read(1))
    } else if data[3] == 0x04 {
        (Socks5Model { phase: Socks5Phase::Tail(18), ..m }, Socks5View::Read(18))
    } else {
        socks5_fail(m, "SOCKS5: unknown address type in reply"@)
    }
}

/// One step of a negotiation: the bytes that were waited for have come.
pub open spec fn socks5_step(m: Socks5Model, data: Seq<u8>) -> (Socks5Model, Socks5View) {
    match m.phase {
        Socks5Phase::Method => socks5_method(m, data),
        Socks5Phase::Auth => if data[1] != 0x00 {
            socks5_fail(m, "SOCKS5: authentication failed"@)
        } else {
            socks5_connect(m)
        },
        Socks5Phase::Reply => socks5_reply(m, data),
        Socks5Phase::DomainLen => {
            let n = (data[0] + 2) as usize;
            (Socks5Model { phase: Socks5Phase::Tail(n), ..m }, Socks5View::Read(n))
        },
        Socks5Phase::Tail(_) => (
            Socks5Model { phase: Socks5Phase::Finished, ..m },
            Socks5View::Done,
        ),
        Socks5Phase::Finished => (m, Socks5View::Done),
        Socks5Phase::Failed => socks5_fail(m, m.failure),
    }
}

/// The bytes of optional credentials.
pub open spec fn credentials(auth: Option<&ProxyAuth>) -> Option<(Seq<u8>, Seq<u8>)> {
    match auth {
        Some(a) => Some((encode_utf8(a.user@), encode_utf8(a.pass@))),
        None => None,
    }
}

/// Starts a negotiation for a tunnel to `target_host` and `target_port`.
pub fn tunnel_socks5(target_host: &str, target_port: u16, auth: Option<&ProxyAuth>) -> (r: (
    Socks5,
    Socks5Action,
))
    ensures
        r.0@ == (Socks5Model {
            host: encode_utf8(target_host@),
            port: target_port,
            auth: credentials(auth),
            phase: Socks5Phase::Method,
            failure: Seq::empty(),
        }),
        r.1@ == (Socks5View::Exchange { send: greeting(auth is Some), read: 2 }),
{
    let mut send: Vec<u8> = Vec::new();
    send.push(0x05);
    let creds: Option<(Vec<u8>, Vec<u8>)> = match auth {
        Some(a) => {
            send.push(0x02);
            send.push(0x00);
            send.push(0x02);
            Some((slice_to_vec(a.user.as_str().as_bytes()), slice_to_vec(a.pass.as_str().as_bytes())))
        },
        None => {
            send.push(0x01);
            send.push(0x00);
            None
        },
    };
    assert(send@ =~= greeting(auth is Some));
    let machine = Socks5 {
        host: slice_to_vec(target_host.as_bytes()),
        port: target_port,
        auth: creds,
        phase: Socks5Phase::Method,
        failure: String::new(),
    };
    (machine, Socks5Action::Exchange { send, read: 2 })
}

/// The text for the reply code of a refused CONNECT.
fn reply_message(code: u8) -> (text: &'static str)
    ensures
        text@ == reply_text(code),
{
    match code {
        0x01 => "general SOCKS server failure",
        0x02 => "connection not allowed by ruleset",
        0x03 => "network unreachable",
        0x04 => "host unreachable",
        0x05 => "connection refused",
        0x06 => "TTL expired",
        0x07 => "command not supported",
        0x08 => "address type not supported",
        _ => "unknown error",
    }
}

impl Socks5 {
    fn fail(&mut self, text: &str) -> (action: Socks5Action)
        ensures
            (final(self)@, action@) == socks5_fail(old(self)@, text@),
    {
        self.phase = Socks5Phase::Failed;
        self.failure = text.to_owned();
        Socks5Action::Fail(io_err(text))
    }

    fn connect(&mut self) -> (action: Socks5Action)
        ensures
            (final(self)@, action@) == socks5_connect(old(self)@),
    {
        if self.host.len() > 255 {
            return self.fail("SOCKS5: target hostname too long");
        }
        let mut send: Vec<u8> = Vec::new();
        send.push(0x05);
        send.push(0x01);
        send.push(0x00);
        send.push(0x03);
        send.push(self.host.len() as u8);
        send.extend_from_slice(self.host.as_slice());
        send.push((self.port / 256) as u8);
        send.push((self.port % 256) as u8);
        assert(send@ =~= connect_request(self.host@, self.port));
        self.phase = Socks5Phase::Reply;
        Socks5Action::Exchange { send, read: 4 }
    }

    fn method_chosen(&mut self, version: u8, method: u8) -> (action: Socks5Action)
        ensures
            (final(self)@, action@) == socks5_method(old(self)@, seq![version, method]),
    {
        if version != 0x05 {
            return self.fail("SOCKS5: invalid greeting reply version");
        }
        if method == 0xFF {
            return self.fail("SOCKS5: no acceptable authentication method");
        }
        if method == 0x02 {
            let send: Vec<u8> = match &self.auth {
                None => {
                    return self.fail("SOCKS5: server requires auth but none provided");
                },
                Some((user, pass)) => {
                    if user.len() > 255 || pass.len() > 255 {
                        return self.fail("SOCKS5: username or password too long");
                    }
                    let mut send: Vec<u8> = Vec::new();
                    send.push(0x01);
                    send.push(user.len() as u8);
                    send.extend_from_slice(user.as_slice());
                    send.push(pass.len() as u8);
                    send.extend_from_slice(pass.as_slice());
                    assert(send@ =~= auth_request(user@, pass@));
                    send
                },
            };
            self.phase = Socks5Phase::Auth;
            Socks5Action::Exchange { send, read: 2 }
        } else {
            self.connect()
        }
    }

    fn reply_head(&mut self, data: &[u8]) -> (action: Socks5Action)
        requires
            data@.len() == 4,
        ensures
            (final(self)@, action@) == socks5_reply(old(self)@, data@),
    {
        if data[0] != 0x05 {
            return self.fail("SOCKS5: invalid reply version");
        }
        if data[1] != 0x00 {
            let text: String = join("SOCKS5: CONNECT failed: ", reply_message(data[1]));
            return self.fail(text.as_str());
        }
        match data[3] {
            0x01 => {
                self.phase = Socks5Phase::Tail(6);
                Socks5Action::Read(6)
            },
            0x03 => {
                self.phase = Socks5Phase::DomainLen;
                Socks5Action::Read(1)
            },
            0x04 => {
                self.phase = Socks5Phase::Tail(18);
                Socks5Action::Read(18)
            },
            _ => self.fail("SOCKS5: unknown address type in reply"),
        }
    }

    /// How many bytes are waited for.
    pub fn expected(&self) -> (n: usize)
        ensures
            n == expects(self@.phase),
    {
        match self.phase {
            Socks5Phase::Method => 2,
            Socks5Phase::Auth => 2,
            Socks5Phase::Reply => 4,
            Socks5Phase::DomainLen => 1,
            Socks5Phase::Tail(n) => n,
            Socks5Phase::Finished => 0,
            Socks5Phase::Failed => 0,
        }
    }

    /// Takes the bytes that were waited for, and decides what to do next.
    pub fn step(&mut self, data: &[u8]) -> (action: Socks5Action)
        requires
            data@.len() == expects(old(self)@.phase),
        ensures
            (final(self)@, action@) == socks5_step(old(self)@, data@),
    {
        match self.phase {
            Socks5Phase::Method => {
                assert(data@ =~= seq![data@[0], data@[1]]);
                self.method_chosen(data[0], data[1])
            },
            Socks5Phase::Auth => {
                if data[1] != 0x00 {
                    return self.fail("SOCKS5: authentication failed");
                }
                self.connect()
            },
            Socks5Phase::Reply => self.reply_head(data),
            Socks5Phase::DomainLen => {
                let n: usize = data[0] as usize + 2;
                self.phase = Socks5Phase::Tail(n);
                Socks5Action::Read(n)
            },
            Socks5Phase::Tail(_) => {
                self.phase = Socks5Phase::Finished;
                Socks5Action::Done
            },
            Socks5Phase::Finished => Socks5Action::Done,
            Socks5Phase::Failed => Socks5Action::Fail(io_err(self.failure.as_str())),
        }
    }
}

/// How far a phase is from the end.
pub open spec fn socks5_rank(phase: Socks5Phase) -> nat {
    match phase {
        Socks5Phase::Method => 5,
        Socks5Phase::Auth => 4,
        Socks5Phase::Reply => 3,
        Socks5Phase::DomainLen => 2,
        Socks5Phase::Tail(_) => 1,
        Socks5Phase::Finished => 0,
        Socks5Phase::Failed => 0,
    }
}

/// Whether a phase is the last one.
pub open spec fn socks5_over(phase: Socks5Phase) -> bool {
    phase == Socks5Phase::Finished || phase == Socks5Phase::Failed
}

/// A negotiation on the stream `input`: its last action, and how many bytes of
/// the stream it has read. With too little input it ends before its time.
pub open spec fn socks5_run(m: Socks5Model, input: Seq<u8>) -> (Option<Socks5View>, nat)
    decreases socks5_rank(m.phase),
{
    let n = expects(m.phase);
    if socks5_over(m.phase) || input.len() < n {
        (None, 0)
    } else {
        let (next, action) = socks5_step(m, input.take(n as int));
        if socks5_over(next.phase) {
            (Some(action), n)
        } else {
            let (last, more) = socks5_run(next, input.skip(n as int));
            (last, n + more)
        }
    }
}

/// Every step brings a negotiation closer to its end, which is success or
/// failure.
pub proof fn law_negotiation_ends(m: Socks5Model, data: Seq<u8>)
    requires
        !socks5_over(m.phase),
    ensures
        socks5_rank(socks5_step(m, data).0.phase) < socks5_rank(m.phase),
        socks5_step(m, data).1 is Done <==> socks5_step(m, data).0.phase == Socks5Phase::Finished,
        socks5_step(m, data).1 is Fail <==> socks5_step(m, data).0.phase == Socks5Phase::Failed,
{
}

/// A negotiation that is over stays as it ended: open, or failed with the same
/// error.
pub proof fn law_end_is_final(m: Socks5Model, data: Seq<u8>, more: Seq<u8>)
    requires
        socks5_over(socks5_step(m, data).0.phase),
    ensures
        socks5_step(socks5_step(m, data).0, more) == socks5_step(m, data),
{
}

/// Bound address and port of a reply: for an IPv4 or IPv6 address their fixed
/// length, for a name its length, the name and the port.
pub open spec fn is_bound_addr(atyp: u8, addr: Seq<u8>) -> bool {
    ||| atyp == 0x01 && addr.len() == 6
    ||| atyp == 0x04 && addr.len() == 18
    ||| atyp == 0x03 && addr.len() >= 1 && addr.len() == addr[0] + 3
}

proof fn lemma_reply_read_exactly(m: Socks5Model, atyp: u8, rsv: u8, addr: Seq<u8>, rest: Seq<u8>)
    requires
        m.phase == Socks5Phase::Reply,
        is_bound_addr(atyp, addr),
    ensures
        socks5_run(m, seq![0x05u8, 0x00u8, rsv, atyp] + addr + rest) == (
            Some(Socks5View::Done),
            4 + addr.len(),
        ),
{
    reveal_with_fuel(socks5_run, 4);
    let input = seq![0x05u8, 0x00u8, rsv, atyp] + addr + rest;
    assert(input.take(4) =~= seq![0x05u8, 0x00u8, rsv, atyp]);
    assert(input.skip(4) =~= addr + rest);
    if atyp == 0x03 {
        assert((addr + rest).take(1)[0] == addr[0]);
    }
}

/// On success the stream is right behind the proxy's reply: without
/// authentication exactly the choice of a method and the reply are read, and
/// nothing of what the target sends.
pub proof fn law_reads_exactly_the_reply(
    m: Socks5Model,
    rsv: u8,
    atyp: u8,
    addr: Seq<u8>,
    rest: Seq<u8>,
)
    requires
        m.phase == Socks5Phase::Method,
        m.host.len() <= 255,
        is_bound_addr(atyp, addr),
    ensures
        ({
            let input = seq![0x05u8, 0x00u8] + (seq![0x05u8, 0x00u8, rsv, atyp] + addr + rest);
            socks5_run(m, input) == (Some(Socks5View::Done), 6 + addr.len())
        }),
{
    let tail = seq![0x05u8, 0x00u8, rsv, atyp] + addr + rest;
    let input = seq![0x05u8, 0x00u8] + tail;
    assert(input.take(2) =~= seq![0x05u8, 0x00u8]);
    assert(input.skip(2) =~= tail);
    let next = socks5_step(m, input.take(2)).0;
    lemma_reply_read_exactly(next, atyp, rsv, addr, rest);
}

/// The same with username and password: the outcome of the authentication is
/// read too.
pub proof fn law_reads_exactly_the_reply_with_auth(
    m: Socks5Model,
    user: Seq<u8>,
    pass: Seq<u8>,
    version: u8,
    rsv: u8,
    atyp: u8,
    addr: Seq<u8>,
    rest: Seq<u8>,
)
    requires
        m.phase == Socks5Phase::Method,
        m.auth == Some((user, pass)),
        user.len() <= 255,
        pass.len() <= 255,
        m.host.len() <= 255,
        is_bound_addr(atyp, addr),
    ensures
        ({
            let input = seq![0x05u8, 0x02u8] + (seq![version, 0x00u8] + (seq![
                0x05u8,
                0x00u8,
                rsv,
                atyp,
            ] + addr + rest));
            socks5_run(m, input) == (Some(Socks5View::Done), 8 + addr.len())
        }),
{
    let tail = seq![0x05u8, 0x00u8, rsv, atyp] + addr + rest;
    let middle = seq![version, 0x00u8] + tail;
    let input = seq![0x05u8, 0x02u8] + middle;
    assert(input.take(2) =~= seq![0x05u8, 0x02u8]);
    assert(input.skip(2) =~= middle);
    let waiting = socks5_step(m, input.take(2)).0;
    assert(waiting.phase == Socks5Phase::Auth);
    assert(middle.take(2) =~= seq![version, 0x00u8]);
    assert(middle.skip(2) =~= tail);
    let next = socks5_step(waiting, middle.take(2)).0;
    lemma_reply_read_exactly(next, atyp, rsv, addr, rest);
    assert(socks5_run(waiting, middle) == (Some(Socks5View::Done), 6 + addr.len()));
}

/// Host and port that a CONNECT request with a domain name asks for.
pub open spec fn requested_target(request: Seq<u8>) -> Option<(Seq<u8>, int)> {
    if request.len() >= 7 && request[0] == 0x05 && request[1] == 0x01 && request[2] == 0x00
        && request[3] == 0x03
        && request.len() == request[4] + 7 {
        let n = request.len();
        Some((request.subrange(5, n - 2), request[n - 2] * 256 + request[n - 1]))
    } else {
        None
    }
}

/// A proxy reads from the CONNECT request the very host and port that were
/// asked for.
pub proof fn law_request_names_target(host: Seq<u8>, port: u16)
    requires
        host.len() <= 255,
    ensures
        requested_target(connect_request(host, port)) == Some((host, port as int)),
{
    let request = connect_request(host, port);
    let n = request.len();
    assert(request.subrange(5, n - 2) =~= host);
    assert(request[n - 2] == (port / 256) as u8);
    assert(request[n - 1] == (port % 256) as u8);
}

/// Username and password of an authentication request.
pub open spec fn offered_credentials(request: Seq<u8>) -> Option<(Seq<u8>, Seq<u8>)> {
    if request.len() >= 3 && request[0] == 0x01 && request.len() >= 3 + request[1] && request.len()
        == 3 + request[1] + request[2 + request[1]] {
        Some(
            (
                request.subrange(2, 2 + request[1]),
                request.subrange(3 + request[1], request.len() as int),
            ),
        )
    } else {
        None
    }
}

/// A proxy reads from the authentication request the very username and
/// password that were configured.
pub proof fn law_auth_request_roundtrip(user: Seq<u8>, pass: Seq<u8>)
    requires
        user.len() <= 255,
        pass.len() <= 255,
    ensures
        offered_credentials(auth_request(user, pass)) == Some((user, pass)),
{
    let request = auth_request(user, pass);
    assert(request[1] == user.len() as u8);
    assert(request[2 + user.len() as int] == pass.len() as u8);
    assert(request.subrange(2, 2 + user.len() as int) =~= user);
    assert(request.subrange(3 + user.len() as int, request.len() as int) =~= pass);
}

/// A proxy that refuses the credentials ends the negotiation with an error.
pub proof fn law_wrong_password_fails(m: Socks5Model, data: Seq<u8>)
    requires
        m.phase == Socks5Phase::Auth,
        data.len() == 2,
        data[1] != 0x00,
    ensures
        socks5_step(m, data) == socks5_fail(m, "SOCKS5: authentication failed"@),
{
}

/// The methods that a greeting offers.
pub open spec fn offered_methods(message: Seq<u8>) -> Option<Seq<u8>> {
    if message.len() >= 2 && message[0] == 0x05 && message.len() == 2 + message[1] {
        Some(message.skip(2))
    } else {
        None
    }
}

/// A negotiation is started for the host, the port and the credentials that
/// were given. It offers to go without authentication, offers username and
/// password exactly if there are any, and offers nothing else.
pub proof fn law_negotiation_is_for_the_target(
    host: &str,
    port: u16,
    auth: Option<&ProxyAuth>,
    r: (Socks5, Socks5Action),
)
    requires
        call_ensures(tunnel_socks5, (host, port, auth), r),
    ensures
        r.0@.host == encode_utf8(host@),
        r.0@.port == port,
        match (r.0@.auth, auth) {
            (Some((user, pass)), Some(a)) => user == encode_utf8(a.user@) && pass == encode_utf8(
                a.pass@,
            ),
            (None, None) => true,
            _ => false,
        },
        r.0@.phase == Socks5Phase::Method,
        expects(r.0@.phase) == 2,
        r.1 matches Socks5Action::Exchange { send, read } && read == 2 && (offered_methods(
            send@,
        ) matches Some(methods) && methods.contains(0x00) && (methods.contains(0x02) <==> auth is Some)
            && forall|i: int|
            0 <= i < methods.len() ==> (#[trigger] methods[i]) == 0x00 || methods[i] == 0x02),
{
    let send = greeting(auth is Some);
    let methods = send.skip(2);
    assert(methods[0] == 0x00);
    if auth is Some {
        assert(methods[1] == 0x02);
    }
}

/// Target and credentials of a negotiation never change.
pub proof fn law_target_is_fixed(s: &mut Socks5, data: &[u8], action: Socks5Action)
    requires
        call_ensures(Socks5::step, (s, data), action),
    ensures
        final(s)@.host == old(s)@.host,
        final(s)@.port == old(s)@.port,
        final(s)@.auth == old(s)@.auth,
{
}

/// Whether the negotiation `m` has ended with `action`, an error with this
/// text.
pub open spec fn failed_with(m: Socks5Model, action: Socks5Action, text: Seq<char>) -> bool {
    &&& m.phase == Socks5Phase::Failed
    &&& m.failure == text
    &&& action matches Socks5Action::Fail(ObfsError::Io(IoKind::Other, t)) && t@ == text
}

/// Whether a proxy is ready for the CONNECT request: it wants no
/// authentication, or has accepted the credentials.
pub open spec fn is_ready(phase: Socks5Phase, data: Seq<u8>) -> bool {
    ||| phase == Socks5Phase::Method && data[0] == 0x05 && data[1] != 0x02 && data[1] != 0xFF
    ||| phase == Socks5Phase::Auth && data[1] == 0x00
}

/// Once the proxy is ready, and only then, it is asked for a tunnel, and the
/// request names the very host and port of the negotiation, with and without
/// authentication. A host name that does not fit is an error.
pub proof fn law_tunnel_is_to_the_target(s: &mut Socks5, data: &[u8], action: Socks5Action)
    requires
        call_ensures(Socks5::step, (s, data), action),
    ensures
        ({
            let m = old(s)@;
            let ready = is_ready(m.phase, data@);
            &&& m.phase != Socks5Phase::Reply ==> (final(s)@.phase == Socks5Phase::Reply <==> ready
                && m.host.len() <= 255)
            &&& ready && m.host.len() <= 255 ==> (action matches Socks5Action::Exchange { send, read }
                && read == 4 && requested_target(send@) == Some((m.host, m.port as int)))
            &&& ready && m.host.len() > 255 ==> failed_with(
                final(s)@,
                action,
                "SOCKS5: target hostname too long"@,
            )
        }),
{
    if old(s)@.host.len() <= 255 {
        law_request_names_target(old(s)@.host, old(s)@.port);
    }
}

/// A proxy that asks for username and password, and no other, gets those of the
/// negotiation. Without credentials, or with some that do not fit, the
/// negotiation fails.
pub proof fn law_credentials_are_the_configured_ones(
    s: &mut Socks5,
    data: &[u8],
    action: Socks5Action,
)
    requires
        call_ensures(Socks5::step, (s, data), action),
    ensures
        ({
            let m = old(s)@;
            let asked = m.phase == Socks5Phase::Method && data@[0] == 0x05 && data@[1] == 0x02;
            &&& m.phase != Socks5Phase::Auth && final(s)@.phase == Socks5Phase::Auth ==> asked
            &&& asked ==> match m.auth {
                Some((user, pass)) => if user.len() <= 255 && pass.len() <= 255 {
                    &&& final(s)@.phase == Socks5Phase::Auth
                    &&& action matches Socks5Action::Exchange { send, read } && read == 2
                        && offered_credentials(send@) == Some((user, pass))
                } else {
                    failed_with(final(s)@, action, "SOCKS5: username or password too long"@)
                },
                None => failed_with(
                    final(s)@,
                    action,
                    "SOCKS5: server requires auth but none provided"@,
                ),
            }
        }),
{
    if let Some((user, pass)) = old(s)@.auth {
        if user.len() <= 255 && pass.len() <= 255 {
            law_auth_request_roundtrip(user, pass);
        }
    }
}

/// A proxy that answers in another protocol, finds no method, or does not accept
/// the credentials ends the negotiation with the error that says so.
pub proof fn law_refused_methods_fail(s: &mut Socks5, data: &[u8], action: Socks5Action)
    requires
        call_ensures(Socks5::step, (s, data), action),
    ensures
        old(s)@.phase == Socks5Phase::Method && data@[0] != 0x05 ==> failed_with(
            final(s)@,
            action,
            "SOCKS5: invalid greeting reply version"@,
        ),
        old(s)@.phase == Socks5Phase::Method && data@[0] == 0x05 && data@[1] == 0xFF ==> failed_with(
            final(s)@,
            action,
            "SOCKS5: no acceptable authentication method"@,
        ),
        old(s)@.phase == Socks5Phase::Auth && data@[1] != 0x00 ==> failed_with(
            final(s)@,
            action,
            "SOCKS5: authentication failed"@,
        ),
{
}

/// The reply to the CONNECT request decides: the tunnel opens exactly if the
/// version is five, the code zero, and the type of the bound address known.
/// What is left to read then is that address and its port.
pub proof fn law_reply_decides(s: &mut Socks5, data: &[u8], action: Socks5Action)
    requires
        call_ensures(Socks5::step, (s, data), action),
        old(s)@.phase == Socks5Phase::Reply,
    ensures
        data@[0] != 0x05 ==> failed_with(final(s)@, action, "SOCKS5: invalid reply version"@),
        data@[0] == 0x05 && data@[1] != 0x00 ==> failed_with(
            final(s)@,
            action,
            "SOCKS5: CONNECT failed: "@ + reply_text(data@[1]),
        ),
        data@[0] == 0x05 && data@[1] == 0x00 ==> match data@[3] {
            0x01 => action == Socks5Action::Read(6) && final(s)@.phase == Socks5Phase::Tail(6),
            0x03 => action == Socks5Action::Read(1) && final(s)@.phase == Socks5Phase::DomainLen,
            0x04 => action == Socks5Action::Read(18) && final(s)@.phase == Socks5Phase::Tail(18),
            _ => failed_with(final(s)@, action, "SOCKS5: unknown address type in reply"@),
        },
{
}

/// A bound domain name is read to its end with its port, and behind the last
/// bytes of the reply the tunnel is open.
pub proof fn law_reply_is_read_to_its_end(s: &mut Socks5, data: &[u8], action: Socks5Action)
    requires
        call_ensures(Socks5::step, (s, data), action),
    ensures
        old(s)@.phase == Socks5Phase::DomainLen ==> (action matches Socks5Action::Read(n) && n
            == data@[0] + 2 && final(s)@.phase == Socks5Phase::Tail(n)),
        old(s)@.phase is Tail ==> action is Done && final(s)@.phase == Socks5Phase::Finished,
        action is Done <==> old(s)@.phase is Tail || old(s)@.phase == Socks5Phase::Finished,
        old(s)@.phase == Socks5Phase::Finished ==> final(s)@ == old(s)@,
        old(s)@.phase == Socks5Phase::Failed ==> failed_with(final(s)@, action, old(s)@.failure),
{
}

/// Whatever an action asks to read is what is waited for next.
pub proof fn law_waits_for_what_it_asks(
    s: &mut Socks5,
    data: &[u8],
    action: Socks5Action,
    n: usize,
)
    requires
        call_ensures(Socks5::step, (s, data), action),
        call_ensures(Socks5::expected, (&*final(s),), n),
    ensures
        action matches Socks5Action::Exchange { read, .. } ==> n == read,
        action matches Socks5Action::Read(read) ==> n == read,
        action is Done || action is Fail ==> n == 0,
        n == expects(final(s)@.phase),
{
}

/// Each reply code has its text.
pub proof fn law_refusals_are_named(code: u8)
    ensures
        code == 1 ==> reply_text(code) == "general SOCKS server failure"@,
        code == 2 ==> reply_text(code) == "connection not allowed by ruleset"@,
        code == 3 ==> reply_text(code) == "network unreachable"@,
        code == 4 ==> reply_text(code) == "host unreachable"@,
        code == 5 ==> reply_text(code) == "connection refused"@,
        code == 6 ==> reply_text(code) == "TTL expired"@,
        code == 7 ==> reply_text(code) == "command not supported"@,
        code == 8 ==> reply_text(code) == "address type not supported"@,
        code > 8 ==> reply_text(code) == "unknown error"@,
{
}

} // verus!
