//! Responder side of the datagram handshake, and the framing that both sides
//! share: cookies, the first message with its optional cookie, and the seed
//! inside the third message.

use crate::bytes::{self, push_be16, take16, take32};
use crate::error::{handshake_err, join, ErrorView, ObfsError};
use crate::udp::cookie_gate::LoadGate;
use crate::udp::dataplane::{self, DataChannel};
use crate::udp::peer::PeerAddr;
use crate::udp::wire_dgram::{self, encode_inner, DgramType};
use vstd::prelude::*;
use vstd::slice::{slice_subrange, slice_to_vec};

verus! {

/// The body of a first handshake message: the length of the Noise message in
/// two bytes, the Noise message, and the cookie if there is one. The length
/// field holds the low 16 bits of the length.
pub open spec fn msg1_bytes(msg1: Seq<u8>, cookie: Option<Seq<u8>>) -> Seq<u8> {
    bytes::be16(msg1.len() as int) + msg1 + match cookie {
        Some(c) => c,
        None => Seq::empty(),
    }
}

/// Noise message and cookie of a first handshake message. The cookie is the
/// 16 bytes behind the Noise message; with fewer bytes there is none.
pub open spec fn msg1_parts(body: Seq<u8>) -> Option<(Seq<u8>, Option<Seq<u8>>)> {
    if body.len() < 2 || body.len() - 2 < bytes::from_be16(body[0], body[1]) {
        None
    } else {
        let end = 2 + bytes::from_be16(body[0], body[1]);
        let cookie = if body.len() - end >= 16 {
            Some(body.subrange(end, end + 16))
        } else {
            None
        };
        Some((body.subrange(2, end), cookie))
    }
}

/// The cookie that a challenge carries: its first 16 bytes.
pub open spec fn cookie_parts(body: Seq<u8>) -> Option<Seq<u8>> {
    if body.len() < 16 {
        None
    } else {
        Some(body.subrange(0, 16))
    }
}

/// The bytes of an optional cookie.
pub open spec fn cookie_view(cookie: Option<[u8; 16]>) -> Option<Seq<u8>> {
    match cookie {
        Some(c) => Some(c@),
        None => None,
    }
}

/// The body of a cookie challenge.
pub fn encode_cookie(cookie: [u8; 16]) -> (body: Vec<u8>)
    ensures
        body@ == cookie@,
{
    let mut body: Vec<u8> = Vec::new();
    body.extend_from_slice(cookie.as_slice());
    assert(body@ =~= cookie@);
    body
}

/// The cookie of a challenge; `None` if the body is too short.
pub fn decode_cookie(body: &[u8]) -> (cookie: Option<[u8; 16]>)
    ensures
        cookie_view(cookie) == cookie_parts(body@),
{
    if body.len() < 16 {
        return None;
    }
    Some(take16(body, 0))
}

/// Frames a first handshake message, with the cookie if there is one.
pub fn encode_msg1_framed(msg1: &[u8], cookie: Option<[u8; 16]>) -> (body: Vec<u8>)
    ensures
        body@ == msg1_bytes(msg1@, cookie_view(cookie)),
{
    let mut body: Vec<u8> = Vec::new();
    push_be16(&mut body, msg1.len());
    body.extend_from_slice(msg1);
    if let Some(c) = cookie {
        body.extend_from_slice(c.as_slice());
    }
    assert(body@ =~= msg1_bytes(msg1@, cookie_view(cookie)));
    body
}

/// Splits a first handshake message; `None` if the body is shorter than its
/// length field says.
pub fn decode_msg1_framed(body: &[u8]) -> (parts: Option<(Vec<u8>, Option<[u8; 16]>)>)
    ensures
        match parts {
            Some((msg1, cookie)) => msg1_parts(body@) == Some((msg1@, cookie_view(cookie))),
            None => msg1_parts(body@) is None,
        },
{
    if body.len() < 2 {
        return None;
    }
    let len: usize = (body[0] as usize) * 256 + body[1] as usize;
    if body.len() - 2 < len {
        return None;
    }
    let end: usize = 2 + len;
    let msg1: Vec<u8> = slice_to_vec(slice_subrange(body, 2, end));
    let cookie: Option<[u8; 16]> = if body.len() - end >= 16 {
        Some(take16(body, end))
    } else {
        None
    };
    Some((msg1, cookie))
}

/// A first message whose length fits its field is read back as it was
/// written, with a cookie and without one.
pub proof fn law_msg1_roundtrip(msg1: Seq<u8>, cookie: Option<Seq<u8>>)
    requires
        msg1.len() < 65536,
        cookie matches Some(c) ==> c.len() == 16,
    ensures
        msg1_parts(msg1_bytes(msg1, cookie)) == Some((msg1, cookie)),
{
    let body = msg1_bytes(msg1, cookie);
    bytes::law_be16_roundtrip(msg1.len() as int);
    assert(body[0] == bytes::be16(msg1.len() as int)[0]);
    assert(body[1] == bytes::be16(msg1.len() as int)[1]);
    let end: int = 2 + msg1.len() as int;
    assert(body.subrange(2, end) =~= msg1);
    if let Some(c) = cookie {
        assert(body.subrange(end, end + 16) =~= c);
    }
}

/// A client reads from a challenge the cookie that the server put into it.
pub proof fn law_cookie_roundtrip(cookie: Seq<u8>)
    requires
        cookie.len() == 16,
    ensures
        cookie_parts(cookie) == Some(cookie),
{
    assert(cookie.subrange(0, 16) =~= cookie);
}

/// What to do with a first handshake message.
pub enum Hs1Step {
    /// Drop it: it is malformed.
    Drop,
    /// Reply with a cookie challenge and allocate nothing.
    Challenge,
    /// Find out whether `cookie` was made for the sender, then go on with
    /// [`after_cookie_check`].
    CheckCookie { msg1: Vec<u8>, cookie: [u8; 16] },
    /// Run a Noise responder on `msg1`, then go on with [`accept`].
    Respond { msg1: Vec<u8> },
}

/// An [`Hs1Step`] with its byte strings as sequences.
#[verifier::ext_equal]
pub enum Hs1View {
    Drop,
    Challenge,
    CheckCookie { msg1: Seq<u8>, cookie: Seq<u8> },
    Respond { msg1: Seq<u8> },
}

impl View for Hs1Step {
    type V = Hs1View;

    open spec fn view(&self) -> Hs1View {
        match *self {
            Hs1Step::Drop => Hs1View::Drop,
            Hs1Step::Challenge => Hs1View::Challenge,
            Hs1Step::CheckCookie { msg1, cookie } => Hs1View::CheckCookie {
                msg1: msg1@,
                cookie: cookie@,
            },
            Hs1Step::Respond { msg1 } => Hs1View::Respond { msg1: msg1@ },
        }
    }
}

/// What a well-formed first handshake message leads to: without load the
/// responder runs, under load a cookie has to be shown first.
pub open spec fn msg1_step(msg1: Seq<u8>, cookie: Option<Seq<u8>>, under_load: bool) -> Hs1View {
    if !under_load {
        Hs1View::Respond { msg1 }
    } else {
        match cookie {
            Some(c) => Hs1View::CheckCookie { msg1, cookie: c },
            None => Hs1View::Challenge,
        }
    }
}

/// What a first handshake message leads to; a malformed one is dropped.
pub open spec fn hs1_step(body: Seq<u8>, under_load: bool) -> Hs1View {
    match msg1_parts(body) {
        None => Hs1View::Drop,
        Some((msg1, cookie)) => msg1_step(msg1, cookie, under_load),
    }
}

/// What the outcome of a cookie check leads to.
pub open spec fn cookie_step(msg1: Seq<u8>, cookie_ok: bool) -> Hs1View {
    if cookie_ok {
        Hs1View::Respond { msg1 }
    } else {
        Hs1View::Challenge
    }
}

/// Decides on a first handshake message, given whether there is load.
pub fn decide_hs1(body: &[u8], under_load: bool) -> (step: Hs1Step)
    ensures
        step@ == hs1_step(body@, under_load),
{
    match decode_msg1_framed(body) {
        None => Hs1Step::Drop,
        Some((msg1, cookie)) => decide_msg1(msg1, cookie, under_load),
    }
}

fn decide_msg1(msg1: Vec<u8>, cookie: Option<[u8; 16]>, under_load: bool) -> (step: Hs1Step)
    ensures
        step@ == msg1_step(msg1@, cookie_view(cookie), under_load),
{
    if !under_load {
        Hs1Step::Respond { msg1 }
    } else {
        match cookie {
            Some(c) => Hs1Step::CheckCookie { msg1, cookie: c },
            None => Hs1Step::Challenge,
        }
    }
}

/// Decides on a first handshake message. A malformed one is dropped; about a
/// well-formed one `load_gate` is asked for the load.
pub fn process_hs1<G: LoadGate>(body: &[u8], load_gate: &G) -> (step: Hs1Step)
    ensures
        match msg1_parts(body@) {
            None => step@ == Hs1View::Drop,
            Some((msg1, cookie)) => exists|under_load: bool| #[trigger]
                call_ensures(G::under_load, (load_gate,), under_load) && step@ == msg1_step(
                    msg1,
                    cookie,
                    under_load,
                ),
        },
{
    match decode_msg1_framed(body) {
        None => Hs1Step::Drop,
        Some((msg1, cookie)) => {
            let under_load: bool = load_gate.under_load();
            decide_msg1(msg1, cookie, under_load)
        },
    }
}

/// Goes on with a first handshake message whose cookie has been checked.
pub fn after_cookie_check(msg1: Vec<u8>, cookie_ok: bool) -> (step: Hs1Step)
    ensures
        step@ == cookie_step(msg1@, cookie_ok),
{
    if cookie_ok {
        Hs1Step::Respond { msg1 }
    } else {
        Hs1Step::Challenge
    }
}

/// Under load, a sender that has not shown a cookie that was made for it gets
/// a challenge or nothing: no responder runs on its behalf.
pub proof fn law_no_responder_without_cookie(body: Seq<u8>, msg1: Seq<u8>)
    ensures
        !(hs1_step(body, true) is Respond),
        cookie_step(msg1, false) == Hs1View::Challenge,
{
}

/// Without load every well-formed first message is answered by a responder.
pub proof fn law_no_challenge_without_load(msg1: Seq<u8>, cookie: Option<Seq<u8>>)
    requires
        msg1.len() < 65536,
        cookie matches Some(c) ==> c.len() == 16,
    ensures
        hs1_step(msg1_bytes(msg1, cookie), false) == (Hs1View::Respond { msg1 }),
{
    law_msg1_roundtrip(msg1, cookie);
}

/// Under load, a client that echoes a cookie has that very cookie checked.
pub proof fn law_echoed_cookie_is_checked(msg1: Seq<u8>, cookie: Seq<u8>)
    requires
        msg1.len() < 65536,
        cookie.len() == 16,
    ensures
        hs1_step(msg1_bytes(msg1, Some(cookie)), true) == (Hs1View::CheckCookie { msg1, cookie }),
{
    law_msg1_roundtrip(msg1, Some(cookie));
}

/// How a Noise responder of type `R` fared on a first message.
pub enum ResponderRun<R> {
    /// It could not be set up, for this reason.
    NotBuilt(String),
    /// It did not accept the message.
    Rejected,
    /// It accepted the message but could not write a reply, for this reason.
    NoReply(String),
    /// It wrote the reply `msg2`.
    Replied { responder: R, msg2: Vec<u8> },
}

/// The outcome of a first handshake message.
pub enum AcceptResult<R> {
    /// Send this inner datagram, a cookie challenge; allocate no state.
    CookieReply(Vec<u8>),
    /// The handshake waits for its third message; send the inner datagram
    /// `msg2`.
    PartialHandshake { responder: R, msg2: Vec<u8>, client_addr: PeerAddr },
}

/// The challenge that carries `cookie`.
pub fn challenge<R>(cookie: [u8; 16]) -> (reply: AcceptResult<R>)
    ensures
        reply matches AcceptResult::CookieReply(inner) && inner@ == wire_dgram::inner_bytes(
            DgramType::Cookie,
            cookie@,
        ),
{
    let body: Vec<u8> = encode_cookie(cookie);
    AcceptResult::CookieReply(encode_inner(DgramType::Cookie, body.as_slice()))
}

/// Turns a responder's run into the outcome of the first message: nothing if
/// the message was not accepted, an error if the responder itself failed.
pub fn accept<R>(run: ResponderRun<R>, client_addr: PeerAddr) -> (outcome: Result<
    Option<AcceptResult<R>>,
    ObfsError,
>)
    ensures
        match run {
            ResponderRun::NotBuilt(e) => outcome matches Err(err) && err@
                == ErrorView::HandshakeFailed("responder: "@ + e@),
            ResponderRun::Rejected => outcome matches Ok(None),
            ResponderRun::NoReply(e) => outcome matches Err(err) && err@
                == ErrorView::HandshakeFailed("write msg2: "@ + e@),
            ResponderRun::Replied { responder, msg2 } => outcome matches Ok(
                Some(AcceptResult::PartialHandshake { responder: r, msg2: inner, client_addr: a }),
            ) && r == responder && a == client_addr && inner@ == wire_dgram::inner_bytes(
                DgramType::Hs2,
                msg2@,
            ),
        },
{
    match run {
        ResponderRun::NotBuilt(e) => Err(ObfsError::HandshakeFailed(join("responder: ", e.as_str()))),
        ResponderRun::Rejected => Ok(None),
        ResponderRun::NoReply(e) => Err(ObfsError::HandshakeFailed(join("write msg2: ", e.as_str()))),
        ResponderRun::Replied { responder, msg2 } => Ok(
            Some(
                AcceptResult::PartialHandshake {
                    responder,
                    msg2: encode_inner(DgramType::Hs2, msg2.as_slice()),
                    client_addr,
                },
            ),
        ),
    }
}

/// Completes the handshake on the third message. `payload` is what the
/// responder decrypted from it, or why it could not; `remote_static` is the
/// client's key, which the responder knows afterwards. The first 32 bytes of
/// the payload are the seed of the record keys.
pub fn complete_handshake_msg3(
    payload: Result<Vec<u8>, String>,
    remote_static: Option<[u8; 32]>,
) -> (outcome: Result<(DataChannel, [u8; 32]), ObfsError>)
    ensures
        match (payload, remote_static) {
            (Err(e), _) => outcome matches Err(err) && err@ == ErrorView::HandshakeFailed(
                "read msg3: "@ + e@,
            ),
            (Ok(p), _) if p@.len() < 32 => outcome matches Err(err) && err@
                == ErrorView::HandshakeFailed("msg3 payload too short for seed"@),
            (Ok(_), None) => outcome matches Err(err) && err@ == ErrorView::HandshakeFailed(
                "no remote static after msg3"@,
            ),
            (Ok(p), Some(key)) => outcome matches Ok((channel, k)) && k == key && channel@
                == dataplane::server_keys(p@.subrange(0, 32)),
        },
{
    let payload: Vec<u8> = match payload {
        Ok(p) => p,
        Err(e) => {
            return Err(ObfsError::HandshakeFailed(join("read msg3: ", e.as_str())));
        },
    };
    if payload.len() < 32 {
        return Err(handshake_err("msg3 payload too short for seed"));
    }
    let seed: [u8; 32] = take32(payload.as_slice());
    match remote_static {
        Some(key) => Ok((DataChannel::for_server(&seed), key)),
        None => Err(handshake_err("no remote static after msg3")),
    }
}

/// A first message is its length in two bytes, the Noise message, and what is
/// behind it: a cookie of 16 bytes, if there are so many.
pub proof fn law_msg1_taken_apart(
    body: &[u8],
    parts: Option<(Vec<u8>, Option<[u8; 16]>)>,
    msg1: Seq<u8>,
    tail: Seq<u8>,
)
    requires
        call_ensures(decode_msg1_framed, (body,), parts),
        body@.len() == 2 + msg1.len() + tail.len(),
        body@[0] * 256 + body@[1] == msg1.len(),
        body@.skip(2) == msg1 + tail,
    ensures
        parts matches Some((m, c)) && m@ == msg1 && match c {
            Some(cookie) => tail.len() >= 16 && cookie@ == tail.take(16),
            None => tail.len() < 16,
        },
{
    lemma_parts(body@, msg1, tail);
}

/// What is shorter than its length field says is no first message.
pub proof fn law_short_msg1_is_malformed(
    body: &[u8],
    parts: Option<(Vec<u8>, Option<[u8; 16]>)>,
)
    requires
        call_ensures(decode_msg1_framed, (body,), parts),
        body@.len() < 2 || body@.len() < 2 + body@[0] * 256 + body@[1],
    ensures
        parts is None,
{
}

/// Whether `body` is a first message with this Noise message and cookie. The
/// length field holds what is left of the length modulo 65536.
pub open spec fn is_msg1(body: Seq<u8>, msg1: Seq<u8>, cookie: Option<Seq<u8>>) -> bool {
    &&& body.len() >= 2 + msg1.len()
    &&& body[0] * 256 + body[1] == msg1.len() % 65536
    &&& body.subrange(2, 2 + msg1.len() as int) == msg1
    &&& body.skip(2 + msg1.len() as int) == match cookie {
        Some(c) => c,
        None => Seq::empty(),
    }
}

/// What is framed is a first message with the given Noise message and cookie.
pub proof fn law_msg1_framed(msg1: &[u8], cookie: Option<[u8; 16]>, body: Vec<u8>)
    requires
        call_ensures(encode_msg1_framed, (msg1, cookie), body),
    ensures
        is_msg1(
            body@,
            msg1@,
            match cookie {
                Some(c) => Some(c@),
                None => None,
            },
        ),
{
    lemma_is_msg1(msg1@, cookie_view(cookie));
}

/// A framed first message has the shape of one.
pub proof fn lemma_is_msg1(msg1: Seq<u8>, cookie: Option<Seq<u8>>)
    ensures
        is_msg1(msg1_bytes(msg1, cookie), msg1, cookie),
{
    let body = msg1_bytes(msg1, cookie);
    let n = msg1.len() as int;
    bytes::law_be16_low_bits(n);
    assert(body[0] == bytes::be16(n)[0] && body[1] == bytes::be16(n)[1]);
    assert(body.subrange(2, 2 + n) =~= msg1);
    assert(body.skip(2 + n) =~= match cookie {
        Some(c) => c,
        None => Seq::empty(),
    });
}

/// A challenge is tagged as one, and a client finds in its body the very cookie
/// that it was made with. With fewer than 16 bytes there is none.
pub proof fn law_cookie_reaches_the_client<R>(
    cookie: [u8; 16],
    reply: AcceptResult<R>,
    encoded: Vec<u8>,
    body: &[u8],
    found: Option<[u8; 16]>,
)
    requires
        call_ensures(challenge::<R>, (cookie,), reply),
        call_ensures(encode_cookie, (cookie,), encoded),
        call_ensures(decode_cookie, (body,), found),
    ensures
        reply matches AcceptResult::CookieReply(inner) && inner@ == seq![0x04u8] + cookie@,
        encoded@ == cookie@,
        found is Some <==> body@.len() >= 16,
        found matches Some(c) ==> c@ == body@.take(16),
{
    if body@.len() >= 16 {
        assert(body@.subrange(0, 16) =~= body@.take(16));
    }
}

/// Whether `step` is owed to a well-formed first message: without load its
/// responder runs on it, under load a cookie that came with it is checked, and
/// without one it is challenged.
pub open spec fn owed(step: Hs1Step, msg1: Seq<u8>, tail: Seq<u8>, under_load: bool) -> bool {
    if !under_load {
        step matches Hs1Step::Respond { msg1: m } && m@ == msg1
    } else if tail.len() >= 16 {
        step matches Hs1Step::CheckCookie { msg1: m, cookie } && m@ == msg1 && cookie@ == tail.take(
            16,
        )
    } else {
        step is Challenge
    }
}

/// What a first message leads to depends on the load and on whether a cookie
/// came with it, and on nothing else of it.
pub proof fn law_first_message_decided(
    body: &[u8],
    under_load: bool,
    step: Hs1Step,
    msg1: Seq<u8>,
    tail: Seq<u8>,
)
    requires
        call_ensures(decide_hs1, (body, under_load), step),
    ensures
        body@.len() == 2 + msg1.len() + tail.len() && body@[0] * 256 + body@[1] == msg1.len()
            && body@.skip(2) == msg1 + tail ==> owed(step, msg1, tail, under_load),
        body@.len() < 2 || body@.len() < 2 + body@[0] * 256 + body@[1] ==> step is Drop,
{
    if body@.len() == 2 + msg1.len() + tail.len() && body@[0] * 256 + body@[1] == msg1.len()
        && body@.skip(2) == msg1 + tail {
        lemma_parts(body@, msg1, tail);
    }
}

/// A first message that is put together is taken apart into the same parts.
pub proof fn lemma_parts(body: Seq<u8>, msg1: Seq<u8>, tail: Seq<u8>)
    requires
        body.len() == 2 + msg1.len() + tail.len(),
        body[0] * 256 + body[1] == msg1.len(),
        body.skip(2) == msg1 + tail,
    ensures
        msg1_parts(body) == Some(
            (
                msg1,
                if tail.len() >= 16 {
                    Some(tail.take(16))
                } else {
                    None
                },
            ),
        ),
{
    let n = msg1.len() as int;
    let rest = body.skip(2);
    assert(body.subrange(2, 2 + n) =~= rest.take(n));
    assert((msg1 + tail).take(n) =~= msg1);
    if tail.len() >= 16 {
        assert(body.subrange(2 + n, 2 + n + 16) =~= rest.subrange(n, n + 16));
        assert((msg1 + tail).subrange(n, n + 16) =~= tail.take(16));
    }
}

/// Asking a load gate for the load comes to the same as being told its answer.
pub proof fn law_load_gate_is_believed<G: LoadGate>(
    body: &[u8],
    load_gate: &G,
    step: Hs1Step,
    msg1: Seq<u8>,
    tail: Seq<u8>,
)
    requires
        call_ensures(process_hs1::<G>, (body, load_gate), step),
    ensures
        body@.len() == 2 + msg1.len() + tail.len() && body@[0] * 256 + body@[1] == msg1.len()
            && body@.skip(2) == msg1 + tail ==> exists|under_load: bool| #[trigger]
            call_ensures(G::under_load, (load_gate,), under_load) && owed(
                step,
                msg1,
                tail,
                under_load,
            ),
        body@.len() < 2 || body@.len() < 2 + body@[0] * 256 + body@[1] ==> step is Drop,
{
    if body@.len() == 2 + msg1.len() + tail.len() && body@[0] * 256 + body@[1] == msg1.len()
        && body@.skip(2) == msg1 + tail {
        lemma_parts(body@, msg1, tail);
        let under_load = choose|under_load: bool| #[trigger]
            call_ensures(G::under_load, (load_gate,), under_load) && step@ == hs1_step(
                body@,
                under_load,
            );
        assert(owed(step, msg1, tail, under_load));
    }
}

/// A good cookie leads to the responder for the same message, a bad one to a new
/// challenge.
pub proof fn law_cookie_check_decides(msg1: Vec<u8>, cookie_ok: bool, step: Hs1Step)
    requires
        call_ensures(after_cookie_check, (msg1, cookie_ok), step),
    ensures
        cookie_ok ==> (step matches Hs1Step::Respond { msg1: m } && m@ == msg1@),
        !cookie_ok ==> step is Challenge,
{
}

/// A responder that has replied is kept for the address it replied to, with its
/// reply tagged as a second message. What it rejected comes to nothing, and a
/// failure of its own is told.
pub proof fn law_responder_is_kept_for_the_sender<R>(
    run: ResponderRun<R>,
    client_addr: PeerAddr,
    outcome: Result<Option<AcceptResult<R>>, ObfsError>,
)
    requires
        call_ensures(accept::<R>, (run, client_addr), outcome),
    ensures
        run matches ResponderRun::Replied { responder, msg2 } ==> (outcome matches Ok(
            Some(AcceptResult::PartialHandshake { responder: r, msg2: inner, client_addr: a }),
        ) && r == responder && a == client_addr && inner@ == seq![0x02u8] + msg2@),
        run is Rejected ==> (outcome matches Ok(None)),
        run matches ResponderRun::NotBuilt(e) ==> (outcome matches Err(
            ObfsError::HandshakeFailed(m),
        ) && m@ == "responder: "@ + e@),
        run matches ResponderRun::NoReply(e) ==> (outcome matches Err(
            ObfsError::HandshakeFailed(m),
        ) && m@ == "write msg2: "@ + e@),
{
}

/// A third message with at least 32 bytes from a client whose key is known sets up
/// the server's end for the seed in its first 32 bytes, and names that key.
pub proof fn law_third_message_sets_up_the_channel(
    payload: Result<Vec<u8>, String>,
    remote_static: Option<[u8; 32]>,
    outcome: Result<(DataChannel, [u8; 32]), ObfsError>,
    seed: &[u8; 32],
    server: DataChannel,
)
    requires
        call_ensures(complete_handshake_msg3, (payload, remote_static), outcome),
        call_ensures(DataChannel::for_server, (seed,), server),
    ensures
        payload matches Ok(p) && p@.len() >= 32 && p@.take(32) == seed@ && remote_static is Some ==> (
        outcome matches Ok((channel, key)) && channel@ == server@ && key == remote_static->0),
        payload matches Ok(p) && p@.len() >= 32 && remote_static is None ==> (outcome matches Err(
            ObfsError::HandshakeFailed(m),
        ) && m@ == "no remote static after msg3"@),
        payload matches Ok(p) && p@.len() < 32 ==> (outcome matches Err(
            ObfsError::HandshakeFailed(m),
        ) && m@ == "msg3 payload too short for seed"@),
        payload matches Err(e) ==> (outcome matches Err(ObfsError::HandshakeFailed(m)) && m@
            == "read msg3: "@ + e@),
{
    if let Ok(p) = payload {
        if p@.len() >= 32 {
            assert(p@.subrange(0, 32) =~= p@.take(32));
        }
    }
}

} // verus!
