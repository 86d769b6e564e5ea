//! How the two sides of the datagram handshake play together.

use crate::client::{self, ClientAction, ClientModel};
use crate::envelope::{Envelope, Request, Response};
use crate::server::Inbound;
use crate::table::{self, Stamped};
use crate::udp::dataplane::{self, Opened};
use crate::udp::handshake;
use crate::udp::initiator::{self, ActionView, EventView, HsModel, PhaseView};
use crate::udp::peer::PeerAddr;
use crate::udp::server::{self, ServerModel, StepView};
use crate::udp::wire_dgram::{self, DgramType};
use vstd::prelude::*;

verus! {

/// What a client sends when its initiator has written `msg1`.
pub open spec fn first_datagram(msg1: Seq<u8>, cookie: Option<Seq<u8>>) -> Seq<u8> {
    wire_dgram::inner_bytes(DgramType::Hs1, handshake::msg1_bytes(msg1, cookie))
}

/// The server after it has kept `responder` for the client at `src`.
pub open spec fn with_responder<R, C>(
    m: ServerModel<R, C>,
    src: PeerAddr,
    responder: R,
    now: u64,
) -> ServerModel<R, C> {
    server::swept(
        ServerModel { pending: m.pending.insert(src, Stamped { value: responder, at: now }), ..m },
        now,
    )
}

/// An undisturbed handshake completes in three messages: the first one reaches
/// a responder, its reply is taken by the client, the third one finds the same
/// responder again, and the two ends agree on their keys.
pub proof fn law_handshake_completes<R, C>(
    client: HsModel,
    m: ServerModel<R, C>,
    src: PeerAddr,
    seed: Seq<u8>,
    msg1: Seq<u8>,
    responder: R,
    msg2: Seq<u8>,
    msg3: Seq<u8>,
    t1: u64,
    t2: u64,
)
    requires
        client.phase == PhaseView::Starting,
        m.peers.len() < server::MAX_PEERS,
        m.pending.len() < server::PENDING_SOFT_LIMIT,
        msg1.len() < 65536,
        seed.len() == 32,
    ensures
        ({
            let (c1, sent1) = initiator::hs_step(client, EventView::Msg1(msg1), seed);
            let inner1 = first_datagram(msg1, None);
            let reply = wire_dgram::inner_bytes(DgramType::Hs2, msg2);
            let (c2, sent2) = initiator::hs_step(c1, EventView::Datagram(Some(reply)), seed);
            let (c3, sent3) = initiator::hs_step(c2, EventView::Msg3(Some(msg3)), seed);
            let inner3 = wire_dgram::inner_bytes(DgramType::Hs3, msg3);
            let (_, end) = initiator::hs_step(c3, EventView::Record(true), seed);
            let waiting = with_responder(m, src, responder, t1);
            let client_end = dataplane::client_keys(seed);
            let server_end = dataplane::server_keys(seed.subrange(0, 32));
            &&& sent1 matches ActionView::SendMsg1 { inner, .. } && inner == inner1
            &&& server::dgram_step(m, src, Some(inner1), false, t1) == (
                m,
                StepView::<R>::Respond { msg1 },
            )
            &&& sent2 == (ActionView::WriteMsg3 { msg2, seed })
            &&& sent3 matches ActionView::SendMsg3 { inner, channel, .. } && inner == inner3
                && channel == client_end
            &&& server::dgram_step(waiting, src, Some(inner3), false, t2).1 == StepView::Complete {
                responder,
                msg3,
            }
            &&& end == ActionView::Done(client_end)
            &&& client_end.seal == server_end.open
            &&& server_end.seal == client_end.open
        }),
{
    wire_dgram::law_inner_roundtrip(DgramType::Hs2, msg2);
    server::law_open_server_responds(m, src, msg1, None, t1);
    server::law_third_message_finds_its_responder(m, src, responder, t1, msg3, false, t2);
    initiator::law_handshake_agrees(seed);
}

/// Under load a handshake completes after one more exchange: the first message
/// is challenged and leaves no trace, the client echoes the cookie, and once
/// that cookie has been found good, the responder runs on the same message.
pub proof fn law_cookie_path_completes<R, C>(
    client: HsModel,
    m: ServerModel<R, C>,
    src: PeerAddr,
    seed: Seq<u8>,
    msg1: Seq<u8>,
    cookie: Seq<u8>,
    now: u64,
)
    requires
        client.phase == PhaseView::Starting,
        m.peers.len() < server::MAX_PEERS,
        msg1.len() < 65536,
        cookie.len() == 16,
    ensures
        ({
            let (c1, _) = initiator::hs_step(client, EventView::Msg1(msg1), seed);
            let challenge = wire_dgram::inner_bytes(DgramType::Cookie, cookie);
            let (_, echoed) = initiator::hs_step(c1, EventView::Datagram(Some(challenge)), seed);
            let inner1 = first_datagram(msg1, None);
            let inner2 = first_datagram(msg1, Some(cookie));
            &&& server::dgram_step(m, src, Some(inner1), true, now) == (m, StepView::<R>::Challenge)
            &&& echoed matches ActionView::SendMsg1 { inner, .. } && inner == inner2
            &&& server::dgram_step(m, src, Some(inner2), true, now) == (
                m,
                StepView::<R>::CheckCookie { msg1, cookie },
            )
            &&& server::from_hs1::<R>(handshake::cookie_step(msg1, true)) == StepView::<
                R,
            >::Respond { msg1 }
        }),
{
    wire_dgram::law_inner_roundtrip(DgramType::Hs1, handshake::msg1_bytes(msg1, None));
    wire_dgram::law_inner_roundtrip(DgramType::Hs1, handshake::msg1_bytes(msg1, Some(cookie)));
    handshake::law_msg1_roundtrip(msg1, None);
    handshake::law_msg1_roundtrip(msg1, Some(cookie));
    let c1 = initiator::hs_step(client, EventView::Msg1(msg1), seed).0;
    initiator::law_cookie_echoed(c1, msg1, None, 1, cookie, seed);
}

/// A request over datagrams is served once. The datagram of a peer that holds a
/// request leads to one dispatch of that very request, and the sender stays a
/// peer unless serving takes as long as the idle time; a second copy of the
/// datagram, whose record the record layer rejects as replayed, leads to
/// nothing. The answer travels in a datagram from which the peer takes the
/// same sealed record, and reaches whoever waits for it.
///
/// `opens` is what the record layer says of the record, by how often the record
/// was opened before.
pub proof fn law_request_served_once<R, C, B, W>(
    m: ServerModel<R, C>,
    src: PeerAddr,
    record: Seq<u8>,
    opens: spec_fn(nat) -> Opened<B>,
    req: Request<B>,
    response: Response<B>,
    sealed: Seq<u8>,
    waiting: ClientModel<W>,
    waiter: W,
    t1: u64,
    done: u64,
    t2: u64,
)
    requires
        m.peers.dom().contains(src),
        table::age(done, t1) < server::PEER_IDLE_NS,
        opens(0) == Opened::Authentic(Ok::<_, String>(Envelope::Request(req))),
        opens(1) is Rejected,
        waiting.pending.dom().contains(response.id@),
        waiting.pending[response.id@] == waiter,
    ensures
        ({
            let dgram = wire_dgram::inner_bytes(DgramType::Data, record);
            let (m1, first) = server::handled(m, src, dgram, opens(0), t1, done);
            let (_, second) = server::handled(m1, src, dgram, opens(1), t2, t2);
            let reply = wire_dgram::inner_bytes(DgramType::Data, sealed);
            let answer = Envelope::Response(response);
            &&& server::dgram_step(m, src, Some(dgram), false, t1).1 == StepView::<R>::Open { record }
            &&& first == Some(Inbound::Dispatch(req))
            &&& server::dgram_step(m1, src, Some(dgram), false, t2).1 == StepView::<R>::Open { record }
            &&& second is None
            &&& m1.peers.dom().contains(src) && m1.peers[src].value == m.peers[src].value
            &&& dataplane::data_record(reply) == Some(sealed)
            &&& dataplane::datagram_envelope(
                Some(reply),
                Opened::Authentic(Ok::<_, String>(answer)),
            ) == Some(answer)
            &&& client::client_step(waiting, answer).1 == ClientAction::Resolve(waiter, response)
        }),
{
    wire_dgram::law_inner_roundtrip(DgramType::Data, record);
    wire_dgram::law_inner_roundtrip(DgramType::Data, sealed);
    server::law_data_keeps_peer_alive(m, src, record, false, t1);
}

/// Under load, too, a handshake completes: behind the echoed cookie the responder
/// runs on the same first message, its reply is taken by the client, the third
/// message finds the same responder again, the ready record ends it, and the two
/// ends agree on their keys.
pub proof fn law_challenged_handshake_completes<R, C>(
    client: HsModel,
    m: ServerModel<R, C>,
    src: PeerAddr,
    seed: Seq<u8>,
    msg1: Seq<u8>,
    cookie: Seq<u8>,
    responder: R,
    msg2: Seq<u8>,
    msg3: Seq<u8>,
    t1: u64,
    t2: u64,
)
    requires
        client.phase == PhaseView::Starting,
        m.peers.len() < server::MAX_PEERS,
        msg1.len() < 65536,
        cookie.len() == 16,
        seed.len() == 32,
    ensures
        ({
            let (c1, _) = initiator::hs_step(client, EventView::Msg1(msg1), seed);
            let challenge = wire_dgram::inner_bytes(DgramType::Cookie, cookie);
            let (c2, echoed) = initiator::hs_step(c1, EventView::Datagram(Some(challenge)), seed);
            let shown = first_datagram(msg1, Some(cookie));
            let reply = wire_dgram::inner_bytes(DgramType::Hs2, msg2);
            let (c3, sent2) = initiator::hs_step(c2, EventView::Datagram(Some(reply)), seed);
            let (c4, sent3) = initiator::hs_step(c3, EventView::Msg3(Some(msg3)), seed);
            let inner3 = wire_dgram::inner_bytes(DgramType::Hs3, msg3);
            let (_, end) = initiator::hs_step(c4, EventView::Record(true), seed);
            let waiting = with_responder(m, src, responder, t1);
            let client_end = dataplane::client_keys(seed);
            let server_end = dataplane::server_keys(seed.subrange(0, 32));
            &&& echoed matches ActionView::SendMsg1 { inner, .. } && inner == shown
            &&& server::dgram_step(m, src, Some(shown), true, t1) == (
                m,
                StepView::<R>::CheckCookie { msg1, cookie },
            )
            &&& server::from_hs1::<R>(handshake::cookie_step(msg1, true)) == StepView::<
                R,
            >::Respond { msg1 }
            &&& sent2 == (ActionView::WriteMsg3 { msg2, seed })
            &&& sent3 matches ActionView::SendMsg3 { inner, channel, .. } && inner == inner3
                && channel == client_end
            &&& server::dgram_step(waiting, src, Some(inner3), true, t2).1 == StepView::Complete {
                responder,
                msg3,
            }
            &&& end == ActionView::Done(client_end)
            &&& client_end.seal == server_end.open
            &&& server_end.seal == client_end.open
        }),
{
    law_cookie_path_completes::<R, C>(client, m, src, seed, msg1, cookie, t1);
    wire_dgram::law_inner_roundtrip(DgramType::Hs2, msg2);
    let c1 = initiator::hs_step(client, EventView::Msg1(msg1), seed).0;
    initiator::law_cookie_echoed(c1, msg1, None, 1, cookie, seed);
    server::law_third_message_finds_its_responder(m, src, responder, t1, msg3, true, t2);
    initiator::law_handshake_agrees(seed);
}

} // verus!
