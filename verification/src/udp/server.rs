//! The server's demultiplexer: half-open handshakes and peers by source
//! address, and what each datagram leads to.
//!
//! `R` stands for a Noise responder and `C` for a peer's open channel; the
//! tables only keep them. Times are nanoseconds on a clock that does not run
//! backwards.

use crate::envelope::{Envelope, Response};
use crate::error::ObfsError;
use crate::gate::TransportGate;
use crate::server::{self, inbound, Inbound};
use crate::table::{self, Stamped, Table};
use crate::udp::dataplane::{self, DataChannel, Opened};
use crate::udp::handshake::{self, after_cookie_check, decide_hs1, AcceptResult, Hs1Step, Hs1View};
use crate::udp::peer::PeerAddr;
use crate::udp::wire_dgram::{self, decode_inner, DgramType};
use vstd::prelude::*;
use vstd::slice::slice_to_vec;

verus! {

/// The largest datagram that is received.
pub const MAX_DGRAM: usize = 65507;

/// With this many peers no new handshake is begun.
pub const MAX_PEERS: usize = 1024;

/// The limit on half-open handshakes, which caps memory under a flood.
pub const MAX_PENDING: usize = 2048;

/// With this many half-open handshakes every first message is challenged for
/// a cookie, whatever the load gate says.
pub const PENDING_SOFT_LIMIT: usize = 256;

/// Peers that were silent for so long are evicted.
pub const PEER_IDLE_NS: u64 = 120_000_000_000;

/// Half-open handshakes are dropped when they are this old.
pub const PENDING_STALE_NS: u64 = 5_000_000_000;

/// Half-open handshakes and peers.
pub struct UdpServer<R, C> {
    pending: Table<PeerAddr, Stamped<R>>,
    peers: Table<PeerAddr, Stamped<C>>,
}

/// A [`UdpServer`] as a value.
#[verifier::ext_equal]
pub struct ServerModel<R, C> {
    /// Half-open handshakes, each with the time it began.
    pub pending: Map<PeerAddr, Stamped<R>>,
    /// Peers, each with the time it was last heard of.
    pub peers: Map<PeerAddr, Stamped<C>>,
}

impl<R, C> View for UdpServer<R, C> {
    type V = ServerModel<R, C>;

    closed spec fn view(&self) -> ServerModel<R, C> {
        ServerModel { pending: self.pending@, peers: self.peers@ }
    }
}

/// What to do with a datagram.
pub enum ServerStep<R> {
    /// Drop it.
    Drop,
    /// Make a cookie for the sender; go on with
    /// [`on_accept`](UdpServer::on_accept) and the challenge that carries it.
    Challenge,
    /// Check the cookie; go on with
    /// [`on_cookie_checked`](UdpServer::on_cookie_checked).
    CheckCookie { msg1: Vec<u8>, cookie: [u8; 16] },
    /// Run a responder on `msg1`; go on with
    /// [`on_accept`](UdpServer::on_accept).
    Respond { msg1: Vec<u8> },
    /// Let the responder read `msg3`; go on with
    /// [`finish_handshake`](UdpServer::finish_handshake).
    Complete { responder: R, msg3: Vec<u8> },
    /// Open the record with the peer's channel; go on with [`serve_record`].
    Open { record: Vec<u8> },
}

/// What came of a third message; `C` stands for the client's channel.
pub enum Admission<C> {
    /// The message was not good.
    Failed,
    /// The message was good, but the transport gate refuses the client.
    Refused,
    /// The client is admitted.
    Admitted(C),
}

/// A [`ServerStep`] with its byte strings as sequences.
#[verifier::ext_equal]
pub enum StepView<R> {
    Drop,
    Challenge,
    CheckCookie { msg1: Seq<u8>, cookie: Seq<u8> },
    Respond { msg1: Seq<u8> },
    Complete { responder: R, msg3: Seq<u8> },
    Open { record: Seq<u8> },
}

impl<R> View for ServerStep<R> {
    type V = StepView<R>;

    open spec fn view(&self) -> StepView<R> {
        match *self {
            ServerStep::Drop => StepView::Drop,
            ServerStep::Challenge => StepView::Challenge,
            ServerStep::CheckCookie { msg1, cookie } => StepView::CheckCookie {
                msg1: msg1@,
                cookie: cookie@,
            },
            ServerStep::Respond { msg1 } => StepView::Respond { msg1: msg1@ },
            ServerStep::Complete { responder, msg3 } => StepView::Complete { responder, msg3: msg3@ },
            ServerStep::Open { record } => StepView::Open { record: record@ },
        }
    }
}

/// The tables without stale handshakes and idle peers.
pub open spec fn swept<R, C>(m: ServerModel<R, C>, now: u64) -> ServerModel<R, C> {
    ServerModel {
        pending: table::recent(m.pending, now, PENDING_STALE_NS),
        peers: table::recent(m.peers, now, PEER_IDLE_NS),
    }
}

/// The tables without idle peers; handshakes stay, whatever their age.
pub open spec fn evicted<R, C>(m: ServerModel<R, C>, now: u64) -> ServerModel<R, C> {
    ServerModel { peers: table::recent(m.peers, now, PEER_IDLE_NS), ..m }
}

/// Whether first messages are challenged: the load gate reports load, or many
/// handshakes are half-open.
pub open spec fn under_pressure<R, C>(m: ServerModel<R, C>, gate_under_load: bool) -> bool {
    gate_under_load || m.pending.len() >= PENDING_SOFT_LIMIT
}

/// A step on a first message, as a step on a datagram.
pub open spec fn from_hs1<R>(step: Hs1View) -> StepView<R> {
    match step {
        Hs1View::Drop => StepView::Drop,
        Hs1View::Challenge => StepView::Challenge,
        Hs1View::CheckCookie { msg1, cookie } => StepView::CheckCookie { msg1, cookie },
        Hs1View::Respond { msg1 } => StepView::Respond { msg1 },
    }
}

/// What the datagram `inner` from `src` leads to at `now`.
///
/// The tables are swept behind a datagram that was dealt with, a malformed first
/// message and a message that only a server sends among them. What is
/// unreadable, data of a stranger, or a third message without its first one
/// leaves them as they are. A first message that finds no room for peers makes
/// some by evicting those that are idle.
pub open spec fn dgram_step<R, C>(
    m: ServerModel<R, C>,
    src: PeerAddr,
    inner: Option<Seq<u8>>,
    gate_under_load: bool,
    now: u64,
) -> (ServerModel<R, C>, StepView<R>) {
    let parts = match inner {
        Some(i) => wire_dgram::inner_parts(i),
        None => None,
    };
    match parts {
        Some((DgramType::Hs1, body)) => if m.peers.len() >= MAX_PEERS {
            (evicted(m, now), StepView::Drop)
        } else {
            match handshake::hs1_step(body, under_pressure(m, gate_under_load)) {
                Hs1View::Drop => (swept(m, now), StepView::Drop),
                step => (m, from_hs1(step)),
            }
        },
        Some((DgramType::Hs3, body)) => if m.pending.dom().contains(src) {
            (
                ServerModel { pending: m.pending.remove(src), ..m },
                StepView::Complete { responder: m.pending[src].value, msg3: body },
            )
        } else {
            (m, StepView::Drop)
        },
        Some((DgramType::Data, record)) => if m.peers.dom().contains(src) {
            let heard = Stamped { value: m.peers[src].value, at: now };
            (
                ServerModel { peers: m.peers.insert(src, heard), ..m },
                StepView::Open { record },
            )
        } else {
            (m, StepView::Drop)
        },
        Some(_) => (swept(m, now), StepView::Drop),
        None => (m, StepView::Drop),
    }
}

/// Whether the load gate has a say in what the datagram `inner` leads to: it is
/// a first message, and there is room for peers.
pub open spec fn load_matters<R, C>(m: ServerModel<R, C>, inner: Option<Seq<u8>>) -> bool {
    match inner {
        Some(i) => wire_dgram::inner_parts(i) matches Some((DgramType::Hs1, _)) && m.peers.len()
            < MAX_PEERS,
        None => false,
    }
}

/// What an opened record of a peer asks of the server, if it holds an envelope.
pub open spec fn record_step<B>(opened: Opened<B>) -> Option<Inbound<B>> {
    match dataplane::opened_envelope(opened) {
        Some(env) => Some(server::inbound_of(env)),
        None => None,
    }
}

/// What the datagram `inner` from `src`, which came at `now`, asks of the server,
/// given what comes of opening the record in it. What it asked for is done at
/// `done`, and the tables are swept then.
pub open spec fn handled<R, C, B>(
    m: ServerModel<R, C>,
    src: PeerAddr,
    inner: Seq<u8>,
    opened: Opened<B>,
    now: u64,
    done: u64,
) -> (ServerModel<R, C>, Option<Inbound<B>>) {
    let (after, step) = dgram_step(m, src, Some(inner), false, now);
    let asked = match step {
        StepView::Open { .. } => record_step(opened),
        _ => None,
    };
    (
        if asked is Some {
            swept(after, done)
        } else {
            after
        },
        asked,
    )
}

/// Whether a new half-open handshake from `src` finds room.
pub open spec fn has_room<R, C>(m: ServerModel<R, C>, src: PeerAddr) -> bool {
    m.pending.len() < MAX_PENDING || m.pending.dom().contains(src)
}

impl<R, C> UdpServer<R, C> {
    /// The tables are well formed, and there are no more half-open handshakes
    /// than allowed.
    pub closed spec fn wf(&self) -> bool {
        &&& self.pending.wf()
        &&& self.peers.wf()
        &&& self.pending@.dom().finite()
        &&& self.pending@.len() <= MAX_PENDING
    }

    /// A server without handshakes and peers.
    pub fn new() -> (server: Self)
        ensures
            server.wf(),
            server@ == (ServerModel::<R, C> { pending: Map::empty(), peers: Map::empty() }),
    {
        UdpServer { pending: Table::new(), peers: Table::new() }
    }

    /// Drops stale handshakes and idle peers.
    pub fn sweep(&mut self, now: u64)
        requires
            old(self).wf(),
        ensures
            final(self).wf(),
            final(self)@ == swept(old(self)@, now),
    {
        self.pending.retain_recent(now, PENDING_STALE_NS);
        self.peers.retain_recent(now, PEER_IDLE_NS);
    }

    /// How many handshakes are half-open.
    pub fn pending_len(&self) -> (n: usize)
        requires
            self.wf(),
        ensures
            n == self@.pending.len(),
            n <= MAX_PENDING,
    {
        self.pending.len()
    }

    /// How many peers there are.
    pub fn peer_count(&self) -> (n: usize)
        requires
            self.wf(),
        ensures
            n == self@.peers.len(),
    {
        self.peers.len()
    }

    /// The channel of the peer at `src`, if there is one.
    pub fn peer(&self, src: PeerAddr) -> (channel: Option<&C>)
        requires
            self.wf(),
        ensures
            match channel {
                Some(c) => self@.peers.dom().contains(src) && *c == self@.peers[src].value,
                None => !self@.peers.dom().contains(src),
            },
    {
        match self.peers.get(&src) {
            Some(entry) => Some(&entry.value),
            None => None,
        }
    }

    /// Whether the load gate is to be asked before a datagram is handled.
    pub fn asks_load(&self, inner: Option<&[u8]>) -> (b: bool)
        requires
            self.wf(),
        ensures
            b == load_matters(
                self@,
                match inner {
                    Some(i) => Some(i@),
                    None => None,
                },
            ),
    {
        match inner {
            Some(data) => match decode_inner(data) {
                Some((DgramType::Hs1, _)) => self.peers.len() < MAX_PEERS,
                _ => false,
            },
            None => false,
        }
    }

    /// Decides what a datagram from `src` leads to. `inner` is what shaping
    /// left of it, if it could be unshaped; `gate_under_load` is the answer of
    /// the load gate, which has a say only where
    /// [`asks_load`](UdpServer::asks_load) says so.
    pub fn handle_dgram(
        &mut self,
        src: PeerAddr,
        inner: Option<&[u8]>,
        gate_under_load: bool,
        now: u64,
    ) -> (step: ServerStep<R>)
        requires
            old(self).wf(),
        ensures
            final(self).wf(),
            (final(self)@, step@) == dgram_step(
                old(self)@,
                src,
                match inner {
                    Some(i) => Some(i@),
                    None => None,
                },
                gate_under_load,
                now,
            ),
    {
        let parts = match inner {
            Some(data) => decode_inner(data),
            None => None,
        };
        match parts {
            Some((DgramType::Hs1, body)) => {
                if self.peers.len() >= MAX_PEERS {
                    self.peers.retain_recent(now, PEER_IDLE_NS);
                    return ServerStep::Drop;
                }
                let pressure: bool = gate_under_load || self.pending.len() >= PENDING_SOFT_LIMIT;
                match decide_hs1(body, pressure) {
                    Hs1Step::Drop => {
                        self.sweep(now);
                        ServerStep::Drop
                    },
                    Hs1Step::Challenge => ServerStep::Challenge,
                    Hs1Step::CheckCookie { msg1, cookie } => ServerStep::CheckCookie { msg1, cookie },
                    Hs1Step::Respond { msg1 } => ServerStep::Respond { msg1 },
                }
            },
            Some((DgramType::Hs3, body)) => {
                match self.pending.remove(&src) {
                    Some(entry) => ServerStep::Complete {
                        responder: entry.value,
                        msg3: slice_to_vec(body),
                    },
                    None => {
                        assert(self@.pending =~= old(self)@.pending);
                        ServerStep::Drop
                    },
                }
            },
            Some((DgramType::Data, record)) => {
                match self.peers.remove(&src) {
                    Some(entry) => {
                        self.peers.insert(src, Stamped { value: entry.value, at: now });
                        proof {
                            let heard = Stamped { value: entry.value, at: now };
                            assert(old(self)@.peers.remove(src).insert(src, heard) =~= old(
                                self,
                            )@.peers.insert(src, heard));
                        }
                        ServerStep::Open { record: slice_to_vec(record) }
                    },
                    None => {
                        assert(self@.peers =~= old(self)@.peers);
                        ServerStep::Drop
                    },
                }
            },
            Some(_) => {
                self.sweep(now);
                ServerStep::Drop
            },
            None => ServerStep::Drop,
        }
    }

    /// Goes on with a first message whose cookie has been checked.
    pub fn on_cookie_checked(&self, msg1: Vec<u8>, cookie_ok: bool) -> (step: ServerStep<R>)
        ensures
            step@ == from_hs1::<R>(handshake::cookie_step(msg1@, cookie_ok)),
    {
        match after_cookie_check(msg1, cookie_ok) {
            Hs1Step::Respond { msg1 } => ServerStep::Respond { msg1 },
            _ => ServerStep::Challenge,
        }
    }

    /// Takes the outcome of a first message from `src`, and returns the inner
    /// datagram to send. A challenge allocates nothing; a responder that waits
    /// for its third message is kept, if there is room for it. The tables are
    /// swept, unless there was no room.
    pub fn on_accept(
        &mut self,
        src: PeerAddr,
        outcome: Result<Option<AcceptResult<R>>, ObfsError>,
        now: u64,
    ) -> (reply: Option<Vec<u8>>)
        requires
            old(self).wf(),
        ensures
            final(self).wf(),
            match outcome {
                Ok(Some(AcceptResult::CookieReply(wire))) => reply == Some(wire) && final(self)@
                    == swept(old(self)@, now),
                Ok(Some(AcceptResult::PartialHandshake { responder, msg2, .. })) => if has_room(
                    old(self)@,
                    src,
                ) {
                    reply == Some(msg2) && final(self)@ == swept(
                        ServerModel {
                            pending: old(self)@.pending.insert(
                                src,
                                Stamped { value: responder, at: now },
                            ),
                            ..old(self)@
                        },
                        now,
                    )
                } else {
                    reply is None && final(self)@ == old(self)@
                },
                _ => reply is None && final(self)@ == swept(old(self)@, now),
            },
    {
        match outcome {
            Ok(Some(AcceptResult::CookieReply(wire))) => {
                self.sweep(now);
                Some(wire)
            },
            Ok(Some(AcceptResult::PartialHandshake { responder, msg2, .. })) => {
                if self.pending.len() >= MAX_PENDING && !self.pending.contains_key(&src) {
                    return None;
                }
                self.pending.insert(src, Stamped { value: responder, at: now });
                self.sweep(now);
                Some(msg2)
            },
            _ => {
                self.sweep(now);
                None
            },
        }
    }

    /// Ends a handshake with what came of its third message. An admitted client
    /// becomes a peer, and the envelope that is returned tells it that the
    /// channel is ready. The tables are swept, unless the client was refused.
    pub fn finish_handshake<B>(&mut self, src: PeerAddr, admission: Admission<C>, now: u64) -> (ready:
        Option<Envelope<B>>)
        requires
            old(self).wf(),
        ensures
            final(self).wf(),
            match admission {
                Admission::Admitted(c) => ready == Some(Envelope::<B>::Pong) && final(self)@ == swept(
                    ServerModel {
                        peers: old(self)@.peers.insert(src, Stamped { value: c, at: now }),
                        ..old(self)@
                    },
                    now,
                ),
                Admission::Failed => ready is None && final(self)@ == swept(old(self)@, now),
                Admission::Refused => ready is None && final(self)@ == old(self)@,
            },
    {
        match admission {
            Admission::Admitted(c) => {
                self.peers.insert(src, Stamped { value: c, at: now });
                self.sweep(now);
                Some(Envelope::Pong)
            },
            Admission::Failed => {
                self.sweep(now);
                None
            },
            Admission::Refused => None,
        }
    }
}

/// Decides what an opened record of a peer asks of the server: nothing if it
/// holds no envelope. What is asked is to be done, and the tables are to be
/// [swept](UdpServer::sweep) behind it.
pub fn serve_record<B>(opened: Opened<B>) -> (step: Option<Inbound<B>>)
    ensures
        step == record_step(opened),
{
    match opened {
        Opened::Authentic(Ok(env)) => Some(inbound(env)),
        _ => None,
    }
}

/// The envelope that answers a request that was dispatched.
pub fn answer<B>(response: Response<B>) -> (env: Envelope<B>)
    ensures
        env == Envelope::Response(response),
{
    Envelope::Response(response)
}

/// Asks `gate` about a client whose third message was good.
pub fn admit_client<G: TransportGate>(
    outcome: Result<(DataChannel, [u8; 32]), ObfsError>,
    gate: &G,
) -> (admission: Admission<DataChannel>)
    ensures
        match outcome {
            Ok((c, key)) => exists|verdict: Result<(), String>| #[trigger]
                call_ensures(G::authenticate, (gate, &key), verdict) && admission == if verdict is Ok {
                    Admission::Admitted(c)
                } else {
                    Admission::Refused
                },
            Err(_) => admission is Failed,
        },
{
    match outcome {
        Ok((channel, key)) => {
            let verdict: Result<(), String> = gate.authenticate(&key);
            if verdict.is_ok() {
                Admission::Admitted(channel)
            } else {
                Admission::Refused
            }
        },
        Err(_) => Admission::Failed,
    }
}

proof fn lemma_recent_len<T>(m: Map<PeerAddr, Stamped<T>>, now: u64, max_age: u64)
    requires
        m.dom().finite(),
    ensures
        table::recent(m, now, max_age).dom().finite(),
        table::recent(m, now, max_age).len() <= m.len(),
{
    let kept = table::recent(m, now, max_age);
    assert(kept.dom().subset_of(m.dom()));
    vstd::set_lib::lemma_len_subset(kept.dom(), m.dom());
}

/// The number of half-open handshakes never exceeds its limit: no datagram
/// raises it, and a new handshake is kept only where there is room.
pub proof fn law_half_open_capped<R, C>(
    m: ServerModel<R, C>,
    src: PeerAddr,
    inner: Option<Seq<u8>>,
    gate_under_load: bool,
    responder: R,
    now: u64,
)
    requires
        m.pending.dom().finite(),
        m.pending.len() <= MAX_PENDING,
    ensures
        dgram_step(m, src, inner, gate_under_load, now).0.pending.len() <= m.pending.len(),
        has_room(m, src) ==> swept(
            ServerModel {
                pending: m.pending.insert(src, Stamped { value: responder, at: now }),
                ..m
            },
            now,
        ).pending.len() <= MAX_PENDING,
{
    lemma_recent_len(m.pending, now, PENDING_STALE_NS);
    lemma_recent_len(
        m.pending.insert(src, Stamped { value: responder, at: now }),
        now,
        PENDING_STALE_NS,
    );
}

/// Where the load gate is not asked, its answer would change nothing.
pub proof fn law_load_matters_only_for_first_messages<R, C>(
    m: ServerModel<R, C>,
    src: PeerAddr,
    inner: Option<Seq<u8>>,
    now: u64,
)
    requires
        !load_matters(m, inner),
    ensures
        dgram_step(m, src, inner, true, now) == dgram_step(m, src, inner, false, now),
{
}

/// A datagram that cannot be read, data of a stranger, and a third message
/// without its first one are dropped without a trace. No such datagram, from
/// whatever address, costs anybody a half-open handshake, however old it is.
pub proof fn law_junk_leaves_no_trace<R, C>(
    m: ServerModel<R, C>,
    src: PeerAddr,
    inner: Option<Seq<u8>>,
    gate_under_load: bool,
    now: u64,
)
    requires
        match inner {
            Some(i) => match wire_dgram::inner_parts(i) {
                Some((DgramType::Data, _)) => !m.peers.dom().contains(src),
                Some((DgramType::Hs3, _)) => !m.pending.dom().contains(src),
                Some(_) => false,
                None => true,
            },
            None => true,
        },
    ensures
        dgram_step(m, src, inner, gate_under_load, now) == (m, StepView::<R>::Drop),
{
}

/// A first message never allocates state by itself: the tables stay as they
/// are, or lose what is stale.
pub proof fn law_hs1_allocates_nothing<R, C>(
    m: ServerModel<R, C>,
    src: PeerAddr,
    body: Seq<u8>,
    gate_under_load: bool,
    now: u64,
)
    ensures
        ({
            let inner = wire_dgram::inner_bytes(DgramType::Hs1, body);
            let after = dgram_step(m, src, Some(inner), gate_under_load, now).0;
            after == m || after == swept(m, now) || after == evicted(m, now)
        }),
{
    wire_dgram::law_inner_roundtrip(DgramType::Hs1, body);
}

/// The cookie challenge is self-triggering: with the soft limit of half-open
/// handshakes reached, or the load gate reporting load, no responder runs on a
/// first message whose cookie has not been checked.
pub proof fn law_pressure_forces_cookies<R, C>(
    m: ServerModel<R, C>,
    src: PeerAddr,
    body: Seq<u8>,
    gate_under_load: bool,
    now: u64,
)
    requires
        gate_under_load || m.pending.len() >= PENDING_SOFT_LIMIT,
    ensures
        ({
            let inner = wire_dgram::inner_bytes(DgramType::Hs1, body);
            !(dgram_step(m, src, Some(inner), gate_under_load, now).1 is Respond)
        }),
        from_hs1::<R>(handshake::cookie_step(body, false)) == StepView::<R>::Challenge,
{
    wire_dgram::law_inner_roundtrip(DgramType::Hs1, body);
}

/// Without pressure and with room for peers, a well-formed first message is
/// answered without a challenge.
pub proof fn law_open_server_responds<R, C>(
    m: ServerModel<R, C>,
    src: PeerAddr,
    msg1: Seq<u8>,
    cookie: Option<Seq<u8>>,
    now: u64,
)
    requires
        m.peers.len() < MAX_PEERS,
        m.pending.len() < PENDING_SOFT_LIMIT,
        msg1.len() < 65536,
        cookie matches Some(c) ==> c.len() == 16,
    ensures
        ({
            let body = handshake::msg1_bytes(msg1, cookie);
            let inner = wire_dgram::inner_bytes(DgramType::Hs1, body);
            dgram_step(m, src, Some(inner), false, now) == (m, StepView::<R>::Respond { msg1 })
        }),
{
    let body = handshake::msg1_bytes(msg1, cookie);
    wire_dgram::law_inner_roundtrip(DgramType::Hs1, body);
    handshake::law_msg1_roundtrip(msg1, cookie);
}

/// With the table of peers full, a first message is dropped, and idle peers are
/// evicted. Half-open handshakes are not touched.
pub proof fn law_full_server_drops_hs1<R, C>(
    m: ServerModel<R, C>,
    src: PeerAddr,
    body: Seq<u8>,
    gate_under_load: bool,
    now: u64,
)
    requires
        m.peers.len() >= MAX_PEERS,
    ensures
        ({
            let inner = wire_dgram::inner_bytes(DgramType::Hs1, body);
            dgram_step(m, src, Some(inner), gate_under_load, now) == (
                evicted(m, now),
                StepView::<R>::Drop,
            )
        }),
{
    wire_dgram::law_inner_roundtrip(DgramType::Hs1, body);
}

/// The budget of peers cannot stay exhausted by abandoned sessions: with the
/// table full of peers that have been silent for the idle time, a first message
/// from anywhere frees all of it, and when it is sent again, it is no longer
/// dropped.
pub proof fn law_peer_budget_recovers<R, C>(
    m: ServerModel<R, C>,
    src: PeerAddr,
    msg1: Seq<u8>,
    cookie: Option<Seq<u8>>,
    gate_under_load: bool,
    now: u64,
    later: u64,
)
    requires
        m.peers.len() >= MAX_PEERS,
        forall|a: PeerAddr| #[trigger]
            m.peers.dom().contains(a) ==> table::age(now, m.peers[a].at) >= PEER_IDLE_NS,
        msg1.len() < 65536,
        cookie matches Some(c) ==> c.len() == 16,
    ensures
        ({
            let body = handshake::msg1_bytes(msg1, cookie);
            let inner = Some(wire_dgram::inner_bytes(DgramType::Hs1, body));
            let after = dgram_step(m, src, inner, gate_under_load, now).0;
            &&& after.peers == Map::<PeerAddr, Stamped<C>>::empty()
            &&& after.pending == m.pending
            &&& !(dgram_step(after, src, inner, gate_under_load, later).1 is Drop)
        }),
{
    let body = handshake::msg1_bytes(msg1, cookie);
    wire_dgram::law_inner_roundtrip(DgramType::Hs1, body);
    handshake::law_msg1_roundtrip(msg1, cookie);
    assert(evicted(m, now).peers =~= Map::<PeerAddr, Stamped<C>>::empty());
}

/// A sweep drops exactly what is too old.
pub proof fn law_sweep_keeps_the_young<R, C>(m: ServerModel<R, C>, now: u64, a: PeerAddr)
    ensures
        swept(m, now).peers.dom().contains(a) <==> m.peers.dom().contains(a) && table::age(
            now,
            m.peers[a].at,
        ) < PEER_IDLE_NS,
        swept(m, now).pending.dom().contains(a) <==> m.pending.dom().contains(a) && table::age(
            now,
            m.pending[a].at,
        ) < PENDING_STALE_NS,
        swept(m, now).peers.dom().contains(a) ==> swept(m, now).peers[a] == m.peers[a],
        swept(m, now).pending.dom().contains(a) ==> swept(m, now).pending[a] == m.pending[a],
{
}

/// A peer that sends data stays a peer with its channel, and counts as heard
/// of now.
pub proof fn law_data_keeps_peer_alive<R, C>(
    m: ServerModel<R, C>,
    src: PeerAddr,
    record: Seq<u8>,
    gate_under_load: bool,
    now: u64,
)
    requires
        m.peers.dom().contains(src),
    ensures
        ({
            let inner = wire_dgram::inner_bytes(DgramType::Data, record);
            let (after, step) = dgram_step(m, src, Some(inner), gate_under_load, now);
            &&& step == StepView::<R>::Open { record }
            &&& after.peers.dom().contains(src)
            &&& after.peers[src] == (Stamped { value: m.peers[src].value, at: now })
        }),
{
    wire_dgram::law_inner_roundtrip(DgramType::Data, record);
}

/// Data from an address that has completed no handshake is dropped.
pub proof fn law_stranger_gets_nothing<R, C>(
    m: ServerModel<R, C>,
    src: PeerAddr,
    record: Seq<u8>,
    gate_under_load: bool,
    now: u64,
)
    requires
        !m.peers.dom().contains(src),
    ensures
        dgram_step(
            m,
            src,
            Some(wire_dgram::inner_bytes(DgramType::Data, record)),
            gate_under_load,
            now,
        ).1 == StepView::<R>::Drop,
{
    wire_dgram::law_inner_roundtrip(DgramType::Data, record);
}

/// The third message finds the responder that answered the first one from the
/// same address, and finds it only once.
pub proof fn law_third_message_finds_its_responder<R, C>(
    m: ServerModel<R, C>,
    src: PeerAddr,
    responder: R,
    began: u64,
    msg3: Seq<u8>,
    gate_under_load: bool,
    now: u64,
)
    ensures
        ({
            let held = Stamped { value: responder, at: began };
            let kept = swept(ServerModel { pending: m.pending.insert(src, held), ..m }, began);
            let inner = Some(wire_dgram::inner_bytes(DgramType::Hs3, msg3));
            let (after, step) = dgram_step(kept, src, inner, gate_under_load, now);
            &&& step == StepView::Complete { responder, msg3 }
            &&& dgram_step(after, src, inner, gate_under_load, now).1 == StepView::<R>::Drop
        }),
{
    wire_dgram::law_inner_roundtrip(DgramType::Hs3, msg3);
}

/// Whether `after` holds those entries of `before` that are younger than `limit`
/// at `now`, as they were, and no others.
pub open spec fn keeps_the_young<T>(
    before: Map<PeerAddr, Stamped<T>>,
    after: Map<PeerAddr, Stamped<T>>,
    now: u64,
    limit: int,
) -> bool {
    &&& forall|a: PeerAddr| #[trigger]
        after.dom().contains(a) <==> before.dom().contains(a) && (now < before[a].at + limit || (limit
            > 0 && now <= before[a].at))
    &&& forall|a: PeerAddr| #[trigger] after.dom().contains(a) ==> after[a] == before[a]
}

/// Whether `after` is `before` without handshakes of five seconds and more, and
/// without peers that were silent for two minutes and more.
pub open spec fn is_swept<R, C>(before: ServerModel<R, C>, after: ServerModel<R, C>, now: u64) -> bool {
    &&& keeps_the_young(before.pending, after.pending, now, 5_000_000_000)
    &&& keeps_the_young(before.peers, after.peers, now, 120_000_000_000)
}

/// A sweep drops what is too old and nothing else.
pub proof fn law_sweep_drops_the_old<R, C>(s: &mut UdpServer<R, C>, now: u64)
    requires
        call_ensures(UdpServer::<R, C>::sweep, (s, now), ()),
    ensures
        is_swept(old(s)@, final(s)@, now),
{
}

/// A server starts without handshakes and peers, and counts and finds those it
/// has.
pub proof fn law_tables_are_what_they_say<R, C>(
    fresh: UdpServer<R, C>,
    s: &UdpServer<R, C>,
    pending: usize,
    peers: usize,
    src: PeerAddr,
    channel: Option<&C>,
)
    requires
        call_ensures(UdpServer::<R, C>::new, (), fresh),
        call_ensures(UdpServer::<R, C>::pending_len, (s,), pending),
        call_ensures(UdpServer::<R, C>::peer_count, (s,), peers),
        call_ensures(UdpServer::<R, C>::peer, (s, src), channel),
    ensures
        forall|a: PeerAddr| !(#[trigger] fresh@.pending.dom().contains(a)),
        forall|a: PeerAddr| !(#[trigger] fresh@.peers.dom().contains(a)),
        pending == s@.pending.len(),
        peers == s@.peers.len(),
        channel is Some <==> s@.peers.dom().contains(src),
        channel matches Some(c) ==> *c == s@.peers[src].value,
{
}

/// A first message that finds room for peers leads to what the load and its
/// cookie ask for: the load is what the load gate reports, or 256 half-open
/// handshakes. It leaves the tables as they are, whatever its sender.
pub proof fn law_first_message_on_a_server<R, C>(
    s: &mut UdpServer<R, C>,
    src: PeerAddr,
    inner: &[u8],
    gate_under_load: bool,
    now: u64,
    step: ServerStep<R>,
    msg1: Seq<u8>,
    tail: Seq<u8>,
)
    requires
        call_ensures(
            UdpServer::<R, C>::handle_dgram,
            (s, src, Some(inner), gate_under_load, now),
            step,
        ),
        old(s)@.peers.len() < 1024,
        inner@.len() == 3 + msg1.len() + tail.len(),
        inner@[0] == 0x01,
        inner@[1] * 256 + inner@[2] == msg1.len(),
        inner@.skip(3) == msg1 + tail,
    ensures
        final(s)@ == old(s)@,
        ({
            let load = gate_under_load || old(s)@.pending.len() >= 256;
            if !load {
                step matches ServerStep::Respond { msg1: m } && m@ == msg1
            } else if tail.len() >= 16 {
                step matches ServerStep::CheckCookie { msg1: m, cookie } && m@ == msg1 && cookie@
                    == tail.take(16)
            } else {
                step is Challenge
            }
        }),
{
    let body = inner@.subrange(1, inner@.len() as int);
    assert(body.skip(2) =~= inner@.skip(3));
    handshake::lemma_parts(body, msg1, tail);
}

/// With 1024 peers a first message is dropped, and peers that were silent for two
/// minutes make room; a malformed one is dropped too, and the tables are
/// swept.
pub proof fn law_first_message_dropped<R, C>(
    s: &mut UdpServer<R, C>,
    src: PeerAddr,
    inner: &[u8],
    gate_under_load: bool,
    now: u64,
    step: ServerStep<R>,
)
    requires
        call_ensures(
            UdpServer::<R, C>::handle_dgram,
            (s, src, Some(inner), gate_under_load, now),
            step,
        ),
        inner@.len() > 0,
        inner@[0] == 0x01,
    ensures
        old(s)@.peers.len() >= 1024 ==> step is Drop && final(s)@.pending == old(s)@.pending
            && keeps_the_young(old(s)@.peers, final(s)@.peers, now, 120_000_000_000),
        old(s)@.peers.len() < 1024 && (inner@.len() < 3 || inner@.len() < 3 + inner@[1] * 256
            + inner@[2]) ==> step is Drop && is_swept(old(s)@, final(s)@, now),
{
    let body = inner@.subrange(1, inner@.len() as int);
    if inner@.len() >= 3 {
        assert(body[0] == inner@[1] && body[1] == inner@[2]);
    }
}

/// A third message gets the responder that is kept for its sender, who then has none
/// any more; all other handshakes and all peers stay. Without a responder it is
/// dropped.
pub proof fn law_third_message_on_a_server<R, C>(
    s: &mut UdpServer<R, C>,
    src: PeerAddr,
    inner: &[u8],
    gate_under_load: bool,
    now: u64,
    step: ServerStep<R>,
)
    requires
        call_ensures(
            UdpServer::<R, C>::handle_dgram,
            (s, src, Some(inner), gate_under_load, now),
            step,
        ),
        inner@.len() > 0,
        inner@[0] == 0x03,
    ensures
        final(s)@.peers == old(s)@.peers,
        old(s)@.pending.dom().contains(src) ==> {
            &&& step matches ServerStep::Complete { responder, msg3 } && responder
                == old(s)@.pending[src].value && msg3@ == inner@.skip(1)
            &&& final(s)@.pending == old(s)@.pending.remove(src)
        },
        !old(s)@.pending.dom().contains(src) ==> step is Drop && final(s)@ == old(s)@,
{
    assert(inner@.subrange(1, inner@.len() as int) =~= inner@.skip(1));
}

/// Data of a peer is opened as it came, and the peer counts as heard of now; data of
/// a stranger is dropped. Nothing else changes.
pub proof fn law_data_on_a_server<R, C>(
    s: &mut UdpServer<R, C>,
    src: PeerAddr,
    inner: &[u8],
    gate_under_load: bool,
    now: u64,
    step: ServerStep<R>,
)
    requires
        call_ensures(
            UdpServer::<R, C>::handle_dgram,
            (s, src, Some(inner), gate_under_load, now),
            step,
        ),
        inner@.len() > 0,
        inner@[0] == 0x05,
    ensures
        final(s)@.pending == old(s)@.pending,
        old(s)@.peers.dom().contains(src) ==> {
            &&& step matches ServerStep::Open { record } && record@ == inner@.skip(1)
            &&& final(s)@.peers == old(s)@.peers.insert(
                src,
                Stamped { value: old(s)@.peers[src].value, at: now },
            )
        },
        !old(s)@.peers.dom().contains(src) ==> step is Drop && final(s)@ == old(s)@,
{
    assert(inner@.subrange(1, inner@.len() as int) =~= inner@.skip(1));
}

/// What only a server sends is dropped, and the tables are swept; what cannot be
/// read is dropped without a trace.
pub proof fn law_foreign_datagram_on_a_server<R, C>(
    s: &mut UdpServer<R, C>,
    src: PeerAddr,
    inner: Option<&[u8]>,
    gate_under_load: bool,
    now: u64,
    step: ServerStep<R>,
)
    requires
        call_ensures(
            UdpServer::<R, C>::handle_dgram,
            (s, src, inner, gate_under_load, now),
            step,
        ),
    ensures
        inner matches Some(d) && d@.len() > 0 && (d@[0] == 0x02 || d@[0] == 0x04) ==> step is Drop
            && is_swept(old(s)@, final(s)@, now),
        inner is None ==> step is Drop && final(s)@ == old(s)@,
        inner matches Some(d) && (d@.len() == 0 || d@[0] == 0 || d@[0] > 5) ==> step is Drop && final(s)@
            == old(s)@,
{
}

/// The load gate is asked about first messages that find room for peers, and about
/// nothing else.
pub proof fn law_load_is_asked_for_first_messages<R, C>(
    s: &UdpServer<R, C>,
    inner: Option<&[u8]>,
    b: bool,
)
    requires
        call_ensures(UdpServer::<R, C>::asks_load, (s, inner), b),
    ensures
        b <==> (inner matches Some(d) && d@.len() > 0 && d@[0] == 0x01 && s@.peers.len() < 1024),
{
}

/// A good cookie leads to the responder for the message that came with it, a bad
/// one to a new challenge.
pub proof fn law_cookie_check_on_a_server<R, C>(
    s: &UdpServer<R, C>,
    msg1: Vec<u8>,
    cookie_ok: bool,
    step: ServerStep<R>,
)
    requires
        call_ensures(UdpServer::<R, C>::on_cookie_checked, (s, msg1, cookie_ok), step),
    ensures
        cookie_ok ==> (step matches ServerStep::Respond { msg1: m } && m@ == msg1@),
        !cookie_ok ==> step is Challenge,
{
}

/// A responder that has replied is kept for its sender from now on and its reply
/// is sent, if there are fewer than 2048 half-open handshakes or the sender has
/// one already. Otherwise nothing is sent and nothing changes.
pub proof fn law_responder_is_kept_where_there_is_room<R, C>(
    s: &mut UdpServer<R, C>,
    src: PeerAddr,
    outcome: Result<Option<AcceptResult<R>>, ObfsError>,
    now: u64,
    reply: Option<Vec<u8>>,
    r: R,
    wire: Vec<u8>,
    from: PeerAddr,
)
    requires
        call_ensures(UdpServer::<R, C>::on_accept, (s, src, outcome, now), reply),
        outcome == Ok::<_, ObfsError>(
            Some(AcceptResult::PartialHandshake { responder: r, msg2: wire, client_addr: from }),
        ),
    ensures
        ({
            let room = old(s)@.pending.len() < 2048 || old(s)@.pending.dom().contains(src);
            let kept = ServerModel {
                pending: old(s)@.pending.insert(src, Stamped { value: r, at: now }),
                peers: old(s)@.peers,
            };
            &&& room ==> reply == Some(wire) && is_swept(kept, final(s)@, now) && final(s)@.pending.dom().contains(src) && final(s)@.pending[src].value == r
            &&& !room ==> reply is None && final(s)@ == old(s)@
        }),
{
}

/// A challenge is sent as it is and keeps nothing for its receiver; a first message
/// that came to nothing is not answered. The tables are swept.
pub proof fn law_challenge_keeps_nothing<R, C>(
    s: &mut UdpServer<R, C>,
    src: PeerAddr,
    outcome: Result<Option<AcceptResult<R>>, ObfsError>,
    now: u64,
    reply: Option<Vec<u8>>,
)
    requires
        call_ensures(UdpServer::<R, C>::on_accept, (s, src, outcome, now), reply),
        !(outcome matches Ok(Some(AcceptResult::PartialHandshake { .. }))),
    ensures
        outcome matches Ok(Some(AcceptResult::CookieReply(wire))) ==> reply == Some(wire),
        !(outcome matches Ok(Some(AcceptResult::CookieReply(_)))) ==> reply is None,
        is_swept(old(s)@, final(s)@, now),
{
}

/// An admitted client is a peer with its channel from now on, and is told so;
/// nobody else becomes one.
pub proof fn law_admitted_client_becomes_a_peer<R, C, B>(
    s: &mut UdpServer<R, C>,
    src: PeerAddr,
    admission: Admission<C>,
    now: u64,
    ready: Option<Envelope<B>>,
)
    requires
        call_ensures(
            UdpServer::<R, C>::finish_handshake::<B>,
            (s, src, admission, now),
            ready,
        ),
    ensures
        admission matches Admission::Admitted(c) ==> {
            &&& ready == Some(Envelope::<B>::Pong)
            &&& final(s)@.peers.dom().contains(src)
            &&& final(s)@.peers[src] == (Stamped { value: c, at: now })
            &&& is_swept(
                ServerModel {
                    pending: old(s)@.pending,
                    peers: old(s)@.peers.insert(src, Stamped { value: c, at: now }),
                },
                final(s)@,
                now,
            )
        },
        !(admission is Admitted) ==> ready is None,
        admission is Refused ==> final(s)@ == old(s)@,
        admission is Failed ==> is_swept(old(s)@, final(s)@, now),
{
}

/// A client is admitted exactly if its third message was good and the transport
/// gate accepts its key; its channel is the one that the message set up.
pub proof fn law_client_is_admitted_by_the_gate<G: TransportGate>(
    outcome: Result<(DataChannel, [u8; 32]), ObfsError>,
    gate: &G,
    admission: Admission<DataChannel>,
)
    requires
        call_ensures(admit_client::<G>, (outcome, gate), admission),
    ensures
        outcome is Err ==> admission is Failed,
        outcome matches Ok((channel, key)) ==> exists|verdict: Result<(), String>| #[trigger]
            call_ensures(G::authenticate, (gate, &key), verdict) && match verdict {
                Ok(()) => admission == Admission::Admitted(channel),
                Err(_) => admission is Refused,
            },
{
    if let Ok((channel, key)) = outcome {
        let verdict = choose|verdict: Result<(), String>| #[trigger]
            call_ensures(G::authenticate, (gate, &key), verdict) && admission == if verdict is Ok {
                Admission::Admitted(channel)
            } else {
                Admission::Refused
            };
        assert(call_ensures(G::authenticate, (gate, &key), verdict));
    }
}

/// A record of a peer asks of the server what its envelope asks, a subscription
/// with its very topic and capability, with a token or without. What holds no
/// envelope asks nothing.
pub proof fn law_record_asks_what_its_envelope_asks<B>(
    opened: Opened<B>,
    step: Option<Inbound<B>>,
)
    requires
        call_ensures(serve_record::<B>, (opened,), step),
    ensures
        opened is Rejected ==> step is None,
        opened matches Opened::Authentic(Err(_)) ==> step is None,
        opened matches Opened::Authentic(Ok(env)) ==> match env {
            Envelope::Request(req) => step == Some(Inbound::Dispatch(req)),
            Envelope::Subscribe { topic, capability, .. } => step == Some(
                Inbound::<B>::Authorise { topic, capability },
            ),
            Envelope::Ping => step == Some(Inbound::Reply(Envelope::<B>::Pong)),
            _ => step == Some(Inbound::<B>::Ignore),
        },
{
}

/// A request is answered with the response of the service, as it is.
pub proof fn law_answer_is_the_response<B>(response: Response<B>, env: Envelope<B>)
    requires
        call_ensures(answer::<B>, (response,), env),
    ensures
        env == Envelope::Response(response),
{
}

/// The largest datagram that is received is the largest that UDP over IPv4 has.
pub proof fn law_datagrams_are_bounded()
    ensures
        MAX_DGRAM == 65535 - 20 - 8,
{
}

} // verus!
