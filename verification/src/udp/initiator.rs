//! Client side of the datagram handshake, as a state machine.
//!
//! The caller performs each action and reports what came of it. First and
//! third message are sent again on a timer, and the whole exchange is bounded.

use crate::error::{handshake_err, join, ErrorView, IoKind, ObfsError};
use crate::random::{self, draw};
use crate::udp::dataplane::{self, ChannelKeys, DataChannel};
use crate::udp::handshake::{self, decode_cookie, encode_msg1_framed};
use crate::udp::wire_dgram::{self, decode_inner, encode_inner, DgramType};
use rand::rngs::SmallRng;
use vstd::prelude::*;
use vstd::slice::slice_to_vec;

verus! {

/// How long to wait for a reply to a first message, in milliseconds.
pub const RETRANSMIT_INTERVAL_MS: u64 = 250;

/// How often a first message is sent in one attempt.
pub const MAX_HS_TRIES: usize = 12;

/// How many attempts a handshake has, each with a fresh seed.
pub const MAX_HANDSHAKE_ATTEMPTS: usize = 3;

/// How long to wait for the ready record after the third message.
pub const READY_WAIT_MS: u64 = 2000;

/// How often the third message is sent again.
pub const MAX_MSG3_RESENDS: usize = 3;

/// How long to wait for the ready record after a resent third message.
pub const RESEND_WAIT_MS: u64 = 500;

/// Where an attempt stands.
enum Phase {
    /// A new initiator is being made.
    Starting,
    /// The first message has been sent `tries` times.
    AwaitMsg2 { msg1: Vec<u8>, cookie: Option<[u8; 16]>, tries: usize },
    /// The second message is being read and the third one written.
    AwaitMsg3,
    /// The third message has been sent, and sent again `resends` times.
    AwaitReady { inner: Vec<u8>, channel: DataChannel, resends: usize },
    /// The handshake is over.
    Finished,
}

/// A client handshake in progress.
pub struct ClientHandshake {
    attempt: usize,
    seed: [u8; 32],
    phase: Phase,
}

/// The phase of a handshake, as a value.
#[verifier::ext_equal]
pub enum PhaseView {
    Starting,
    AwaitMsg2 { msg1: Seq<u8>, cookie: Option<Seq<u8>>, tries: nat },
    AwaitMsg3,
    AwaitReady { inner: Seq<u8>, channel: ChannelKeys, resends: nat },
    Finished,
}

/// A client handshake, as a value: the attempt it is in, counted from zero,
/// the seed of that attempt, and its phase.
#[verifier::ext_equal]
pub struct HsModel {
    pub attempt: nat,
    pub seed: Seq<u8>,
    pub phase: PhaseView,
}

impl View for ClientHandshake {
    type V = HsModel;

    closed spec fn view(&self) -> HsModel {
        HsModel {
            attempt: self.attempt as nat,
            seed: self.seed@,
            phase: match self.phase {
                Phase::Starting => PhaseView::Starting,
                Phase::AwaitMsg2 { msg1, cookie, tries } => PhaseView::AwaitMsg2 {
                    msg1: msg1@,
                    cookie: handshake::cookie_view(cookie),
                    tries: tries as nat,
                },
                Phase::AwaitMsg3 => PhaseView::AwaitMsg3,
                Phase::AwaitReady { inner, channel, resends } => PhaseView::AwaitReady {
                    inner: inner@,
                    channel: channel@,
                    resends: resends as nat,
                },
                Phase::Finished => PhaseView::Finished,
            },
        }
    }
}

/// What came of an action.
pub enum HsEvent {
    /// The initiator could not be made.
    InitiatorFailed(String),
    /// The initiator could not write its first message.
    Msg1Failed(String),
    /// The initiator wrote its first message.
    Msg1(Vec<u8>),
    /// A datagram could not be sent.
    SendFailed(IoKind, String),
    /// The socket failed while a datagram was waited for.
    RecvFailed(IoKind, String),
    /// No datagram came in time.
    TimedOut,
    /// A datagram came from the server; this is what shaping left of it, if
    /// it could be unshaped.
    Datagram(Option<Vec<u8>>),
    /// The initiator wrote the third message; `None` if it did not accept the
    /// second one or could not write.
    Msg3(Option<Vec<u8>>),
    /// A datagram came from the server while its ready record is waited for;
    /// tells whether it opened to an envelope.
    Record(bool),
}

/// An [`HsEvent`] with its contents as sequences.
#[verifier::ext_equal]
pub enum EventView {
    InitiatorFailed(Seq<char>),
    Msg1Failed(Seq<char>),
    Msg1(Seq<u8>),
    SendFailed(IoKind, Seq<char>),
    RecvFailed(IoKind, Seq<char>),
    TimedOut,
    Datagram(Option<Seq<u8>>),
    Msg3(Option<Seq<u8>>),
    Record(bool),
}

/// The bytes of an optional byte string.
pub open spec fn opt_view(v: Option<Vec<u8>>) -> Option<Seq<u8>> {
    match v {
        Some(b) => Some(b@),
        None => None,
    }
}

impl View for HsEvent {
    type V = EventView;

    open spec fn view(&self) -> EventView {
        match *self {
            HsEvent::InitiatorFailed(m) => EventView::InitiatorFailed(m@),
            HsEvent::Msg1Failed(m) => EventView::Msg1Failed(m@),
            HsEvent::Msg1(b) => EventView::Msg1(b@),
            HsEvent::SendFailed(k, m) => EventView::SendFailed(k, m@),
            HsEvent::RecvFailed(k, m) => EventView::RecvFailed(k, m@),
            HsEvent::TimedOut => EventView::TimedOut,
            HsEvent::Datagram(d) => EventView::Datagram(opt_view(d)),
            HsEvent::Msg3(m) => EventView::Msg3(opt_view(m)),
            HsEvent::Record(b) => EventView::Record(b),
        }
    }
}

/// What the caller is to do next.
pub enum HsAction {
    /// Make a new initiator and let it write its first message.
    Start,
    /// Send the inner datagram, then wait so long for one datagram from the
    /// server.
    SendMsg1 { inner: Vec<u8>, wait_ms: u64 },
    /// Let the initiator read `msg2` and write the third message with the
    /// payload `seed`.
    WriteMsg3 { msg2: Vec<u8>, seed: [u8; 32] },
    /// Send the inner datagram, then wait so long in all for a datagram that
    /// `channel` opens.
    SendMsg3 { inner: Vec<u8>, channel: DataChannel, wait_ms: u64 },
    /// Nothing to do: go on waiting.
    Wait,
    /// The handshake is complete.
    Done(DataChannel),
    /// The handshake failed.
    Failed(ObfsError),
}

/// An [`HsAction`] with its contents as sequences.
#[verifier::ext_equal]
pub enum ActionView {
    Start,
    SendMsg1 { inner: Seq<u8>, wait_ms: u64 },
    WriteMsg3 { msg2: Seq<u8>, seed: Seq<u8> },
    SendMsg3 { inner: Seq<u8>, channel: ChannelKeys, wait_ms: u64 },
    Wait,
    Done(ChannelKeys),
    Failed(ErrorView),
}

impl View for HsAction {
    type V = ActionView;

    open spec fn view(&self) -> ActionView {
        match *self {
            HsAction::Start => ActionView::Start,
            HsAction::SendMsg1 { inner, wait_ms } => ActionView::SendMsg1 { inner: inner@, wait_ms },
            HsAction::WriteMsg3 { msg2, seed } => ActionView::WriteMsg3 { msg2: msg2@, seed: seed@ },
            HsAction::SendMsg3 { inner, channel, wait_ms } => ActionView::SendMsg3 {
                inner: inner@,
                channel: channel@,
                wait_ms,
            },
            HsAction::Wait => ActionView::Wait,
            HsAction::Done(channel) => ActionView::Done(channel@),
            HsAction::Failed(e) => ActionView::Failed(e@),
        }
    }
}

/// The start of a handshake.
pub open spec fn initial(m: HsModel) -> bool {
    m.attempt == 0 && m.phase == PhaseView::Starting
}

/// The counters are within their limits, and the keys in use are those of the
/// attempt's seed.
pub open spec fn hs_valid(m: HsModel) -> bool {
    &&& m.attempt < MAX_HANDSHAKE_ATTEMPTS
    &&& m.seed.len() == 32
    &&& match m.phase {
        PhaseView::AwaitMsg2 { cookie, tries, .. } => 1 <= tries <= MAX_HS_TRIES && (cookie matches Some(
            c,
        ) ==> c.len() == 16),
        PhaseView::AwaitReady { channel, resends, .. } => resends <= MAX_MSG3_RESENDS && channel
            == dataplane::client_keys(m.seed),
        _ => true,
    }
}

/// The handshake ends with `error`.
pub open spec fn fail(m: HsModel, error: ErrorView) -> (HsModel, ActionView) {
    (HsModel { phase: PhaseView::Finished, ..m }, ActionView::Failed(error))
}

/// This attempt is given up: the next one starts, unless it was the last.
pub open spec fn next_attempt(m: HsModel) -> (HsModel, ActionView) {
    if m.attempt + 1 < MAX_HANDSHAKE_ATTEMPTS {
        (HsModel { attempt: m.attempt + 1, phase: PhaseView::Starting, ..m }, ActionView::Start)
    } else {
        fail(m, ErrorView::HandshakeFailed("handshake exhausted all attempts"@))
    }
}

/// The first message goes out, the `tries`-th time in this attempt.
pub open spec fn send_msg1(
    m: HsModel,
    msg1: Seq<u8>,
    cookie: Option<Seq<u8>>,
    tries: nat,
) -> (HsModel, ActionView) {
    (
        HsModel { phase: PhaseView::AwaitMsg2 { msg1, cookie, tries }, ..m },
        ActionView::SendMsg1 {
            inner: wire_dgram::inner_bytes(DgramType::Hs1, handshake::msg1_bytes(msg1, cookie)),
            wait_ms: RETRANSMIT_INTERVAL_MS,
        },
    )
}

/// The first message is sent once more, if a try is left in this attempt.
pub open spec fn retry_msg1(
    m: HsModel,
    msg1: Seq<u8>,
    cookie: Option<Seq<u8>>,
    tries: nat,
) -> (HsModel, ActionView) {
    if tries < MAX_HS_TRIES {
        send_msg1(m, msg1, cookie, tries + 1)
    } else {
        next_attempt(m)
    }
}

/// The third message goes out, after `resends` earlier repetitions.
pub open spec fn send_msg3(
    m: HsModel,
    inner: Seq<u8>,
    channel: ChannelKeys,
    resends: nat,
) -> (HsModel, ActionView) {
    (
        HsModel { phase: PhaseView::AwaitReady { inner, channel, resends }, ..m },
        ActionView::SendMsg3 {
            inner,
            channel,
            wait_ms: if resends == 0 {
                READY_WAIT_MS
            } else {
                RESEND_WAIT_MS
            },
        },
    )
}

/// A reply came while the second message is waited for: a second message
/// is taken, a cookie is echoed, anything else is ignored; what is not a
/// second message uses up the try.
pub open spec fn on_reply(
    m: HsModel,
    msg1: Seq<u8>,
    cookie: Option<Seq<u8>>,
    tries: nat,
    inner: Option<Seq<u8>>,
) -> (HsModel, ActionView) {
    let parts = match inner {
        Some(i) => wire_dgram::inner_parts(i),
        None => None,
    };
    match parts {
        Some((DgramType::Hs2, body)) => (
            HsModel { phase: PhaseView::AwaitMsg3, ..m },
            ActionView::WriteMsg3 { msg2: body, seed: m.seed },
        ),
        Some((DgramType::Cookie, body)) => match handshake::cookie_parts(body) {
            Some(c) => retry_msg1(m, msg1, Some(c), tries),
            None => retry_msg1(m, msg1, cookie, tries),
        },
        _ => retry_msg1(m, msg1, cookie, tries),
    }
}

/// One step of the handshake. `seed` is the fresh seed of an attempt, used
/// when its first message has been written.
pub open spec fn hs_step(m: HsModel, event: EventView, seed: Seq<u8>) -> (HsModel, ActionView) {
    match (m.phase, event) {
        (PhaseView::Starting, EventView::InitiatorFailed(e)) => fail(
            m,
            ErrorView::HandshakeFailed("initiator: "@ + e),
        ),
        (PhaseView::Starting, EventView::Msg1Failed(e)) => fail(
            m,
            ErrorView::HandshakeFailed("write msg1: "@ + e),
        ),
        (PhaseView::Starting, EventView::Msg1(msg1)) => send_msg1(
            HsModel { seed, ..m },
            msg1,
            None,
            1,
        ),
        (PhaseView::AwaitMsg2 { .. }, EventView::SendFailed(k, e)) => fail(m, ErrorView::Io(k, e)),
        (PhaseView::AwaitMsg2 { .. }, EventView::RecvFailed(k, e)) => fail(m, ErrorView::Io(k, e)),
        (PhaseView::AwaitMsg2 { msg1, cookie, tries }, EventView::TimedOut) => retry_msg1(
            m,
            msg1,
            cookie,
            tries,
        ),
        (PhaseView::AwaitMsg2 { msg1, cookie, tries }, EventView::Datagram(inner)) => on_reply(
            m,
            msg1,
            cookie,
            tries,
            inner,
        ),
        (PhaseView::AwaitMsg3, EventView::Msg3(None)) => next_attempt(m),
        (PhaseView::AwaitMsg3, EventView::Msg3(Some(msg3))) => send_msg3(
            m,
            wire_dgram::inner_bytes(DgramType::Hs3, msg3),
            dataplane::client_keys(m.seed),
            0,
        ),
        (PhaseView::AwaitReady { resends, .. }, EventView::SendFailed(k, e)) => if resends == 0 {
            fail(m, ErrorView::Io(k, e))
        } else {
            (m, ActionView::Wait)
        },
        (PhaseView::AwaitReady { channel, .. }, EventView::Record(true)) => (
            HsModel { phase: PhaseView::Finished, ..m },
            ActionView::Done(channel),
        ),
        (PhaseView::AwaitReady { inner, channel, resends }, EventView::TimedOut) => resend_msg3(
            m,
            inner,
            channel,
            resends,
        ),
        (PhaseView::AwaitReady { inner, channel, resends }, EventView::RecvFailed(_, _)) => resend_msg3(
            m,
            inner,
            channel,
            resends,
        ),
        _ => (m, ActionView::Wait),
    }
}

/// The third message is sent once more, or the attempt is given up.
pub open spec fn resend_msg3(
    m: HsModel,
    inner: Seq<u8>,
    channel: ChannelKeys,
    resends: nat,
) -> (HsModel, ActionView) {
    if resends < MAX_MSG3_RESENDS {
        send_msg3(m, inner, channel, resends + 1)
    } else {
        next_attempt(m)
    }
}

/// Starts a handshake: the first action is to make an initiator.
pub fn client_udp_handshake() -> (r: (ClientHandshake, HsAction))
    ensures
        initial(r.0@),
        hs_valid(r.0@),
        r.1@ == ActionView::Start,
{
    let machine = ClientHandshake { attempt: 0, seed: [0; 32], phase: Phase::Starting };
    (machine, HsAction::Start)
}

impl ClientHandshake {
    fn give_up(&mut self) -> (action: HsAction)
        requires
            old(self).attempt < MAX_HANDSHAKE_ATTEMPTS,
        ensures
            (final(self)@, action@) == next_attempt(old(self)@),
    {
        if self.attempt + 1 < MAX_HANDSHAKE_ATTEMPTS {
            self.attempt = self.attempt + 1;
            self.phase = Phase::Starting;
            HsAction::Start
        } else {
            self.phase = Phase::Finished;
            HsAction::Failed(handshake_err("handshake exhausted all attempts"))
        }
    }

    fn stop(&mut self, error: ObfsError) -> (action: HsAction)
        ensures
            (final(self)@, action@) == fail(old(self)@, error@),
    {
        self.phase = Phase::Finished;
        HsAction::Failed(error)
    }

    fn send_first(&mut self, msg1: Vec<u8>, cookie: Option<[u8; 16]>, tries: usize) -> (action: HsAction)
        ensures
            (final(self)@, action@) == send_msg1(
                old(self)@,
                msg1@,
                handshake::cookie_view(cookie),
                tries as nat,
            ),
    {
        let body: Vec<u8> = encode_msg1_framed(msg1.as_slice(), cookie);
        let inner: Vec<u8> = encode_inner(DgramType::Hs1, body.as_slice());
        self.phase = Phase::AwaitMsg2 { msg1, cookie, tries };
        HsAction::SendMsg1 { inner, wait_ms: RETRANSMIT_INTERVAL_MS }
    }

    fn retry_first(&mut self, msg1: Vec<u8>, cookie: Option<[u8; 16]>, tries: usize) -> (action: HsAction)
        requires
            old(self).attempt < MAX_HANDSHAKE_ATTEMPTS,
        ensures
            (final(self)@, action@) == retry_msg1(
                old(self)@,
                msg1@,
                handshake::cookie_view(cookie),
                tries as nat,
            ),
    {
        if tries < MAX_HS_TRIES {
            self.send_first(msg1, cookie, tries + 1)
        } else {
            self.give_up()
        }
    }

    fn reply_came(
        &mut self,
        msg1: Vec<u8>,
        cookie: Option<[u8; 16]>,
        tries: usize,
        inner: Option<Vec<u8>>,
    ) -> (action: HsAction)
        requires
            old(self).attempt < MAX_HANDSHAKE_ATTEMPTS,
        ensures
            (final(self)@, action@) == on_reply(
                old(self)@,
                msg1@,
                handshake::cookie_view(cookie),
                tries as nat,
                opt_view(inner),
            ),
    {
        let inner: Vec<u8> = match inner {
            Some(i) => i,
            None => {
                return self.retry_first(msg1, cookie, tries);
            },
        };
        match decode_inner(inner.as_slice()) {
            Some((DgramType::Hs2, body)) => {
                self.phase = Phase::AwaitMsg3;
                HsAction::WriteMsg3 { msg2: slice_to_vec(body), seed: self.seed }
            },
            Some((DgramType::Cookie, body)) => {
                match decode_cookie(body) {
                    Some(c) => self.retry_first(msg1, Some(c), tries),
                    None => self.retry_first(msg1, cookie, tries),
                }
            },
            _ => self.retry_first(msg1, cookie, tries),
        }
    }

    fn send_third(&mut self, inner: Vec<u8>, channel: DataChannel, resends: usize) -> (action: HsAction)
        ensures
            (final(self)@, action@) == send_msg3(old(self)@, inner@, channel@, resends as nat),
    {
        let mut copy: Vec<u8> = Vec::new();
        copy.extend_from_slice(inner.as_slice());
        assert(copy@ =~= inner@);
        let wait_ms: u64 = if resends == 0 {
            READY_WAIT_MS
        } else {
            RESEND_WAIT_MS
        };
        self.phase = Phase::AwaitReady { inner, channel, resends };
        HsAction::SendMsg3 { inner: copy, channel, wait_ms }
    }

    fn resend_third(&mut self, inner: Vec<u8>, channel: DataChannel, resends: usize) -> (action: HsAction)
        requires
            old(self).attempt < MAX_HANDSHAKE_ATTEMPTS,
        ensures
            (final(self)@, action@) == resend_msg3(old(self)@, inner@, channel@, resends as nat),
    {
        if resends < MAX_MSG3_RESENDS {
            self.send_third(inner, channel, resends + 1)
        } else {
            self.give_up()
        }
    }

    /// Takes one step on `event`, with `seed` as the seed of the attempt that
    /// a written first message opens.
    pub fn step_with_seed(&mut self, event: HsEvent, seed: [u8; 32]) -> (action: HsAction)
        requires
            hs_valid(old(self)@),
        ensures
            (final(self)@, action@) == hs_step(old(self)@, event@, seed@),
            hs_valid(final(self)@),
    {
        let mut phase: Phase = Phase::Finished;
        std::mem::swap(&mut phase, &mut self.phase);
        match phase {
            Phase::Starting => match event {
                HsEvent::InitiatorFailed(e) => self.stop(
                    ObfsError::HandshakeFailed(join("initiator: ", e.as_str())),
                ),
                HsEvent::Msg1Failed(e) => self.stop(
                    ObfsError::HandshakeFailed(join("write msg1: ", e.as_str())),
                ),
                HsEvent::Msg1(msg1) => {
                    self.seed = seed;
                    self.send_first(msg1, None, 1)
                },
                _ => {
                    self.phase = Phase::Starting;
                    HsAction::Wait
                },
            },
            Phase::AwaitMsg2 { msg1, cookie, tries } => match event {
                HsEvent::SendFailed(kind, e) => self.stop(ObfsError::Io(kind, e)),
                HsEvent::RecvFailed(kind, e) => self.stop(ObfsError::Io(kind, e)),
                HsEvent::TimedOut => self.retry_first(msg1, cookie, tries),
                HsEvent::Datagram(inner) => self.reply_came(msg1, cookie, tries, inner),
                _ => {
                    self.phase = Phase::AwaitMsg2 { msg1, cookie, tries };
                    HsAction::Wait
                },
            },
            Phase::AwaitMsg3 => match event {
                HsEvent::Msg3(None) => self.give_up(),
                HsEvent::Msg3(Some(msg3)) => {
                    let channel: DataChannel = DataChannel::for_client(&self.seed);
                    self.send_third(encode_inner(DgramType::Hs3, msg3.as_slice()), channel, 0)
                },
                _ => {
                    self.phase = Phase::AwaitMsg3;
                    HsAction::Wait
                },
            },
            Phase::AwaitReady { inner, channel, resends } => match event {
                HsEvent::SendFailed(kind, e) => {
                    if resends == 0 {
                        self.stop(ObfsError::Io(kind, e))
                    } else {
                        self.phase = Phase::AwaitReady { inner, channel, resends };
                        HsAction::Wait
                    }
                },
                HsEvent::Record(true) => {
                    self.phase = Phase::Finished;
                    HsAction::Done(channel)
                },
                HsEvent::TimedOut => self.resend_third(inner, channel, resends),
                HsEvent::RecvFailed(_, _) => self.resend_third(inner, channel, resends),
                _ => {
                    self.phase = Phase::AwaitReady { inner, channel, resends };
                    HsAction::Wait
                },
            },
            Phase::Finished => HsAction::Wait,
        }
    }

    /// Takes one step on `event`. When the event opens an attempt, the seed of
    /// that attempt is drawn from `rng`; every other step is the same whatever
    /// the generator yields.
    pub fn step(&mut self, event: HsEvent, rng: &mut SmallRng) -> (action: HsAction)
        requires
            hs_valid(old(self)@),
        ensures
            hs_valid(final(self)@),
            exists|seed: Seq<u8>|
                seed.len() == 32 && (event is Msg1 ==> random::drawn(seed)) && (
                final(self)@,
                action@,
                ) == #[trigger] hs_step(
                    old(self)@,
                    event@,
                    seed,
                ),
    {
        let seed: [u8; 32] = match &event {
            HsEvent::Msg1(_) => draw(rng),
            _ => [0; 32],
        };
        assert(seed@.len() == 32);
        self.step_with_seed(event, seed)
    }
}

/// The wait that an action asks for, in milliseconds.
pub open spec fn wait_of(action: ActionView) -> int {
    match action {
        ActionView::SendMsg1 { wait_ms, .. } => wait_ms as int,
        ActionView::SendMsg3 { wait_ms, .. } => wait_ms as int,
        _ => 0,
    }
}

/// How much waiting is left at most, in milliseconds. An attempt waits twelve
/// times 250 ms for a second message, then 2000 ms and three times 500 ms for
/// the ready record: 6500 ms in all.
pub open spec fn wait_budget(m: HsModel) -> int {
    let later = (MAX_HANDSHAKE_ATTEMPTS - 1 - m.attempt) * 6500;
    match m.phase {
        PhaseView::Starting => later + 6500,
        PhaseView::AwaitMsg2 { tries, .. } => later + (MAX_HS_TRIES - tries) * 250 + 3500,
        PhaseView::AwaitMsg3 => later + 3500,
        PhaseView::AwaitReady { resends, .. } => later + (MAX_MSG3_RESENDS - resends) * 500,
        PhaseView::Finished => 0,
    }
}

/// A rank that goes down as a handshake moves on: an attempt takes at most
/// twelve first messages, one second message and four third messages.
pub open spec fn rank(m: HsModel) -> int {
    let later = (MAX_HANDSHAKE_ATTEMPTS - 1 - m.attempt) * 19;
    match m.phase {
        PhaseView::Starting => later + 19,
        PhaseView::AwaitMsg2 { tries, .. } => later + MAX_HS_TRIES - tries + 6,
        PhaseView::AwaitMsg3 => later + 5,
        PhaseView::AwaitReady { resends, .. } => later + MAX_MSG3_RESENDS - resends + 1,
        PhaseView::Finished => 0,
    }
}

/// A handshake cannot hang: all its waits together take at most 19.5 seconds,
/// whatever the server does.
pub proof fn law_waits_bounded(m: HsModel, event: EventView, seed: Seq<u8>)
    requires
        hs_valid(m),
        seed.len() == 32,
    ensures
        initial(m) ==> wait_budget(m) == 19500,
        wait_budget(m) >= 0,
        wait_of(hs_step(m, event, seed).1) + wait_budget(hs_step(m, event, seed).0) <= wait_budget(m),
{
}

/// All the waits of a handshake that starts in `m` and meets `events`, each
/// with the seed that is at hand.
pub open spec fn total_wait(m: HsModel, events: Seq<(EventView, Seq<u8>)>) -> int
    decreases events.len(),
{
    if events.len() == 0 {
        0
    } else {
        let (next, action) = hs_step(m, events[0].0, events[0].1);
        wait_of(action) + total_wait(next, events.skip(1))
    }
}

/// Over its whole course, whatever happens and however long it goes on, a
/// handshake waits no longer than 19.5 seconds.
pub proof fn law_whole_handshake_bounded(m: HsModel, events: Seq<(EventView, Seq<u8>)>)
    requires
        hs_valid(m),
        forall|i: int| 0 <= i < events.len() ==> (#[trigger] events[i]).1.len() == 32,
    ensures
        total_wait(m, events) <= wait_budget(m),
        initial(m) ==> total_wait(m, events) <= 19500,
    decreases events.len(),
{
    law_waits_bounded(m, EventView::TimedOut, m.seed);
    if events.len() > 0 {
        let (event, seed) = events[0];
        law_waits_bounded(m, event, seed);
        law_steps_bounded(m, event, seed);
        let later = events.skip(1);
        assert forall|i: int| 0 <= i < later.len() implies (#[trigger] later[i]).1.len() == 32 by {
            assert(later[i] == events[i + 1]);
        }
        law_whole_handshake_bounded(hs_step(m, event, seed).0, later);
    }
}

/// Every step either lowers the rank or changes nothing and asks to go on
/// waiting, so a handshake takes a bounded number of actions.
pub proof fn law_steps_bounded(m: HsModel, event: EventView, seed: Seq<u8>)
    requires
        hs_valid(m),
        seed.len() == 32,
    ensures
        rank(m) >= 0,
        hs_valid(hs_step(m, event, seed).0),
        hs_step(m, event, seed) == (m, ActionView::Wait) || rank(hs_step(m, event, seed).0) < rank(m),
{
}

/// A cookie that the server sends is echoed: as long as a try is left, the
/// next first message carries it behind the same Noise message.
pub proof fn law_cookie_echoed(
    m: HsModel,
    msg1: Seq<u8>,
    before: Option<Seq<u8>>,
    tries: nat,
    cookie: Seq<u8>,
    seed: Seq<u8>,
)
    requires
        m.phase == (PhaseView::AwaitMsg2 { msg1, cookie: before, tries }),
        tries < MAX_HS_TRIES,
        msg1.len() < 65536,
        cookie.len() == 16,
    ensures
        ({
            let challenge = wire_dgram::inner_bytes(DgramType::Cookie, cookie);
            let (m2, action) = hs_step(m, EventView::Datagram(Some(challenge)), seed);
            &&& m2.phase == (PhaseView::AwaitMsg2 { msg1, cookie: Some(cookie), tries: tries + 1 })
            &&& action matches ActionView::SendMsg1 { inner, .. } && wire_dgram::inner_parts(inner)
                == Some((DgramType::Hs1, handshake::msg1_bytes(msg1, Some(cookie))))
                && handshake::msg1_parts(handshake::msg1_bytes(msg1, Some(cookie))) == Some(
                (msg1, Some(cookie)),
            )
        }),
{
    wire_dgram::law_inner_roundtrip(DgramType::Cookie, cookie);
    handshake::law_cookie_roundtrip(cookie);
    wire_dgram::law_inner_roundtrip(DgramType::Hs1, handshake::msg1_bytes(msg1, Some(cookie)));
    handshake::law_msg1_roundtrip(msg1, Some(cookie));
}

/// The channel of a completed handshake uses the keys of the very seed that
/// went out inside the third message.
pub proof fn law_keys_come_from_sent_seed(m: HsModel, event: EventView, seed: Seq<u8>)
    requires
        hs_valid(m),
    ensures
        hs_step(m, event, seed).1 matches ActionView::WriteMsg3 { seed: sent, .. } ==> sent == m.seed
            && hs_step(m, event, seed).0.seed == m.seed,
        hs_step(m, event, seed).1 matches ActionView::Done(keys) ==> keys == dataplane::client_keys(
            m.seed,
        ),
        m.phase != PhaseView::Starting ==> hs_step(m, event, seed).0.seed == m.seed,
{
}

/// When a server takes its keys from the seed that a client sent, the two ends
/// can read each other.
pub proof fn law_handshake_agrees(seed: Seq<u8>)
    requires
        seed.len() == 32,
    ensures
        ({
            let client = dataplane::client_keys(seed);
            let server = dataplane::server_keys(seed.subrange(0, 32));
            client.seal == server.open && server.seal == client.open
        }),
{
    assert(seed.subrange(0, 32) =~= seed);
    dataplane::law_ends_interoperate(seed);
}

/// Silence, junk and a second message that does not verify never end a
/// handshake before its last attempt.
pub proof fn law_gives_up_only_after_last_attempt(m: HsModel, event: EventView, seed: Seq<u8>)
    requires
        hs_valid(m),
        m.attempt + 1 < MAX_HANDSHAKE_ATTEMPTS,
        event == EventView::TimedOut || event is Datagram || event is Msg3 || event is Record,
    ensures
        !(hs_step(m, event, seed).1 is Failed),
{
}

/// Whether `action` sends the first message with this Noise message and cookie,
/// and waits 250 milliseconds for a reply.
pub open spec fn sends_first(action: HsAction, msg1: Seq<u8>, cookie: Option<Seq<u8>>) -> bool {
    action matches HsAction::SendMsg1 { inner, wait_ms } && wait_ms == 250 && inner@.len() > 0
        && inner@[0] == 0x01 && handshake::is_msg1(inner@.skip(1), msg1, cookie)
}

/// Whether an attempt is given up with `action`: the next one starts, unless it
/// was the third, which ends the handshake.
pub open spec fn gives_up(before: HsModel, after: HsModel, action: HsAction) -> bool {
    if before.attempt < 2 {
        action is Start && after.attempt == before.attempt + 1 && after.phase == PhaseView::Starting
    } else {
        (action matches HsAction::Failed(ObfsError::HandshakeFailed(m)) && m@
            == "handshake exhausted all attempts"@) && after.phase == PhaseView::Finished
    }
}

/// Whether the handshake has ended with `action`, a failure of the socket.
pub open spec fn stops_on_io(after: HsModel, action: HsAction, kind: IoKind, text: Seq<char>) -> bool {
    (action matches HsAction::Failed(ObfsError::Io(k, m)) && k == kind && m@ == text) && after.phase
        == PhaseView::Finished
}

proof fn lemma_sends_first(
    m: HsModel,
    msg1: Seq<u8>,
    cookie: Option<Seq<u8>>,
    tries: nat,
    action: HsAction,
)
    requires
        action@ == send_msg1(m, msg1, cookie, tries).1,
    ensures
        sends_first(action, msg1, cookie),
{
    handshake::lemma_is_msg1(msg1, cookie);
    let inner = wire_dgram::inner_bytes(DgramType::Hs1, handshake::msg1_bytes(msg1, cookie));
    assert(inner.skip(1) =~= handshake::msg1_bytes(msg1, cookie));
}

/// A handshake begins with its first attempt.
pub proof fn law_begins_with_an_initiator(r: (ClientHandshake, HsAction))
    requires
        call_ensures(client_udp_handshake, (), r),
    ensures
        r.1 is Start,
        r.0@.attempt == 0,
        r.0@.phase == PhaseView::Starting,
{
}

/// When the initiator has written its first message, that message is sent, without
/// a cookie, and the seed at hand becomes the seed of the attempt. If the
/// initiator fails, the handshake fails with its reason.
pub proof fn law_attempt_opens_with_its_message(
    h: &mut ClientHandshake,
    event: HsEvent,
    seed: [u8; 32],
    action: HsAction,
)
    requires
        call_ensures(ClientHandshake::step_with_seed, (h, event, seed), action),
        old(h)@.phase == PhaseView::Starting,
    ensures
        event matches HsEvent::Msg1(msg1) ==> sends_first(action, msg1@, None) && final(h)@ == (
        HsModel {
            attempt: old(h)@.attempt,
            seed: seed@,
            phase: PhaseView::AwaitMsg2 { msg1: msg1@, cookie: None, tries: 1 },
        }),
        event matches HsEvent::InitiatorFailed(e) ==> final(h)@.phase == PhaseView::Finished && (
        action matches HsAction::Failed(ObfsError::HandshakeFailed(m)) && m@ == "initiator: "@ + e@),
        event matches HsEvent::Msg1Failed(e) ==> final(h)@.phase == PhaseView::Finished && (
        action matches HsAction::Failed(ObfsError::HandshakeFailed(m)) && m@ == "write msg1: "@ + e@),
        !(event is Msg1) && !(event is InitiatorFailed) && !(event is Msg1Failed) ==> action is Wait
            && final(h)@ == old(h)@,
{
    if let HsEvent::Msg1(msg1) = event {
        lemma_sends_first(HsModel { seed: seed@, ..old(h)@ }, msg1@, None, 1, action);
    }
}

/// The second message is taken whenever it comes while it is waited for: after
/// however many tries, and whether or not a cookie had to be shown. It is handed
/// on as it came, with the seed of the attempt for the third message.
pub proof fn law_second_message_is_taken(
    h: &mut ClientHandshake,
    event: HsEvent,
    seed: [u8; 32],
    action: HsAction,
    msg2: Seq<u8>,
)
    requires
        call_ensures(ClientHandshake::step_with_seed, (h, event, seed), action),
        old(h)@.phase is AwaitMsg2,
        event matches HsEvent::Datagram(Some(d)) && d@ == seq![0x02u8] + msg2,
    ensures
        action matches HsAction::WriteMsg3 { msg2: taken, seed: sent } && taken@ == msg2 && sent@
            == old(h)@.seed,
        final(h)@ == (HsModel { phase: PhaseView::AwaitMsg3, ..old(h)@ }),
{
    wire_dgram::law_inner_roundtrip(DgramType::Hs2, msg2);
}

/// The cookie of a challenge, its first 16 bytes, is shown with the next first
/// message, in place of any cookie that was shown before. The Noise message
/// stays the same.
pub proof fn law_challenge_is_answered_with_its_cookie(
    h: &mut ClientHandshake,
    event: HsEvent,
    seed: [u8; 32],
    action: HsAction,
    challenge: Seq<u8>,
    msg1: Seq<u8>,
    before: Option<Seq<u8>>,
    tries: nat,
)
    requires
        call_ensures(ClientHandshake::step_with_seed, (h, event, seed), action),
        old(h)@.phase == (PhaseView::AwaitMsg2 { msg1, cookie: before, tries }),
        event matches HsEvent::Datagram(Some(d)) && d@ == seq![0x04u8] + challenge,
        challenge.len() >= 16,
    ensures
        tries < 12 ==> sends_first(action, msg1, Some(challenge.take(16))) && final(h)@ == (HsModel {
            phase: PhaseView::AwaitMsg2 {
                msg1,
                cookie: Some(challenge.take(16)),
                tries: tries + 1,
            },
            ..old(h)@
        }),
        tries >= 12 ==> gives_up(old(h)@, final(h)@, action),
{
    wire_dgram::law_inner_roundtrip(DgramType::Cookie, challenge);
    assert(challenge.subrange(0, 16) =~= challenge.take(16));
    if tries < 12 {
        lemma_sends_first(old(h)@, msg1, Some(challenge.take(16)), tries + 1, action);
    }
}

/// Whether a reply to a first message is of no use: there is none, or it is
/// neither a second message nor a challenge with a whole cookie.
pub open spec fn is_useless(event: HsEvent) -> bool {
    match event {
        HsEvent::TimedOut => true,
        HsEvent::Datagram(None) => true,
        HsEvent::Datagram(Some(d)) => d@.len() == 0 || (d@[0] != 0x02 && (d@[0] != 0x04 || d@.len()
            < 17)),
        _ => false,
    }
}

/// Without a reply of use the same first message is sent again, with the cookie
/// that has been shown so far, twelve times in all; then the attempt is given up.
pub proof fn law_first_message_is_sent_twelve_times(
    h: &mut ClientHandshake,
    event: HsEvent,
    seed: [u8; 32],
    action: HsAction,
    msg1: Seq<u8>,
    cookie: Option<Seq<u8>>,
    tries: nat,
)
    requires
        call_ensures(ClientHandshake::step_with_seed, (h, event, seed), action),
        old(h)@.phase == (PhaseView::AwaitMsg2 { msg1, cookie, tries }),
        is_useless(event),
    ensures
        tries < 12 ==> sends_first(action, msg1, cookie) && final(h)@ == (HsModel {
            phase: PhaseView::AwaitMsg2 { msg1, cookie, tries: tries + 1 },
            ..old(h)@
        }),
        tries >= 12 ==> gives_up(old(h)@, final(h)@, action),
{
    if tries < 12 {
        lemma_sends_first(old(h)@, msg1, cookie, tries + 1, action);
    }
}

/// A socket that fails while the second message is waited for ends the
/// handshake; what has no meaning then changes nothing.
pub proof fn law_socket_failure_ends_the_handshake(
    h: &mut ClientHandshake,
    event: HsEvent,
    seed: [u8; 32],
    action: HsAction,
)
    requires
        call_ensures(ClientHandshake::step_with_seed, (h, event, seed), action),
        old(h)@.phase is AwaitMsg2,
    ensures
        event matches HsEvent::SendFailed(kind, e) ==> stops_on_io(final(h)@, action, kind, e@),
        event matches HsEvent::RecvFailed(kind, e) ==> stops_on_io(final(h)@, action, kind, e@),
        event is Msg1 || event is Msg3 || event is Record || event is InitiatorFailed
            || event is Msg1Failed ==> action is Wait && final(h)@ == old(h)@,
{
}

/// The third message goes out as it was written, and the channel has the client's
/// keys of the attempt's seed, the very seed that the message carries. Without
/// a third message the attempt is given up.
pub proof fn law_third_message_opens_the_channel(
    h: &mut ClientHandshake,
    event: HsEvent,
    seed: [u8; 32],
    action: HsAction,
    sent: &[u8; 32],
    client: DataChannel,
)
    requires
        call_ensures(ClientHandshake::step_with_seed, (h, event, seed), action),
        old(h)@.phase == PhaseView::AwaitMsg3,
        call_ensures(DataChannel::for_client, (sent,), client),
        sent@ == old(h)@.seed,
    ensures
        event matches HsEvent::Msg3(Some(msg3)) ==> {
            &&& action matches HsAction::SendMsg3 { inner, channel, wait_ms } && wait_ms == 2000
                && inner@ == seq![0x03u8] + msg3@ && channel@ == client@
            &&& final(h)@ == (HsModel {
                phase: PhaseView::AwaitReady {
                    inner: seq![0x03u8] + msg3@,
                    channel: client@,
                    resends: 0,
                },
                ..old(h)@
            })
        },
        event matches HsEvent::Msg3(None) ==> gives_up(old(h)@, final(h)@, action),
        !(event is Msg3) ==> action is Wait && final(h)@ == old(h)@,
{
}

/// The first record that opens completes the handshake with the channel of the
/// third message; one that does not open is passed over.
pub proof fn law_ready_record_completes(
    h: &mut ClientHandshake,
    event: HsEvent,
    seed: [u8; 32],
    action: HsAction,
    inner: Seq<u8>,
    channel: ChannelKeys,
    resends: nat,
)
    requires
        call_ensures(ClientHandshake::step_with_seed, (h, event, seed), action),
        old(h)@.phase == (PhaseView::AwaitReady { inner, channel, resends }),
    ensures
        event == HsEvent::Record(true) <==> action is Done,
        action matches HsAction::Done(c) ==> c@ == channel && final(h)@.phase == PhaseView::Finished,
        event == HsEvent::Record(false) ==> action is Wait && final(h)@ == old(h)@,
{
}

/// While the ready record does not come, the same third message is sent again,
/// three times, with a wait of 500 milliseconds each; then the attempt is given
/// up. Only the first sending has to succeed.
pub proof fn law_third_message_is_resent_three_times(
    h: &mut ClientHandshake,
    event: HsEvent,
    seed: [u8; 32],
    action: HsAction,
    inner: Seq<u8>,
    channel: ChannelKeys,
    resends: nat,
)
    requires
        call_ensures(ClientHandshake::step_with_seed, (h, event, seed), action),
        old(h)@.phase == (PhaseView::AwaitReady { inner, channel, resends }),
    ensures
        (event is TimedOut || event is RecvFailed) && resends < 3 ==> {
            &&& action matches HsAction::SendMsg3 { inner: i, channel: c, wait_ms } && i@ == inner && c@
                == channel && wait_ms == 500
            &&& final(h)@ == (HsModel {
                phase: PhaseView::AwaitReady { inner, channel, resends: resends + 1 },
                ..old(h)@
            })
        },
        (event is TimedOut || event is RecvFailed) && resends >= 3 ==> gives_up(
            old(h)@,
            final(h)@,
            action,
        ),
        event matches HsEvent::SendFailed(kind, e) ==> if resends == 0 {
            stops_on_io(final(h)@, action, kind, e@)
        } else {
            action is Wait && final(h)@ == old(h)@
        },
        event is Datagram || event is Msg1 || event is Msg3 || event is InitiatorFailed
            || event is Msg1Failed ==> action is Wait && final(h)@ == old(h)@,
{
}

/// A handshake that is over stays over.
pub proof fn law_over_is_over(
    h: &mut ClientHandshake,
    event: HsEvent,
    seed: [u8; 32],
    action: HsAction,
)
    requires
        call_ensures(ClientHandshake::step_with_seed, (h, event, seed), action),
        old(h)@.phase == PhaseView::Finished,
    ensures
        action is Wait,
        final(h)@ == old(h)@,
{
}

/// Drawing the seed makes no difference but at the start of an attempt, where it
/// is the drawn seed that the attempt has; elsewhere a step is the same
/// whatever seed is at hand.
pub proof fn law_drawn_seed_only_opens_attempts(
    h: &mut ClientHandshake,
    event: HsEvent,
    rng: &mut SmallRng,
    action: HsAction,
    other: Seq<u8>,
)
    requires
        call_ensures(ClientHandshake::step, (h, event, rng), action),
    ensures
        old(h)@.phase == PhaseView::Starting ==> (event matches HsEvent::Msg1(msg1) ==> {
            &&& sends_first(action, msg1@, None)
            &&& random::drawn(final(h)@.seed)
            &&& final(h)@.attempt == old(h)@.attempt
            &&& final(h)@.phase == (PhaseView::AwaitMsg2 { msg1: msg1@, cookie: None, tries: 1 })
        }),
        !(event is Msg1) || old(h)@.phase != PhaseView::Starting ==> (final(h)@, action@) == hs_step(
            old(h)@,
            event@,
            other,
        ),
{
    let seed = choose|seed: Seq<u8>|
        seed.len() == 32 && (event is Msg1 ==> random::drawn(seed)) && (final(h)@, action@)
            == #[trigger] hs_step(old(h)@, event@, seed);
    if old(h)@.phase == PhaseView::Starting {
        if let HsEvent::Msg1(msg1) = event {
            lemma_sends_first(HsModel { seed, ..old(h)@ }, msg1@, None, 1, action);
        }
    }
}

} // verus!
