//! The client's side of a datagram channel: its pump, and requests that are
//! sent again until their response comes.

use crate::client::{self, ClientAction, ClientModel, ClientState, ConnectionState, RequestError};
use crate::envelope::Envelope;
use crate::error::{ErrorView, IoKind, ObfsError};
use crate::udp::peer::PeerAddr;
use vstd::prelude::*;

verus! {

/// How long to wait for a response before a request is sent again.
pub const REQUEST_RETRANSMIT_MS: u64 = 300;

/// How often a request is sent again.
pub const MAX_REQUEST_RETRIES: usize = 10;

/// The address to connect to: the first that the server's name resolved to.
pub fn server_addr(resolved: &Vec<PeerAddr>) -> (r: Result<PeerAddr, ObfsError>)
    ensures
        match r {
            Ok(addr) => resolved@.len() > 0 && addr == resolved@[0],
            Err(e) => resolved@.len() == 0 && e@ == ErrorView::Io(
                IoKind::NotFound,
                "addr not resolved"@,
            ),
        },
{
    if resolved.len() == 0 {
        return Err(ObfsError::Io(IoKind::NotFound, "addr not resolved".to_owned()));
    }
    Ok(resolved[0])
}

/// What the pump of a datagram channel met.
pub enum UdpPumpEvent<B> {
    /// An envelope was queued for the server.
    Queued(Envelope<B>),
    /// The socket failed.
    RecvFailed,
    /// A datagram came that holds no envelope: foreign, replayed, forged or
    /// malformed.
    Dropped,
    /// A record came and held this envelope.
    Opened(Envelope<B>),
    /// Nobody can queue envelopes any more, and nothing can come.
    Finished,
}

/// What the pump of a datagram channel does next.
pub enum UdpPumpAction<B, W> {
    /// Seal and send this envelope; a failure to do so does not matter.
    Send(Envelope<B>),
    /// Act on a received envelope.
    Deliver(ClientAction<B, W>),
    /// Wait for the next event.
    Continue,
    /// Stop; these waiters wait in vain.
    Stop(Vec<(String, W)>),
}

/// Advances the pump of a datagram channel. Datagrams that hold no envelope do
/// not disturb it; a failing socket ends it.
pub fn udp_pump<B, W>(client: &mut ClientState<W>, event: UdpPumpEvent<B>) -> (action: UdpPumpAction<
    B,
    W,
>)
    requires
        old(client).wf(),
    ensures
        final(client).wf(),
        match event {
            UdpPumpEvent::Queued(env) => action == UdpPumpAction::<B, W>::Send(env)
                && final(client)@ == old(client)@,
            UdpPumpEvent::Dropped => action == UdpPumpAction::<B, W>::Continue && final(client)@
                == old(client)@,
            UdpPumpEvent::Opened(env) => action matches UdpPumpAction::Deliver(a) && (
                final(client)@,
                a,
            ) == client::client_step(old(client)@, env),
            _ => action matches UdpPumpAction::Stop(drained) && client::drains(
                drained@,
                old(client)@.pending,
            ) && final(client)@ == (ClientModel {
                pending: Map::<Seq<char>, W>::empty(),
                state: ConnectionState::Down,
            }),
        },
{
    match event {
        UdpPumpEvent::Queued(env) => UdpPumpAction::Send(env),
        UdpPumpEvent::Dropped => UdpPumpAction::Continue,
        UdpPumpEvent::Opened(env) => UdpPumpAction::Deliver(client.on_envelope(env)),
        UdpPumpEvent::RecvFailed => UdpPumpAction::Stop(client.shut_down()),
        UdpPumpEvent::Finished => UdpPumpAction::Stop(client.shut_down()),
    }
}

/// What the pump is told of a datagram that holds this envelope, or none.
pub fn datagram_event<B>(env: Option<Envelope<B>>) -> (event: UdpPumpEvent<B>)
    ensures
        event == match env {
            Some(e) => UdpPumpEvent::Opened(e),
            None => UdpPumpEvent::Dropped,
        },
{
    match env {
        Some(e) => UdpPumpEvent::Opened(e),
        None => UdpPumpEvent::Dropped,
    }
}

/// A request that is being sent, and sent again.
pub struct RequestInFlight {
    id: String,
    retries: usize,
}

/// A [`RequestInFlight`] as a value.
#[verifier::ext_equal]
pub struct InFlight {
    /// The id of the request.
    pub id: Seq<char>,
    /// How often it has been sent again.
    pub retries: nat,
}

impl View for RequestInFlight {
    type V = InFlight;

    closed spec fn view(&self) -> InFlight {
        InFlight { id: self.id@, retries: self.retries as nat }
    }
}

/// What came of sending a request.
pub enum RequestEvent {
    /// It could not be queued: the pump is gone.
    SendFailed,
    /// Its response came.
    Answered,
    /// Its waiter was dropped: the pump has stopped.
    PumpGone,
    /// No response came in time.
    TimedOut,
}

/// What to do with a request next.
#[derive(Debug, Clone, Copy, PartialEq, Eq, Structural)]
pub enum RequestAction {
    /// Register a new waiter and send the request again.
    SendAgain,
    /// Return the response.
    Return,
    /// Return this error.
    Fail(RequestError),
}

/// One step of a request whose waiter is in `pending`.
pub open spec fn request_step<W>(
    r: InFlight,
    pending: Map<Seq<char>, W>,
    event: RequestEvent,
) -> (InFlight, Map<Seq<char>, W>, RequestAction) {
    match event {
        RequestEvent::SendFailed => (
            r,
            pending.remove(r.id),
            RequestAction::Fail(RequestError::Disconnected),
        ),
        RequestEvent::Answered => (r, pending, RequestAction::Return),
        RequestEvent::PumpGone => (r, pending, RequestAction::Fail(RequestError::Disconnected)),
        RequestEvent::TimedOut => if r.retries < MAX_REQUEST_RETRIES {
            (
                InFlight { retries: r.retries + 1, ..r },
                pending.remove(r.id),
                RequestAction::SendAgain,
            )
        } else {
            (r, pending.remove(r.id), RequestAction::Fail(RequestError::Timeout))
        },
    }
}

impl RequestInFlight {
    /// A request with the given id, to be sent for the first time.
    pub fn new(id: String) -> (r: Self)
        ensures
            r@ == (InFlight { id: id@, retries: 0 }),
    {
        RequestInFlight { id, retries: 0 }
    }

    /// Registers `waiter` for the response, before the request is sent.
    pub fn register<W>(&self, client: &mut ClientState<W>, waiter: W)
        requires
            old(client).wf(),
        ensures
            final(client).wf(),
            final(client)@ == (ClientModel {
                pending: old(client)@.pending.insert(self@.id, waiter),
                ..old(client)@
            }),
    {
        let _replaced: Option<W> = client.begin_request(self.id.clone(), waiter);
    }

    /// Decides what to do when a try has ended: after a timeout the request is
    /// sent again until its retries are used up. A waiter that is no longer of
    /// use is taken back.
    pub fn step<W>(&mut self, client: &mut ClientState<W>, event: RequestEvent) -> (action: RequestAction)
        requires
            old(client).wf(),
        ensures
            final(client).wf(),
            final(client)@.state == old(client)@.state,
            (final(self)@, final(client)@.pending, action) == request_step(
                old(self)@,
                old(client)@.pending,
                event,
            ),
    {
        match event {
            RequestEvent::SendFailed => {
                let _waiter: Option<W> = client.forget_request(&self.id);
                RequestAction::Fail(RequestError::Disconnected)
            },
            RequestEvent::Answered => RequestAction::Return,
            RequestEvent::PumpGone => RequestAction::Fail(RequestError::Disconnected),
            RequestEvent::TimedOut => {
                let _waiter: Option<W> = client.forget_request(&self.id);
                if self.retries < MAX_REQUEST_RETRIES {
                    self.retries = self.retries + 1;
                    RequestAction::SendAgain
                } else {
                    RequestAction::Fail(RequestError::Timeout)
                }
            },
        }
    }
}

/// A request is sent at most eleven times: every repetition uses up one of ten
/// retries.
pub proof fn law_retransmission_bounded<W>(
    r: InFlight,
    pending: Map<Seq<char>, W>,
    event: RequestEvent,
)
    requires
        r.retries <= MAX_REQUEST_RETRIES,
    ensures
        ({
            let (after, _, action) = request_step(r, pending, event);
            &&& after.retries <= MAX_REQUEST_RETRIES
            &&& after.id == r.id
            &&& action == RequestAction::SendAgain ==> after.retries == r.retries + 1
            &&& action == RequestAction::Fail(RequestError::Timeout) ==> r.retries
                == MAX_REQUEST_RETRIES
        }),
{
}

/// A request that is given up leaves no waiter of its own behind, and never
/// touches the waiters of other requests.
pub proof fn law_request_cleans_up<W>(r: InFlight, pending: Map<Seq<char>, W>, event: RequestEvent)
    ensures
        ({
            let (_, after, _) = request_step(r, pending, event);
            &&& event is SendFailed || event is TimedOut ==> !after.dom().contains(r.id)
            &&& forall|id: Seq<char>|
                id != r.id ==> (#[trigger] after.dom().contains(id) <==> pending.dom().contains(id))
                    && after[id] == pending[id]
        }),
{
}

/// A datagram pump sends what is queued, delivers what comes as the client itself
/// would take it, passes over what holds no envelope, and stops only when the
/// socket fails or nothing is left to do.
pub proof fn law_datagram_pump_works_until_the_socket_fails<B, W>(
    c: &mut ClientState<W>,
    event: UdpPumpEvent<B>,
    action: UdpPumpAction<B, W>,
    alone: &mut ClientState<W>,
    env: Envelope<B>,
    taken: ClientAction<B, W>,
)
    requires
        call_ensures(udp_pump::<B, W>, (c, event), action),
        call_ensures(ClientState::<W>::on_envelope::<B>, (alone, env), taken),
        old(alone)@ == old(c)@,
    ensures
        event matches UdpPumpEvent::Queued(e) ==> action == UdpPumpAction::<B, W>::Send(e)
            && final(c)@ == old(c)@,
        event is Dropped ==> action is Continue && final(c)@ == old(c)@,
        event == UdpPumpEvent::Opened(env) ==> action == UdpPumpAction::Deliver(taken) && final(c)@
            == final(alone)@,
        event is RecvFailed || event is Finished ==> {
            &&& action matches UdpPumpAction::Stop(drained) && client::hands_out(
                drained@,
                old(c)@.pending,
            )
            &&& final(c)@.state == ConnectionState::Down
            &&& forall|id: Seq<char>| !(#[trigger] final(c)@.pending.dom().contains(id))
        },
{
}

/// A datagram is told to the pump as what it holds.
pub proof fn law_datagram_is_told_as_it_is<B>(env: Option<Envelope<B>>, event: UdpPumpEvent<B>)
    requires
        call_ensures(datagram_event::<B>, (env,), event),
    ensures
        env matches Some(e) ==> event == UdpPumpEvent::Opened(e),
        env is None <==> event is Dropped,
{
}

/// The first address of a name is the one that is used; a name without addresses is
/// not found.
pub proof fn law_first_address_is_used(
    resolved: &Vec<PeerAddr>,
    r: Result<PeerAddr, ObfsError>,
)
    requires
        call_ensures(server_addr, (resolved,), r),
    ensures
        resolved@.len() > 0 ==> (r matches Ok(addr) && addr == resolved@[0]),
        resolved@.len() == 0 ==> (r matches Err(ObfsError::Io(IoKind::NotFound, m)) && m@
            == "addr not resolved"@),
{
}

/// A request is new at first, and registers its waiter under its own id.
pub proof fn law_request_registers_its_waiter<W>(
    id: String,
    r: RequestInFlight,
    c: &mut ClientState<W>,
    waiter: W,
)
    requires
        call_ensures(RequestInFlight::new, (id,), r),
        call_ensures(RequestInFlight::register::<W>, (&r, c, waiter), ()),
    ensures
        r@.id == id@,
        r@.retries == 0,
        final(c)@.pending == old(c)@.pending.insert(id@, waiter),
        final(c)@.state == old(c)@.state,
{
}

/// A request ends with its response, is sent again after each of the first ten
/// timeouts, and fails with the eleventh. The end of the pump fails it at once.
/// What it leaves in the table are the waiters of other requests, as they were.
pub proof fn law_request_is_sent_until_answered<W>(
    r: &mut RequestInFlight,
    c: &mut ClientState<W>,
    event: RequestEvent,
    action: RequestAction,
)
    requires
        call_ensures(RequestInFlight::step::<W>, (r, c, event), action),
    ensures
        final(r)@.id == old(r)@.id,
        final(c)@.state == old(c)@.state,
        event is Answered <==> action == RequestAction::Return,
        event is SendFailed || event is PumpGone <==> action == RequestAction::Fail(
            RequestError::Disconnected,
        ),
        event is TimedOut ==> if old(r)@.retries < 10 {
            action == RequestAction::SendAgain && final(r)@.retries == old(r)@.retries + 1
        } else {
            action == RequestAction::Fail(RequestError::Timeout)
        },
        !(event is TimedOut) ==> final(r)@.retries == old(r)@.retries,
        event is TimedOut || event is SendFailed ==> final(c)@.pending == old(c)@.pending.remove(
            old(r)@.id,
        ),
        event is Answered || event is PumpGone ==> final(c)@.pending == old(c)@.pending,
{
}

/// A request that is never answered is given up after eleven waits of 300
/// milliseconds.
pub proof fn law_request_waits_are_bounded()
    ensures
        (MAX_REQUEST_RETRIES + 1) * REQUEST_RETRANSMIT_MS == 11 * 300,
        MAX_REQUEST_RETRIES == 10,
{
}

} // verus!
