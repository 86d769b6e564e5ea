//! The client's side of a connection: requests that wait for their response,
//! and what each received envelope leads to.
//!
//! Whoever waits for a response is represented by a waiter of type `W`.

use crate::envelope::{Envelope, Event, Response};
use crate::table::Table;
use vstd::prelude::*;

verus! {

/// Whether a connection is usable.
#[derive(Debug, Clone, Copy, PartialEq, Eq, Structural)]
pub enum ConnectionState {
    /// The connection is up.
    Connected,
    /// The connection has ended.
    Down,
}

/// Why a request was not answered.
#[derive(Debug, Clone, Copy, PartialEq, Eq, Structural)]
pub enum RequestError {
    /// The connection ended before the response came.
    Disconnected,
    /// No response came in time.
    Timeout,
}

/// The state that a transport and its pump share: the requests that wait for
/// a response, by id, and whether the connection is up.
pub struct ClientState<W> {
    pending: Table<String, W>,
    state: ConnectionState,
}

/// A [`ClientState`] as a value.
#[verifier::ext_equal]
pub struct ClientModel<W> {
    /// The waiter of each pending request, by request id.
    pub pending: Map<Seq<char>, W>,
    /// Whether the connection is up.
    pub state: ConnectionState,
}

impl<W> View for ClientState<W> {
    type V = ClientModel<W>;

    closed spec fn view(&self) -> ClientModel<W> {
        ClientModel { pending: self.pending@, state: self.state }
    }
}

/// What a received envelope leads to on a client.
pub enum ClientAction<B, W> {
    /// Hand the response to the waiter of its request.
    Resolve(W, Response<B>),
    /// Hand the event to all subscribers.
    Broadcast(Event<B>),
    /// Send this envelope; a failure to send it does not matter.
    Send(Envelope<B>),
    /// Nothing.
    Ignore,
}

/// What the envelope `env` leads to in the state `m`: a response leaves the
/// table together with its waiter, everything else leaves the table alone.
pub open spec fn client_step<B, W>(m: ClientModel<W>, env: Envelope<B>) -> (
    ClientModel<W>,
    ClientAction<B, W>,
) {
    match env {
        Envelope::Response(resp) => if m.pending.dom().contains(resp.id@) {
            (
                ClientModel { pending: m.pending.remove(resp.id@), ..m },
                ClientAction::Resolve(m.pending[resp.id@], resp),
            )
        } else {
            (m, ClientAction::Ignore)
        },
        Envelope::Event(ev) => (m, ClientAction::Broadcast(ev)),
        Envelope::Ping => (m, ClientAction::Send(Envelope::Pong)),
        _ => (m, ClientAction::Ignore),
    }
}

/// The waiters in `drained` are exactly those of `pending`.
pub open spec fn drains<W>(drained: Seq<(String, W)>, pending: Map<Seq<char>, W>) -> bool {
    &&& drained.len() == pending.len()
    &&& forall|i: int|
        0 <= i < drained.len() ==> pending.dom().contains((#[trigger] drained[i]).0@)
            && pending[drained[i].0@] == drained[i].1
    &&& forall|id: Seq<char>| #[trigger]
        pending.dom().contains(id) ==> exists|i: int|
            0 <= i < drained.len() && (#[trigger] drained[i]).0@ == id
}

impl<W> ClientState<W> {
    /// The table of waiters is well formed.
    pub closed spec fn wf(&self) -> bool {
        self.pending.wf()
    }

    /// A connection that is up, with no request pending.
    pub fn new() -> (c: Self)
        ensures
            c.wf(),
            c@ == (ClientModel {
                pending: Map::<Seq<char>, W>::empty(),
                state: ConnectionState::Connected,
            }),
    {
        ClientState { pending: Table::new(), state: ConnectionState::Connected }
    }

    /// Whether the connection is up.
    pub fn state(&self) -> (s: ConnectionState)
        ensures
            s == self@.state,
    {
        self.state
    }

    /// Registers `waiter` for the response to the request `id`, before the
    /// request is sent. Returns the waiter that the id had before, if any.
    pub fn begin_request(&mut self, id: String, waiter: W) -> (before: Option<W>)
        requires
            old(self).wf(),
        ensures
            final(self).wf(),
            final(self)@ == (ClientModel {
                pending: old(self)@.pending.insert(id@, waiter),
                ..old(self)@
            }),
            before == if old(self)@.pending.dom().contains(id@) {
                Some(old(self)@.pending[id@])
            } else {
                None
            },
    {
        self.pending.insert(id, waiter)
    }

    /// Takes back the waiter of the request `id`, which could not be sent or
    /// whose response did not come in time.
    pub fn forget_request(&mut self, id: &String) -> (waiter: Option<W>)
        requires
            old(self).wf(),
        ensures
            final(self).wf(),
            final(self)@ == (ClientModel {
                pending: old(self)@.pending.remove(id@),
                ..old(self)@
            }),
            waiter == if old(self)@.pending.dom().contains(id@) {
                Some(old(self)@.pending[id@])
            } else {
                None
            },
    {
        self.pending.remove(id)
    }

    /// Decides what a received envelope leads to.
    pub fn on_envelope<B>(&mut self, env: Envelope<B>) -> (action: ClientAction<B, W>)
        requires
            old(self).wf(),
        ensures
            final(self).wf(),
            (final(self)@, action) == client_step(old(self)@, env),
    {
        match env {
            Envelope::Response(resp) => match self.pending.remove(&resp.id) {
                Some(waiter) => ClientAction::Resolve(waiter, resp),
                None => {
                    assert(self@.pending =~= old(self)@.pending);
                    ClientAction::Ignore
                },
            },
            Envelope::Event(ev) => ClientAction::Broadcast(ev),
            Envelope::Ping => ClientAction::Send(Envelope::Pong),
            _ => ClientAction::Ignore,
        }
    }

    /// Ends the connection: it is down, and every waiter is handed out, to be
    /// told that it waits in vain.
    pub fn shut_down(&mut self) -> (drained: Vec<(String, W)>)
        requires
            old(self).wf(),
        ensures
            final(self).wf(),
            final(self)@ == (ClientModel {
                pending: Map::<Seq<char>, W>::empty(),
                state: ConnectionState::Down,
            }),
            drains(drained@, old(self)@.pending),
    {
        self.state = ConnectionState::Down;
        self.pending.drain()
    }
}

/// What the pump of a stream connection met.
pub enum PumpEvent<B> {
    /// An envelope was queued for the server.
    Queued(Envelope<B>),
    /// A queued envelope could not be written.
    WriteFailed,
    /// A frame came and held this envelope.
    Frame(Envelope<B>),
    /// Reading, decrypting or parsing failed, or the stream ended.
    ReadFailed,
    /// Nobody can queue envelopes any more, and nothing can come.
    Finished,
}

/// What the pump of a stream connection does next.
pub enum PumpAction<B, W> {
    /// Write this envelope; report a failure.
    Write(Envelope<B>),
    /// Act on a received envelope.
    Deliver(ClientAction<B, W>),
    /// Stop; these waiters wait in vain.
    Stop(Vec<(String, W)>),
}

/// Advances the pump of a stream connection. Whatever fails ends it: the
/// connection is then down and all its waiters are handed out.
pub fn pump<B, W>(client: &mut ClientState<W>, event: PumpEvent<B>) -> (action: PumpAction<B, W>)
    requires
        old(client).wf(),
    ensures
        final(client).wf(),
        match event {
            PumpEvent::Queued(env) => action == PumpAction::<B, W>::Write(env) && final(client)@
                == old(client)@,
            PumpEvent::Frame(env) => action matches PumpAction::Deliver(a) && (final(client)@, a)
                == client_step(old(client)@, env),
            _ => action matches PumpAction::Stop(drained) && drains(
                drained@,
                old(client)@.pending,
            ) && final(client)@ == (ClientModel {
                pending: Map::<Seq<char>, W>::empty(),
                state: ConnectionState::Down,
            }),
        },
{
    match event {
        PumpEvent::Queued(env) => PumpAction::Write(env),
        PumpEvent::Frame(env) => PumpAction::Deliver(client.on_envelope(env)),
        PumpEvent::WriteFailed => PumpAction::Stop(client.shut_down()),
        PumpEvent::ReadFailed => PumpAction::Stop(client.shut_down()),
        PumpEvent::Finished => PumpAction::Stop(client.shut_down()),
    }
}

/// What a subscriber's receiver yields.
pub enum StreamInput<B> {
    /// An event.
    Event(Event<B>),
    /// Events were lost because the subscriber was too slow.
    Lagged,
    /// The connection is gone.
    Closed,
}

/// What a subscriber's stream does next.
pub enum StreamStep<B> {
    /// Yield this event.
    Yield(Event<B>),
    /// Receive again.
    Skip,
    /// Yield this error and end.
    End(RequestError),
}

/// Decides what a subscriber's stream yields: every event; lost events do not
/// end it, the loss of the connection does.
pub fn stream_step<B>(input: StreamInput<B>) -> (step: StreamStep<B>)
    ensures
        step == match input {
            StreamInput::Event(ev) => StreamStep::Yield(ev),
            StreamInput::Lagged => StreamStep::Skip,
            StreamInput::Closed => StreamStep::End(RequestError::Disconnected),
        },
{
    match input {
        StreamInput::Event(ev) => StreamStep::Yield(ev),
        StreamInput::Lagged => StreamStep::Skip,
        StreamInput::Closed => StreamStep::End(RequestError::Disconnected),
    }
}

/// The envelope that subscribes to `topic` with the given capability.
pub fn subscribe_envelope<B>(topic: String, capability: Option<String>) -> (env: Envelope<B>)
    ensures
        env == (Envelope::<B>::Subscribe { topic, filter: None, capability }),
{
    Envelope::Subscribe { topic, filter: None, capability }
}

/// A response reaches the waiter that was registered for its id, and leaves
/// all other waiters where they are.
pub proof fn law_response_reaches_its_waiter<B, W>(m: ClientModel<W>, waiter: W, resp: Response<B>)
    ensures
        ({
            let asked = ClientModel { pending: m.pending.insert(resp.id@, waiter), ..m };
            let (after, action) = client_step(asked, Envelope::Response(resp));
            &&& action == ClientAction::Resolve(waiter, resp)
            &&& after.pending == m.pending.remove(resp.id@)
        }),
{
    let asked = ClientModel { pending: m.pending.insert(resp.id@, waiter), ..m };
    assert(asked.pending.remove(resp.id@) =~= m.pending.remove(resp.id@));
}

/// No waiter is lost: after any envelope it still waits, unless it was handed
/// the response to its own request.
pub proof fn law_no_waiter_is_lost<B, W>(m: ClientModel<W>, env: Envelope<B>, id: Seq<char>)
    requires
        m.pending.dom().contains(id),
    ensures
        ({
            let (after, action) = client_step(m, env);
            ||| after.pending.dom().contains(id) && after.pending[id] == m.pending[id]
            ||| action matches ClientAction::Resolve(waiter, resp) && resp.id@ == id && waiter
                == m.pending[id]
        }),
{
}

/// A second response with the same id resolves nothing.
pub proof fn law_response_resolves_once<B, W>(m: ClientModel<W>, first: Response<B>, second: Response<
    B,
>)
    requires
        first.id@ == second.id@,
    ensures
        ({
            let after = client_step::<B, W>(m, Envelope::Response(first)).0;
            client_step(after, Envelope::Response(second)) == (after, ClientAction::<B, W>::Ignore)
        }),
{
}

/// A response goes to whoever waits for its id, who then waits no longer; nobody
/// else is touched. Without a waiter it is ignored. Events go to the
/// subscribers, probes are answered, and nothing else is acted on.
pub proof fn law_envelope_reaches_its_receiver<B, W>(
    c: &mut ClientState<W>,
    env: Envelope<B>,
    action: ClientAction<B, W>,
)
    requires
        call_ensures(ClientState::<W>::on_envelope::<B>, (c, env), action),
    ensures
        final(c)@.state == old(c)@.state,
        env matches Envelope::Response(resp) ==> if old(c)@.pending.dom().contains(resp.id@) {
            &&& action == ClientAction::<B, W>::Resolve(old(c)@.pending[resp.id@], resp)
            &&& final(c)@.pending == old(c)@.pending.remove(resp.id@)
        } else {
            action is Ignore && final(c)@.pending == old(c)@.pending
        },
        env matches Envelope::Event(ev) ==> action == ClientAction::<B, W>::Broadcast(ev),
        env == Envelope::<B>::Ping ==> action == ClientAction::<B, W>::Send(Envelope::Pong),
        !(env is Response) ==> final(c)@.pending == old(c)@.pending,
        action is Ignore <==> match env {
            Envelope::Response(resp) => !old(c)@.pending.dom().contains(resp.id@),
            Envelope::Event(_) => false,
            Envelope::Ping => false,
            _ => true,
        },
{
}

/// A request is answered to the waiter that was registered for it: whoever
/// registers an id gets the response with that id, unless the waiter is taken
/// back first.
pub proof fn law_registered_waiter_is_answered<B, W>(
    asking: &mut ClientState<W>,
    id: String,
    waiter: W,
    before: Option<W>,
    answered: &mut ClientState<W>,
    resp: Response<B>,
    action: ClientAction<B, W>,
    forgetting: &mut ClientState<W>,
    back: Option<W>,
)
    requires
        call_ensures(ClientState::<W>::begin_request, (asking, id, waiter), before),
        call_ensures(
            ClientState::<W>::on_envelope::<B>,
            (answered, Envelope::Response(resp)),
            action,
        ),
        call_ensures(ClientState::<W>::forget_request, (forgetting, &id), back),
        old(answered)@ == final(asking)@,
        old(forgetting)@ == final(asking)@,
        resp.id@ == id@,
    ensures
        action == ClientAction::Resolve(waiter, resp),
        back == Some(waiter),
        final(answered)@.pending == old(asking)@.pending.remove(id@),
        final(forgetting)@.pending == old(asking)@.pending.remove(id@),
        final(asking)@.state == old(asking)@.state,
        final(forgetting)@.state == old(asking)@.state,
        before is Some <==> old(asking)@.pending.dom().contains(id@),
        before is Some ==> before->0 == old(asking)@.pending[id@],
{
    assert(final(asking)@.pending.remove(id@) =~= old(asking)@.pending.remove(id@));
}

/// A new connection is up and nobody waits on it.
pub proof fn law_new_connection_is_up<W>(c: ClientState<W>, state: ConnectionState)
    requires
        call_ensures(ClientState::<W>::new, (), c),
        call_ensures(ClientState::<W>::state, (&c,), state),
    ensures
        state == ConnectionState::Connected,
        c@.state == state,
        forall|id: Seq<char>| !(#[trigger] c@.pending.dom().contains(id)),
{
}

/// Whether `drained` holds each waiter of `pending` once, with its id.
pub open spec fn hands_out<W>(drained: Seq<(String, W)>, pending: Map<Seq<char>, W>) -> bool {
    &&& drained.len() == pending.len()
    &&& forall|i: int|
        0 <= i < drained.len() ==> pending.dom().contains((#[trigger] drained[i]).0@)
            && drained[i].1 == pending[drained[i].0@]
    &&& forall|id: Seq<char>| #[trigger]
        pending.dom().contains(id) ==> exists|i: int|
            0 <= i < drained.len() && (#[trigger] drained[i]).0@ == id
}

/// A pump writes what is queued, delivers what comes as the client itself would
/// take it, and stops at whatever fails: then the connection is down, and every
/// waiter is handed out.
pub proof fn law_pump_works_until_it_fails<B, W>(
    c: &mut ClientState<W>,
    event: PumpEvent<B>,
    action: PumpAction<B, W>,
    alone: &mut ClientState<W>,
    env: Envelope<B>,
    taken: ClientAction<B, W>,
)
    requires
        call_ensures(pump::<B, W>, (c, event), action),
        call_ensures(ClientState::<W>::on_envelope::<B>, (alone, env), taken),
        old(alone)@ == old(c)@,
    ensures
        event matches PumpEvent::Queued(e) ==> action == PumpAction::<B, W>::Write(e) && final(c)@
            == old(c)@,
        event == PumpEvent::Frame(env) ==> action == PumpAction::Deliver(taken) && final(c)@
            == final(alone)@,
        event is WriteFailed || event is ReadFailed || event is Finished ==> {
            &&& action matches PumpAction::Stop(drained) && hands_out(drained@, old(c)@.pending)
            &&& final(c)@.state == ConnectionState::Down
            &&& forall|id: Seq<char>| !(#[trigger] final(c)@.pending.dom().contains(id))
        },
{
}

/// Shutting down does by itself what a failure of the pump does.
pub proof fn law_shut_down_hands_out_all<W>(c: &mut ClientState<W>, drained: Vec<(String, W)>)
    requires
        call_ensures(ClientState::<W>::shut_down, (c,), drained),
    ensures
        hands_out(drained@, old(c)@.pending),
        final(c)@.state == ConnectionState::Down,
        forall|id: Seq<char>| !(#[trigger] final(c)@.pending.dom().contains(id)),
{
}

/// A subscriber sees every event as it is; lost events do not end its stream, the
/// end of the connection does.
pub proof fn law_subscriber_sees_every_event<B>(input: StreamInput<B>, step: StreamStep<B>)
    requires
        call_ensures(stream_step::<B>, (input,), step),
    ensures
        input matches StreamInput::Event(ev) ==> step == StreamStep::Yield(ev),
        input is Lagged ==> step is Skip,
        input is Closed <==> step is End,
        step matches StreamStep::End(e) ==> e == RequestError::Disconnected,
{
}

/// A client subscribes to the topic that it names, with the token that it has, and
/// without a filter.
pub proof fn law_subscription_names_topic_and_token<B>(
    topic: String,
    capability: Option<String>,
    env: Envelope<B>,
)
    requires
        call_ensures(subscribe_envelope::<B>, (topic, capability), env),
    ensures
        env matches Envelope::Subscribe { topic: t, filter, capability: c } && t == topic && c
            == capability && filter is None,
{
}

} // verus!
