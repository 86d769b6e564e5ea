//! The server's side of a connection: what each received frame leads to, and
//! when the connection ends.

use crate::envelope::{Diagnostic, DiagnosticCode, Envelope, Event, Request};
use vstd::prelude::*;

verus! {

/// What a received envelope asks of a server.
pub enum Inbound<B> {
    /// Send this envelope back.
    Reply(Envelope<B>),
    /// Hand the request to the service and send its response back.
    Dispatch(Request<B>),
    /// Ask the service whether `capability` authorises a subscription to
    /// `topic`, then go on with [`handle_subscribe`].
    Authorise {
        /// The topic.
        topic: String,
        /// The bearer token that came with the request.
        capability: Option<String>,
    },
    /// Nothing: a server does not act on such an envelope.
    Ignore,
}

/// What the envelope `env` asks of a server.
pub open spec fn inbound_of<B>(env: Envelope<B>) -> Inbound<B> {
    match env {
        Envelope::Ping => Inbound::Reply(Envelope::Pong),
        Envelope::Request(req) => Inbound::Dispatch(req),
        Envelope::Subscribe { topic, capability, .. } => Inbound::Authorise { topic, capability },
        _ => Inbound::Ignore,
    }
}

/// Decides what a received envelope asks of a server.
pub fn inbound<B>(env: Envelope<B>) -> (step: Inbound<B>)
    ensures
        step == inbound_of(env),
{
    match env {
        Envelope::Ping => Inbound::Reply(Envelope::Pong),
        Envelope::Request(req) => Inbound::Dispatch(req),
        Envelope::Subscribe { topic, capability, .. } => Inbound::Authorise { topic, capability },
        _ => Inbound::Ignore,
    }
}

/// What becomes of a subscription.
pub enum SubscribeStep<B> {
    /// Forward the events of this topic.
    Forward(String),
    /// Send this refusal, and forward nothing.
    Refuse(Envelope<B>),
    /// Do nothing.
    Nothing,
}

/// Whether `step` refuses a subscription to `topic` for the given reason.
pub open spec fn refuses<B>(
    step: SubscribeStep<B>,
    topic: String,
    code: DiagnosticCode,
    message: Seq<char>,
) -> bool {
    step matches SubscribeStep::Refuse(Envelope::SubscribeError { topic: t, error }) && t == topic
        && error.code == code && error.message@ == message
}

fn refuse<B>(topic: String, code: DiagnosticCode, message: String) -> (step: SubscribeStep<B>)
    ensures
        refuses(step, topic, code, message@),
{
    SubscribeStep::Refuse(Envelope::SubscribeError { topic, error: Diagnostic { code, message } })
}

/// Decides on a subscription over a stream. `verdict` is the service's answer
/// to the subscriber's capability; `has_source` tells whether the topic has an
/// event source. A subscription that is not authorised is refused, and so is
/// one that nothing can serve.
pub fn handle_subscribe<B>(topic: String, verdict: Result<(), String>, has_source: bool) -> (step:
    SubscribeStep<B>)
    ensures
        match verdict {
            Err(reason) => refuses(step, topic, DiagnosticCode::Forbidden, reason@),
            Ok(()) => if has_source {
                step == SubscribeStep::<B>::Forward(topic)
            } else {
                refuses(
                    step,
                    topic,
                    DiagnosticCode::MethodNotFound,
                    "no event source for topic"@,
                )
            },
        },
{
    match verdict {
        Err(reason) => refuse(topic, DiagnosticCode::Forbidden, reason),
        Ok(()) => if has_source {
            SubscribeStep::Forward(topic)
        } else {
            refuse(topic, DiagnosticCode::MethodNotFound, "no event source for topic".to_owned())
        },
    }
}

/// Decides on a subscription over datagrams: as [`handle_subscribe`], but a
/// topic without an event source is passed over in silence.
pub fn handle_subscribe_dgram<B>(topic: String, verdict: Result<(), String>, has_source: bool) -> (step:
    SubscribeStep<B>)
    ensures
        match verdict {
            Err(reason) => refuses(step, topic, DiagnosticCode::Forbidden, reason@),
            Ok(()) => step == if has_source {
                SubscribeStep::<B>::Forward(topic)
            } else {
                SubscribeStep::<B>::Nothing
            },
        },
{
    match verdict {
        Err(reason) => refuse(topic, DiagnosticCode::Forbidden, reason),
        Ok(()) => if has_source {
            SubscribeStep::Forward(topic)
        } else {
            SubscribeStep::Nothing
        },
    }
}

/// What a subscription's task received from its event source.
pub enum Received<B> {
    /// An event.
    Event(Event<B>),
    /// Events were lost because the task was too slow.
    Lagged,
    /// The source is gone.
    Closed,
}

/// What a subscription's task does next.
pub enum ForwardStep<B> {
    /// Send this envelope to the subscriber; stop if it is gone.
    Send(Envelope<B>),
    /// Receive the next event.
    Skip,
    /// Stop.
    Stop,
}

/// Decides what to do with what came from an event source: events of the
/// subscribed topic are forwarded, others are passed over, and lost events do
/// not end the subscription.
pub fn forward_step<B>(topic: &String, received: Received<B>) -> (step: ForwardStep<B>)
    ensures
        match received {
            Received::Event(ev) => if ev.topic@ == topic@ {
                step == ForwardStep::Send(Envelope::Event(ev))
            } else {
                step == ForwardStep::<B>::Skip
            },
            Received::Lagged => step == ForwardStep::<B>::Skip,
            Received::Closed => step == ForwardStep::<B>::Stop,
        },
{
    match received {
        Received::Event(ev) => if ev.topic == *topic {
            ForwardStep::Send(Envelope::Event(ev))
        } else {
            ForwardStep::Skip
        },
        Received::Lagged => ForwardStep::Skip,
        Received::Closed => ForwardStep::Stop,
    }
}

/// The state of an accepted connection.
#[derive(Debug, Clone, Copy, PartialEq, Eq, Structural)]
pub enum ConnState {
    /// The handshake is under way.
    Handshaking,
    /// The peer is admitted; frames flow.
    Open,
    /// The connection has ended.
    Closed,
}

/// What happened on a connection.
pub enum ConnEvent<B> {
    /// The handshake failed.
    HandshakeFailed,
    /// The handshake completed; tells whether the transport gate admits the peer.
    HandshakeDone(bool),
    /// An envelope is queued for the peer.
    Queued(Envelope<B>),
    /// A frame came and held this envelope.
    Frame(Envelope<B>),
    /// Reading failed or the stream ended.
    ReadFailed,
    /// Writing failed.
    WriteFailed,
}

/// What to do on a connection.
pub enum ConnAction<B> {
    /// Write this envelope.
    Write(Envelope<B>),
    /// Act on what a received envelope asks.
    Serve(Inbound<B>),
    /// Wait for the next frame or queued envelope.
    Continue,
    /// Close the connection.
    Close,
}

/// One step of a connection.
pub open spec fn conn_step<B>(state: ConnState, event: ConnEvent<B>) -> (ConnState, ConnAction<B>) {
    match (state, event) {
        (ConnState::Handshaking, ConnEvent::HandshakeDone(true)) => (
            ConnState::Open,
            ConnAction::Continue,
        ),
        (ConnState::Open, ConnEvent::Queued(env)) => (ConnState::Open, ConnAction::Write(env)),
        (ConnState::Open, ConnEvent::Frame(env)) => (
            ConnState::Open,
            match inbound_of(env) {
                Inbound::Reply(reply) => ConnAction::Write(reply),
                Inbound::Ignore => ConnAction::Continue,
                other => ConnAction::Serve(other),
            },
        ),
        _ => (ConnState::Closed, ConnAction::Close),
    }
}

/// Advances a connection: it opens when the handshake is done and the transport gate
/// admits the peer, serves frames while it is open, and ends on the first
/// failure.
pub fn handle_connection<B>(state: &mut ConnState, event: ConnEvent<B>) -> (action: ConnAction<B>)
    ensures
        (*final(state), action) == conn_step(*old(state), event),
{
    match (*state, event) {
        (ConnState::Handshaking, ConnEvent::HandshakeDone(true)) => {
            *state = ConnState::Open;
            ConnAction::Continue
        },
        (ConnState::Open, ConnEvent::Queued(env)) => ConnAction::Write(env),
        (ConnState::Open, ConnEvent::Frame(env)) => match inbound(env) {
            Inbound::Reply(reply) => ConnAction::Write(reply),
            Inbound::Ignore => ConnAction::Continue,
            other => ConnAction::Serve(other),
        },
        _ => {
            *state = ConnState::Closed;
            ConnAction::Close
        },
    }
}

/// Nothing is written to a peer or served to it before its handshake is done
/// and the transport gate has admitted it.
pub proof fn law_nothing_before_admission<B>(state: ConnState, event: ConnEvent<B>)
    ensures
        conn_step(state, event).1 is Write || conn_step(state, event).1 is Serve ==> state
            == ConnState::Open,
        state == ConnState::Handshaking && conn_step(state, event).0 == ConnState::Open ==> event
            == ConnEvent::<B>::HandshakeDone(true),
{
}

/// A subscription that is refused has none of its topic's events forwarded.
pub proof fn law_refused_subscription_gets_no_events<B>(
    step: SubscribeStep<B>,
    topic: String,
    code: DiagnosticCode,
    message: Seq<char>,
)
    requires
        refuses(step, topic, code, message),
    ensures
        !(step is Forward),
{
}

/// A closed connection stays closed.
pub proof fn law_closed_is_final<B>(event: ConnEvent<B>)
    ensures
        conn_step(ConnState::Closed, event) == (ConnState::Closed, ConnAction::<B>::Close),
{
}

/// On an open connection a probe is answered, and a request reaches the
/// service as it came.
pub proof fn law_open_connection_serves<B>(req: Request<B>)
    ensures
        conn_step(ConnState::Open, ConnEvent::<B>::Frame(Envelope::Ping)) == (
            ConnState::Open,
            ConnAction::Write(Envelope::<B>::Pong),
        ),
        conn_step(ConnState::Open, ConnEvent::Frame(Envelope::Request(req))) == (
            ConnState::Open,
            ConnAction::Serve(Inbound::Dispatch(req)),
        ),
{
}

/// Every subscription is put to the service, with the very topic and capability
/// that came with it: with a token or without, and whatever its filter.
pub proof fn law_subscription_is_put_to_the_service<B>(
    topic: String,
    filter: Option<B>,
    capability: Option<String>,
    step: Inbound<B>,
    state: &mut ConnState,
    action: ConnAction<B>,
)
    requires
        call_ensures(
            inbound::<B>,
            (Envelope::Subscribe { topic, filter, capability },),
            step,
        ),
        *old(state) == ConnState::Open,
        call_ensures(
            handle_connection::<B>,
            (state, ConnEvent::Frame(Envelope::Subscribe { topic, filter, capability })),
            action,
        ),
    ensures
        step == (Inbound::<B>::Authorise { topic, capability }),
        action == ConnAction::Serve(Inbound::<B>::Authorise { topic, capability }),
        *final(state) == ConnState::Open,
{
}

/// Every request is dispatched as it came, every probe is answered, and what only
/// a server sends asks nothing of one.
pub proof fn law_envelope_asks_what_it_says<B>(env: Envelope<B>, step: Inbound<B>)
    requires
        call_ensures(inbound::<B>, (env,), step),
    ensures
        env matches Envelope::Request(req) ==> step == Inbound::Dispatch(req),
        env == Envelope::<B>::Ping ==> step == Inbound::Reply(Envelope::<B>::Pong),
        env matches Envelope::Subscribe { topic, capability, .. } ==> step == (Inbound::<
            B,
        >::Authorise { topic, capability }),
        step is Ignore <==> !(env is Request) && !(env is Subscribe) && !(env is Ping),
{
}

/// A connection opens exactly when its handshake is done and the peer is
/// admitted, and closes on every failure and on everything that comes too
/// early.
pub proof fn law_connection_opens_and_closes<B>(
    state: &mut ConnState,
    event: ConnEvent<B>,
    action: ConnAction<B>,
)
    requires
        call_ensures(handle_connection::<B>, (state, event), action),
    ensures
        *old(state) == ConnState::Handshaking ==> if event == ConnEvent::<B>::HandshakeDone(true) {
            *final(state) == ConnState::Open && action is Continue
        } else {
            *final(state) == ConnState::Closed && action is Close
        },
        *old(state) == ConnState::Open ==> (*final(state) == ConnState::Open <==> event is Queued
            || event is Frame),
        *old(state) == ConnState::Closed ==> *final(state) == ConnState::Closed,
        *final(state) == ConnState::Closed <==> action is Close,
{
}

/// An open connection writes what is queued for the peer, and treats a frame as
/// what its envelope asks: a reply is written, and whatever needs the service
/// is handed to it.
pub proof fn law_open_connection_acts<B>(
    state: &mut ConnState,
    event: ConnEvent<B>,
    action: ConnAction<B>,
)
    requires
        call_ensures(handle_connection::<B>, (state, event), action),
        *old(state) == ConnState::Open,
    ensures
        event matches ConnEvent::Queued(env) ==> action == ConnAction::Write(env),
        event matches ConnEvent::Frame(env) ==> match env {
            Envelope::Request(req) => action == ConnAction::Serve(Inbound::Dispatch(req)),
            Envelope::Ping => action == ConnAction::Write(Envelope::<B>::Pong),
            Envelope::Subscribe { topic, capability, .. } => action == ConnAction::Serve(
                Inbound::<B>::Authorise { topic, capability },
            ),
            _ => action is Continue,
        },
{
}

/// Whether `step` is a refusal of this topic, with this code and reason.
pub open spec fn is_refusal<B>(
    step: SubscribeStep<B>,
    topic: String,
    code: DiagnosticCode,
    reason: Seq<char>,
) -> bool {
    step matches SubscribeStep::Refuse(env) && (env matches Envelope::SubscribeError {
        topic: t,
        error,
    } && t == topic && error.code == code && error.message@ == reason)
}

/// Events flow exactly if the service authorises the subscription and the topic has
/// a source, over streams and over datagrams alike, and then for that topic.
/// A subscriber that is not authorised is told why. A topic without a source is
/// refused over streams, and passed over in silence over datagrams.
pub proof fn law_subscription_is_decided<B>(
    topic: String,
    verdict: Result<(), String>,
    has_source: bool,
    stream: SubscribeStep<B>,
    dgram: SubscribeStep<B>,
)
    requires
        call_ensures(handle_subscribe::<B>, (topic, verdict, has_source), stream),
        call_ensures(handle_subscribe_dgram::<B>, (topic, verdict, has_source), dgram),
    ensures
        stream is Forward <==> verdict is Ok && has_source,
        stream is Forward ==> stream == SubscribeStep::<B>::Forward(topic),
        dgram is Forward <==> verdict is Ok && has_source,
        dgram is Forward ==> dgram == SubscribeStep::<B>::Forward(topic),
        verdict matches Err(reason) ==> is_refusal(stream, topic, DiagnosticCode::Forbidden, reason@)
            && is_refusal(dgram, topic, DiagnosticCode::Forbidden, reason@),
        verdict is Ok && !has_source ==> dgram is Nothing && is_refusal(
            stream,
            topic,
            DiagnosticCode::MethodNotFound,
            "no event source for topic"@,
        ),
{
}

/// Of what comes from a source, the events of the subscribed topic are forwarded as
/// they are, and no others; only the end of the source ends the forwarding.
pub proof fn law_topic_events_are_forwarded<B>(
    topic: &String,
    received: Received<B>,
    step: ForwardStep<B>,
)
    requires
        call_ensures(forward_step::<B>, (topic, received), step),
    ensures
        received matches Received::Event(ev) ==> if ev.topic@ == topic@ {
            step == ForwardStep::Send(Envelope::Event(ev))
        } else {
            step is Skip
        },
        received is Lagged ==> step is Skip,
        step is Stop <==> received is Closed,
{
}

} // verus!
