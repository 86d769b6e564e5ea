//! The envelope that multiplexes all messages of a connection.
//!
//! The parts that the transport reads (request ids, topics, capabilities) are
//! plain fields; whatever else a message holds is an opaque body of type `B`.

use vstd::prelude::*;

verus! {

/// An RPC request.
#[derive(Debug, Clone)]
pub struct Request<B> {
    /// Identifies the request; its response carries the same id.
    pub id: String,
    /// Method, parameters and everything else.
    pub body: B,
}

/// The response to a request.
#[derive(Debug, Clone)]
pub struct Response<B> {
    /// The id of the request that this answers.
    pub id: String,
    /// Outcome and everything else.
    pub body: B,
}

/// An event that a server pushes to its subscribers.
#[derive(Debug, Clone)]
pub struct Event<B> {
    /// The topic that the event belongs to.
    pub topic: String,
    /// Its number within the topic.
    pub seq: u64,
    /// What it carries.
    pub body: B,
}

/// The class of a diagnostic.
#[derive(Debug, Clone, Copy, PartialEq, Eq, Structural)]
pub enum DiagnosticCode {
    /// There is no such method or event source.
    MethodNotFound,
    /// The caller may not do this.
    Forbidden,
    /// Anything else.
    Other,
}

/// Why something was refused.
#[derive(Debug, Clone)]
pub struct Diagnostic {
    /// The class of the refusal.
    pub code: DiagnosticCode,
    /// A text for the user.
    pub message: String,
}

/// The top-level multiplexing envelope.
#[derive(Debug, Clone)]
pub enum Envelope<B> {
    /// Client to server: an RPC request.
    Request(Request<B>),
    /// Server to client: the response to an earlier request.
    Response(Response<B>),
    /// Server to client: an event on a subscribed topic.
    Event(Event<B>),
    /// Client to server: subscribe to a topic.
    Subscribe {
        /// The topic.
        topic: String,
        /// Restricts the events that are wanted.
        filter: Option<B>,
        /// The bearer token that authorises the subscription.
        capability: Option<String>,
    },
    /// Client to server: unsubscribe from a topic.
    Unsubscribe {
        /// The topic.
        topic: String,
    },
    /// Server to client: the subscription was refused.
    SubscribeError {
        /// The topic.
        topic: String,
        /// Why it was refused.
        error: Diagnostic,
    },
    /// Either direction: liveness probe.
    Ping,
    /// Either direction: the answer to a probe.
    Pong,
}

} // verus!
