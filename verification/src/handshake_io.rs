//! The stream handshake: which side sends, receives or skips what, and when.
//!
//! Both sides go through a preamble and three messages. The initiator may send
//! junk before the first message; the responder skips exactly as much.

use crate::error::{ErrorView, IoKind, ObfsError};
use crate::framing;
use vstd::prelude::*;

verus! {

/// The two sides of a handshake.
#[derive(Debug, Clone, Copy, PartialEq, Eq, Structural)]
pub enum Role {
    /// The client.
    Initiator,
    /// The server.
    Responder,
}

/// One step of a handshake.
#[derive(Debug, Clone, Copy, PartialEq, Eq, Structural)]
pub enum HandshakeStep {
    /// Write the preamble, which has this many bytes.
    SendPreamble(usize),
    /// Read and discard this many bytes.
    SkipPreamble(usize),
    /// Let the Noise state write its next message, and send it in a frame.
    SendMessage,
    /// Receive a frame, and let the Noise state read the message in it.
    ReceiveMessage,
    /// Turn the Noise state into a session. Bytes that were received beyond
    /// the last message belong to the session.
    Finish,
}

/// Why a step failed.
pub enum Fault {
    /// The Noise state refused a message, with its reason.
    Wire(String),
    /// The stream failed.
    Io(IoKind, String),
    /// A frame could not be received or sent.
    Frame(ObfsError),
}

/// The error that a fault in `step` is reported as. A stream that ends inside
/// the preamble was closed by a peer that never began.
pub open spec fn fault_error(step: HandshakeStep, fault: Fault) -> ErrorView {
    match fault {
        Fault::Wire(e) => ErrorView::Wire(e@),
        Fault::Io(kind, e) => if step is SkipPreamble && kind == IoKind::UnexpectedEof {
            ErrorView::Closed
        } else {
            ErrorView::Io(kind, e@)
        },
        Fault::Frame(e) => e@,
    }
}

/// The messages of a side, in order.
pub open spec fn messages(role: Role) -> Seq<HandshakeStep> {
    match role {
        Role::Initiator => seq![
            HandshakeStep::SendMessage,
            HandshakeStep::ReceiveMessage,
            HandshakeStep::SendMessage,
        ],
        Role::Responder => seq![
            HandshakeStep::ReceiveMessage,
            HandshakeStep::SendMessage,
            HandshakeStep::ReceiveMessage,
        ],
    }
}

/// The step that deals with a preamble of `n` bytes.
pub open spec fn preamble_step(role: Role, n: usize) -> HandshakeStep {
    match role {
        Role::Initiator => HandshakeStep::SendPreamble(n),
        Role::Responder => HandshakeStep::SkipPreamble(n),
    }
}

/// All steps of a side: the preamble, unless it is empty, the messages, and
/// the end.
pub open spec fn steps(role: Role, preamble: usize) -> Seq<HandshakeStep> {
    (if preamble > 0 {
        seq![preamble_step(role, preamble)]
    } else {
        seq![]
    }) + messages(role) + seq![HandshakeStep::Finish]
}

/// A handshake in progress.
pub struct HandshakeIo {
    role: Role,
    preamble: usize,
    /// Position among the steps; one past the end when all is done.
    position: usize,
}

/// A [`HandshakeIo`] as a value: its steps and how many of them are done.
#[verifier::ext_equal]
pub struct Progress {
    pub steps: Seq<HandshakeStep>,
    pub done: nat,
}

impl View for HandshakeIo {
    type V = Progress;

    closed spec fn view(&self) -> Progress {
        Progress { steps: steps(self.role, self.preamble), done: self.position as nat }
    }
}

/// Starts the initiator's side; `preamble` is the length of the junk that is
/// sent first.
pub fn client_handshake_in_place(preamble: usize) -> (hs: HandshakeIo)
    ensures
        hs@ == (Progress { steps: steps(Role::Initiator, preamble), done: 0 }),
        hs.wf(),
{
    HandshakeIo { role: Role::Initiator, preamble, position: 0 }
}

/// Starts the responder's side; `skip` is the length of the junk that comes
/// first.
pub fn server_handshake_in_place(skip: usize) -> (hs: HandshakeIo)
    ensures
        hs@ == (Progress { steps: steps(Role::Responder, skip), done: 0 }),
        hs.wf(),
{
    HandshakeIo { role: Role::Responder, preamble: skip, position: 0 }
}

/// Starts the initiator's side without junk.
pub fn client_handshake() -> (hs: HandshakeIo)
    ensures
        hs@ == (Progress { steps: steps(Role::Initiator, 0), done: 0 }),
        hs.wf(),
{
    client_handshake_in_place(0)
}

/// Starts the responder's side without junk.
pub fn server_handshake() -> (hs: HandshakeIo)
    ensures
        hs@ == (Progress { steps: steps(Role::Responder, 0), done: 0 }),
        hs.wf(),
{
    server_handshake_in_place(0)
}

impl HandshakeIo {
    /// No more steps are done than there are.
    pub closed spec fn wf(&self) -> bool {
        self.position <= steps(self.role, self.preamble).len()
    }

    /// The next step, or `None` when all are done.
    pub fn next(&self) -> (step: Option<HandshakeStep>)
        requires
            self.wf(),
        ensures
            step == if self@.done < self@.steps.len() {
                Some(self@.steps[self@.done as int])
            } else {
                None
            },
    {
        let index: usize = if self.preamble > 0 {
            self.position
        } else {
            self.position + 1
        };
        match index {
            0 => Some(
                match self.role {
                    Role::Initiator => HandshakeStep::SendPreamble(self.preamble),
                    Role::Responder => HandshakeStep::SkipPreamble(self.preamble),
                },
            ),
            1 | 3 => Some(
                match self.role {
                    Role::Initiator => HandshakeStep::SendMessage,
                    Role::Responder => HandshakeStep::ReceiveMessage,
                },
            ),
            2 => Some(
                match self.role {
                    Role::Initiator => HandshakeStep::ReceiveMessage,
                    Role::Responder => HandshakeStep::SendMessage,
                },
            ),
            4 => Some(HandshakeStep::Finish),
            _ => None,
        }
    }

    /// Reports what came of the next step: success leads to the step after
    /// it, a fault ends the handshake with an error.
    pub fn advance(&mut self, outcome: Result<(), Fault>) -> (r: Result<(), ObfsError>)
        requires
            old(self).wf(),
            old(self)@.done < old(self)@.steps.len(),
        ensures
            final(self).wf(),
            match outcome {
                Ok(()) => r is Ok && final(self)@ == (Progress {
                    done: old(self)@.done + 1,
                    ..old(self)@
                }),
                Err(fault) => r matches Err(e) && e@ == fault_error(
                    old(self)@.steps[old(self)@.done as int],
                    fault,
                ) && final(self)@ == (Progress { done: old(self)@.steps.len(), ..old(self)@ }),
            },
    {
        match outcome {
            Ok(()) => {
                self.position = self.position + 1;
                Ok(())
            },
            Err(fault) => {
                let skipping: bool = match self.next() {
                    Some(HandshakeStep::SkipPreamble(_)) => true,
                    _ => false,
                };
                self.position = if self.preamble > 0 {
                    5
                } else {
                    4
                };
                Err(
                    match fault {
                        Fault::Wire(e) => ObfsError::Wire(e),
                        Fault::Io(kind, e) => if skipping && kind == IoKind::UnexpectedEof {
                            ObfsError::Closed
                        } else {
                            ObfsError::Io(kind, e)
                        },
                        Fault::Frame(e) => e,
                    },
                )
            },
        }
    }
}

/// The two sides fit together: they take the same number of steps, whenever
/// one sends a message the other receives one, and what the initiator sends
/// as a preamble the responder skips.
pub proof fn law_sides_are_dual(preamble: usize, i: int)
    requires
        0 <= i < steps(Role::Initiator, preamble).len(),
    ensures
        steps(Role::Initiator, preamble).len() == steps(Role::Responder, preamble).len(),
        match steps(Role::Initiator, preamble)[i] {
            HandshakeStep::SendPreamble(n) => steps(Role::Responder, preamble)[i]
                == HandshakeStep::SkipPreamble(n) && n == preamble,
            HandshakeStep::SendMessage => steps(Role::Responder, preamble)[i]
                == HandshakeStep::ReceiveMessage,
            HandshakeStep::ReceiveMessage => steps(Role::Responder, preamble)[i]
                == HandshakeStep::SendMessage,
            HandshakeStep::Finish => steps(Role::Responder, preamble)[i] == HandshakeStep::Finish,
            HandshakeStep::SkipPreamble(_) => false,
        },
{
}

/// A handshake from step `i` on, on a stream that yields `input` and then ends:
/// the messages that were received, or the error, the buffer, and what the
/// stream still yields.
pub open spec fn run(
    format: framing::Format,
    s: Seq<HandshakeStep>,
    i: int,
    buf: Seq<u8>,
    input: Seq<Seq<u8>>,
    received: Seq<Seq<u8>>,
) -> (Result<Seq<Seq<u8>>, ErrorView>, Seq<u8>, Seq<Seq<u8>>)
    decreases s.len() - i,
{
    if i < 0 || i >= s.len() {
        (Ok(received), buf, input)
    } else {
        match s[i] {
            HandshakeStep::SkipPreamble(n) => if framing::joined(input).len() < n {
                (Err(ErrorView::Closed), buf, Seq::empty())
            } else {
                run(format, s, i + 1, buf, framing::after_bytes(input, n as nat), received)
            },
            HandshakeStep::ReceiveMessage => match framing::receive(format, buf, input) {
                (Ok(message), kept, left) => run(
                    format,
                    s,
                    i + 1,
                    kept,
                    left,
                    received.push(message),
                ),
                (Err(e), kept, left) => (Err(e), kept, left),
            },
            _ => run(format, s, i + 1, buf, input, received),
        }
    }
}

/// The responder loses nothing and repeats nothing: exactly the preamble comes
/// off before the first message, both messages are received however the stream
/// is cut into chunks and whatever its format, and buffer and remaining input
/// together are what the initiator wrote behind the last message.
pub proof fn law_responder_loses_nothing(
    format: framing::Format,
    preamble: usize,
    junk: Seq<u8>,
    wire1: Seq<u8>,
    message1: Seq<u8>,
    wire3: Seq<u8>,
    message3: Seq<u8>,
    behind: Seq<u8>,
    input: Seq<Seq<u8>>,
)
    requires
        junk.len() == preamble,
        framing::is_frame(format, wire1, message1),
        framing::is_frame(format, wire3, message3),
        framing::all_filled(input),
        framing::joined(input) == junk + wire1 + wire3 + behind,
    ensures
        ({
            let s = steps(Role::Responder, preamble);
            let (received, buf, left) = run(format, s, 0, Seq::empty(), input, Seq::empty());
            &&& received == Ok::<_, ErrorView>(seq![message1, message3])
            &&& buf + framing::joined(left) == behind
        }),
{
    reveal_with_fuel(run, 7);
    let s = steps(Role::Responder, preamble);
    let none = Seq::<u8>::empty();
    let start = framing::after_bytes(input, preamble as nat);
    framing::law_after_bytes(input, preamble as nat);
    let rest1 = wire3 + behind;
    assert(framing::joined(input).skip(preamble as int) =~= wire1 + rest1);
    assert(none + framing::joined(start) =~= wire1 + rest1);
    framing::law_frame_received(format, none, start, wire1, message1, rest1);
    let (_, buf1, left1) = framing::receive(format, none, start);
    framing::law_frame_received(format, buf1, left1, wire3, message3, behind);
    assert(Seq::<Seq<u8>>::empty().push(message1).push(message3) =~= seq![message1, message3]);
    if preamble > 0 {
        assert(s[0] == HandshakeStep::SkipPreamble(preamble));
        assert(s[1] == HandshakeStep::ReceiveMessage);
        assert(s[2] == HandshakeStep::SendMessage);
        assert(s[3] == HandshakeStep::ReceiveMessage);
        assert(s[4] == HandshakeStep::Finish);
    } else {
        assert(s[0] == HandshakeStep::ReceiveMessage);
        assert(s[1] == HandshakeStep::SendMessage);
        assert(s[2] == HandshakeStep::ReceiveMessage);
        assert(s[3] == HandshakeStep::Finish);
    }
}

/// The initiator loses nothing either: buffer and remaining input together are
/// what the responder wrote behind its message.
pub proof fn law_initiator_loses_nothing(
    format: framing::Format,
    preamble: usize,
    wire2: Seq<u8>,
    message2: Seq<u8>,
    behind: Seq<u8>,
    input: Seq<Seq<u8>>,
)
    requires
        framing::is_frame(format, wire2, message2),
        framing::all_filled(input),
        framing::joined(input) == wire2 + behind,
    ensures
        ({
            let s = steps(Role::Initiator, preamble);
            let (received, buf, left) = run(format, s, 0, Seq::empty(), input, Seq::empty());
            &&& received == Ok::<_, ErrorView>(seq![message2])
            &&& buf + framing::joined(left) == behind
        }),
{
    reveal_with_fuel(run, 7);
    let s = steps(Role::Initiator, preamble);
    let none = Seq::<u8>::empty();
    assert(none + framing::joined(input) =~= wire2 + behind);
    framing::law_frame_received(format, none, input, wire2, message2, behind);
    assert(Seq::<Seq<u8>>::empty().push(message2) =~= seq![message2]);
    let first: int = if preamble > 0 {
        1
    } else {
        0
    };
    assert(first == 1 ==> s[0] == HandshakeStep::SendPreamble(preamble));
    assert(s[first] == HandshakeStep::SendMessage);
    assert(s[first + 1] == HandshakeStep::ReceiveMessage);
    assert(s[first + 2] == HandshakeStep::SendMessage);
    assert(s[first + 3] == HandshakeStep::Finish);
}

/// A stream that ends inside the preamble is closed, whatever the text of the
/// failed read.
pub proof fn law_short_preamble_is_closed(
    format: framing::Format,
    preamble: usize,
    input: Seq<Seq<u8>>,
    text: String,
)
    requires
        framing::joined(input).len() < preamble,
    ensures
        run(format, steps(Role::Responder, preamble), 0, Seq::empty(), input, Seq::empty()).0 == Err::<
            Seq<Seq<u8>>,
            _,
        >(ErrorView::Closed),
        fault_error(
            HandshakeStep::SkipPreamble(preamble),
            Fault::Io(IoKind::UnexpectedEof, text),
        ) == ErrorView::Closed,
{
    assert(steps(Role::Responder, preamble)[0] == HandshakeStep::SkipPreamble(preamble));
}

/// The initiator speaks first and last, so the responder has sent nothing
/// that is not yet read when it has received the last message.
pub proof fn law_initiator_speaks_last(preamble: usize)
    ensures
        ({
            let s = steps(Role::Initiator, preamble);
            s[s.len() - 2] == HandshakeStep::SendMessage && s[s.len() - 1] == HandshakeStep::Finish
        }),
{
}

/// The initiator sends its preamble, if it has one, then sends, receives and sends
/// a message; the responder skips a preamble of that length, then receives,
/// sends and receives.
pub proof fn law_order_of_the_handshake(n: usize, client: HandshakeIo, server: HandshakeIo)
    requires
        call_ensures(client_handshake_in_place, (n,), client),
        call_ensures(server_handshake_in_place, (n,), server),
    ensures
        client@.done == 0 && server@.done == 0,
        ({
            let sending = seq![
                HandshakeStep::SendMessage,
                HandshakeStep::ReceiveMessage,
                HandshakeStep::SendMessage,
                HandshakeStep::Finish,
            ];
            let receiving = seq![
                HandshakeStep::ReceiveMessage,
                HandshakeStep::SendMessage,
                HandshakeStep::ReceiveMessage,
                HandshakeStep::Finish,
            ];
            if n == 0 {
                client@.steps == sending && server@.steps == receiving
            } else {
                client@.steps == seq![HandshakeStep::SendPreamble(n)] + sending && server@.steps
                    == seq![HandshakeStep::SkipPreamble(n)] + receiving
            }
        }),
{
    let sending = seq![
        HandshakeStep::SendMessage,
        HandshakeStep::ReceiveMessage,
        HandshakeStep::SendMessage,
        HandshakeStep::Finish,
    ];
    let receiving = seq![
        HandshakeStep::ReceiveMessage,
        HandshakeStep::SendMessage,
        HandshakeStep::ReceiveMessage,
        HandshakeStep::Finish,
    ];
    if n == 0 {
        assert(client@.steps =~= sending);
        assert(server@.steps =~= receiving);
    } else {
        assert(client@.steps =~= seq![HandshakeStep::SendPreamble(n)] + sending);
        assert(server@.steps =~= seq![HandshakeStep::SkipPreamble(n)] + receiving);
    }
}

/// Without a preamble the handshakes are those with an empty one.
pub proof fn law_plain_handshake_has_no_preamble(
    client: HandshakeIo,
    server: HandshakeIo,
    shaped_client: HandshakeIo,
    shaped_server: HandshakeIo,
)
    requires
        call_ensures(client_handshake, (), client),
        call_ensures(server_handshake, (), server),
        call_ensures(client_handshake_in_place, (0,), shaped_client),
        call_ensures(server_handshake_in_place, (0,), shaped_server),
    ensures
        client@ == shaped_client@,
        server@ == shaped_server@,
{
}

/// The steps are gone through one by one: a success leads to the next, a fault ends
/// the handshake with the error of its layer. A stream that ends inside the
/// preamble was closed.
pub proof fn law_steps_in_order(
    hs: &mut HandshakeIo,
    outcome: Result<(), Fault>,
    r: Result<(), ObfsError>,
    at: &HandshakeIo,
    step: Option<HandshakeStep>,
)
    requires
        call_ensures(HandshakeIo::advance, (hs, outcome), r),
        call_ensures(HandshakeIo::next, (at,), step),
        at@ == old(hs)@,
        old(hs)@.done < old(hs)@.steps.len(),
    ensures
        step == Some(old(hs)@.steps[old(hs)@.done as int]),
        final(hs)@.steps == old(hs)@.steps,
        outcome is Ok ==> r is Ok && final(hs)@.done == old(hs)@.done + 1,
        outcome is Err ==> r is Err && final(hs)@.done == old(hs)@.steps.len(),
        outcome matches Err(Fault::Wire(e)) ==> (r matches Err(ObfsError::Wire(m)) && m@ == e@),
        outcome matches Err(Fault::Frame(e)) ==> (r matches Err(f) && f@ == e@),
        outcome matches Err(Fault::Io(kind, e)) ==> if kind == IoKind::UnexpectedEof && (
        step matches Some(HandshakeStep::SkipPreamble(_))) {
            r matches Err(ObfsError::Closed)
        } else {
            r matches Err(ObfsError::Io(k, m)) && k == kind && m@ == e@
        },
{
}

/// When all steps are done there is none left.
pub proof fn law_nothing_behind_the_last_step(hs: &HandshakeIo, step: Option<HandshakeStep>)
    requires
        call_ensures(HandshakeIo::next, (hs,), step),
    ensures
        step is None <==> hs@.done >= hs@.steps.len(),
{
}

} // verus!
