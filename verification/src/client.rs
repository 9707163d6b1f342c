//! One connection: the bytes it holds and what it does with each read.
//!
//! The task that owns the socket reads into a scratch buffer and hands what
//! it read to [`Client::handle`], then carries out the [`Outcome`].

use crate::codec::{parse_client_message, server_message_bytes};
use crate::message::{
    AddResponse, ClientMessage, ClientMessageView, ServerMessage, ServerMessageView,
};
use crate::server::TurnOutcome;
use vstd::prelude::*;

verus! {

/// The size in bytes of the scratch buffer that one read fills.
pub const READ_CHUNK: usize = 512;

/// The sum of two 32-bit integers as the server computes it: the
/// mathematical sum where it fits 32 bits, else the sum wrapped round into
/// the 32-bit range (two's complement).
pub open spec fn wrapping_sum(a: i32, b: i32) -> i32 {
    if a + b > i32::MAX {
        (a + b - 0x1_0000_0000) as i32
    } else if a + b < i32::MIN {
        (a + b + 0x1_0000_0000) as i32
    } else {
        (a + b) as i32
    }
}

/// The reply that a request gets: an echo gets its text back, an add request
/// gets the wrapping sum of its integers, a message with no payload set gets
/// none.
pub open spec fn reply_to(request: ClientMessageView) -> Option<ServerMessageView> {
    match request {
        ClientMessageView::Unset => None,
        ClientMessageView::Echo(content) => Some(ServerMessageView::Echo(content)),
        ClientMessageView::Add(request) => Some(
            ServerMessageView::Add(AddResponse { result: wrapping_sum(request.a, request.b) }),
        ),
    }
}

/// What the owner of the socket is to do after one call of
/// [`Client::handle`].
#[derive(Clone, Debug, PartialEq, Eq)]
pub enum Outcome {
    /// The read gave no bytes: the peer has closed the connection. Nothing
    /// went wrong; make no further call.
    Disconnected,
    /// The bytes held so far are not a message. They are kept; read on.
    Pending,
    /// A request was read. Write all of these bytes to the socket, flush it,
    /// and read on.
    Reply(Vec<u8>),
    /// A message with no payload set was read. Report it, send nothing, keep
    /// the connection open and read on.
    Empty,
}

/// An [`Outcome`] as a value of the specification.
pub enum OutcomeView {
    Disconnected,
    Pending,
    Reply(Seq<u8>),
    Empty,
}

impl View for Outcome {
    type V = OutcomeView;

    open spec fn view(&self) -> OutcomeView {
        match self {
            Outcome::Disconnected => OutcomeView::Disconnected,
            Outcome::Pending => OutcomeView::Pending,
            Outcome::Reply(bytes) => OutcomeView::Reply(bytes@),
            Outcome::Empty => OutcomeView::Empty,
        }
    }
}

/// How a turn of the connection task ended in which [`Client::handle`] gave
/// this outcome and a reply, if there was one, was written and flushed: the
/// connection has closed, or the turn is done and the connection stays open.
pub open spec fn turn_of(outcome: OutcomeView) -> TurnOutcome {
    match outcome {
        OutcomeView::Disconnected => TurnOutcome::Disconnected,
        _ => TurnOutcome::Handled,
    }
}

impl Outcome {
    /// How the turn ended that gave this outcome, once a reply, if there is
    /// one, has been written and flushed. See [`turn_of`].
    pub fn turn(&self) -> (turn: TurnOutcome)
        ensures
            turn == turn_of(self@),
    {
        match self {
            Outcome::Disconnected => TurnOutcome::Disconnected,
            _ => TurnOutcome::Handled,
        }
    }
}

/// The outcome of reading the request `request`.
pub open spec fn outcome_of(request: ClientMessageView) -> OutcomeView {
    match reply_to(request) {
        Some(reply) => OutcomeView::Reply(server_message_bytes(reply)),
        None => OutcomeView::Empty,
    }
}

/// One call of [`Client::handle`] on a connection that holds `held` and has
/// read `received`: the bytes it holds afterwards, and the outcome.
///
/// A read of no bytes changes nothing and ends the connection. Otherwise the
/// bytes read are added to those held. Where all of them together are a
/// message, the message is answered and none of the bytes is kept; where
/// they are not, all of them are kept.
pub open spec fn handle_step(held: Seq<u8>, received: Seq<u8>) -> (Seq<u8>, OutcomeView) {
    if received.len() == 0 {
        (held, OutcomeView::Disconnected)
    } else {
        match parse_client_message(held + received) {
            Some(request) => (Seq::empty(), outcome_of(request)),
            None => (held + received, OutcomeView::Pending),
        }
    }
}

/// A connection, seen from the side of the server: the bytes received on it
/// that have not made up a message yet.
pub struct Client {
    buffer: Vec<u8>,
}

impl View for Client {
    type V = Seq<u8>;

    /// The bytes that the connection holds.
    closed spec fn view(&self) -> Seq<u8> {
        self.buffer@
    }
}

impl Client {
    /// A connection that has received nothing yet.
    pub fn new() -> (client: Client)
        ensures
            client@ == Seq::<u8>::empty(),
    {
        Client { buffer: Vec::new() }
    }

    /// Builds the reply to `request`, if it gets one.
    ///
    /// An echo request gets an echo response with the same text. An add
    /// request gets the sum of its two integers, computed in 32 bits with
    /// wraparound. A message with no payload set gets no reply.
    pub fn respond(request: ClientMessage) -> (reply: Option<ServerMessage>)
        ensures
            match reply {
                Some(message) => reply_to(request@) == Some(message@),
                None => reply_to(request@) is None,
            },
    {
        match request {
            ClientMessage::Unset => None,
            ClientMessage::Echo(echo) => Some(ServerMessage::Echo(echo)),
            ClientMessage::Add(add) => Some(
                ServerMessage::Add(AddResponse { result: add.a.wrapping_add(add.b) }),
            ),
        }
    }

    /// Takes in what one read of the socket gave and says what to do next.
    ///
    /// `received` is the part of the scratch buffer that the read filled; an
    /// empty slice stands for a read of no bytes. The bytes are added to
    /// those held from earlier reads, and all of them together are read as
    /// one client message. See [`handle_step`].
    ///
    /// A message has no end mark, so a reader takes all the bytes it is
    /// given: once they are read as a message none is left over, and the
    /// connection holds nothing. Bytes that are not a message are held
    /// without limit; an owner that wants a limit looks at
    /// [`Client::buffered`] and drops the connection.
    pub fn handle(&mut self, received: &[u8]) -> (outcome: Outcome)
        ensures
            (final(self)@, outcome@) == handle_step(old(self)@, received@),
    {
        if received.len() == 0 {
            return Outcome::Disconnected;
        }
        self.buffer.extend_from_slice(received);
        assert(self.buffer@ =~= old(self)@ + received@);
        match ClientMessage::decode(self.buffer.as_slice()) {
            Ok(request) => {
                self.buffer.clear();
                match Client::respond(request) {
                    Some(reply) => Outcome::Reply(reply.encode_to_vec()),
                    None => Outcome::Empty,
                }
            },
            Err(_) => Outcome::Pending,
        }
    }

    /// The number of bytes that the connection holds.
    pub fn buffered(&self) -> (len: usize)
        ensures
            len == self@.len(),
    {
        self.buffer.len()
    }
}

} // verus!
