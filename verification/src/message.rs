//! The messages that travel between a client and the server.
//!
//! A client sends a [`ClientMessage`], the server answers with a
//! [`ServerMessage`]. Each is a tagged union that holds one of two payloads,
//! or none.

use vstd::prelude::*;

verus! {

/// A text that the server sends back as it came.
#[derive(Clone, Debug, PartialEq, Eq)]
pub struct EchoMessage {
    pub content: String,
}

/// Two integers to be added.
#[derive(Clone, Copy, Debug, PartialEq, Eq, Structural)]
pub struct AddRequest {
    pub a: i32,
    pub b: i32,
}

/// The sum of two integers.
#[derive(Clone, Copy, Debug, PartialEq, Eq, Structural)]
pub struct AddResponse {
    pub result: i32,
}

/// What a client sends.
#[derive(Clone, Debug, PartialEq, Eq)]
pub enum ClientMessage {
    /// No payload is set.
    Unset,
    Echo(EchoMessage),
    Add(AddRequest),
}

/// What the server sends.
#[derive(Clone, Debug, PartialEq, Eq)]
pub enum ServerMessage {
    /// No payload is set.
    Unset,
    Echo(EchoMessage),
    Add(AddResponse),
}

/// A client message as a value of the specification: the text of an echo is
/// its sequence of characters.
pub enum ClientMessageView {
    Unset,
    Echo(Seq<char>),
    Add(AddRequest),
}

/// A server message as a value of the specification.
pub enum ServerMessageView {
    Unset,
    Echo(Seq<char>),
    Add(AddResponse),
}

impl View for EchoMessage {
    type V = Seq<char>;

    open spec fn view(&self) -> Seq<char> {
        self.content@
    }
}

impl View for ClientMessage {
    type V = ClientMessageView;

    open spec fn view(&self) -> ClientMessageView {
        match self {
            ClientMessage::Unset => ClientMessageView::Unset,
            ClientMessage::Echo(echo) => ClientMessageView::Echo(echo@),
            ClientMessage::Add(request) => ClientMessageView::Add(*request),
        }
    }
}

impl View for ServerMessage {
    type V = ServerMessageView;

    open spec fn view(&self) -> ServerMessageView {
        match self {
            ServerMessage::Unset => ServerMessageView::Unset,
            ServerMessage::Echo(echo) => ServerMessageView::Echo(echo@),
            ServerMessage::Add(response) => ServerMessageView::Add(*response),
        }
    }
}

impl EchoMessage {
    /// An echo message that holds `content`.
    pub fn new(content: String) -> (echo: EchoMessage)
        ensures
            echo@ == content@,
    {
        EchoMessage { content }
    }
}

} // verus!
