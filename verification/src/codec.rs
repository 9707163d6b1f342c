//! The byte form of the messages: which bytes a message is written as, and
//! which message a byte string is read as.
//!
//! A message is a run of fields, each a key and a payload. A reader takes the
//! fields in order. A field it knows updates the message; where a field that
//! holds a single value comes again, the later value stands. A field it does
//! not know is passed over. The whole byte string is one message: there is no
//! mark where a message ends.

use crate::message::{
    AddRequest, AddResponse, ClientMessage, ClientMessageView, EchoMessage, ServerMessage,
    ServerMessageView,
};
use crate::wire::{
    decode_key, decode_varint, delimited_bytes, encode_int32, encode_key, encode_string,
    encode_varint, int32_field_bytes, key_bytes, lemma_parse_key_bounds,
    lemma_parse_varint_bounds, merge_int32, merge_string, parse_delimited, parse_int32,
    parse_key, parse_string, skip_field, skipped_len, string_field_bytes, WireError, WireType,
};
use vstd::prelude::*;

verus! {

/// Field of the echo payload, in a client message and in a server message.
pub const ECHO_TAG: u32 = 1;

/// Field of the add payload, in a client message and in a server message.
pub const ADD_TAG: u32 = 2;

/// Field of the text in an echo payload.
pub const CONTENT_TAG: u32 = 1;

/// Field of the first integer in an add request.
pub const A_TAG: u32 = 1;

/// Field of the second integer in an add request.
pub const B_TAG: u32 = 2;

/// Field of the sum in an add response.
pub const RESULT_TAG: u32 = 1;

// ---------------------------------------------------------------------------
// Reading: the grammar
// ---------------------------------------------------------------------------

/// What is left of `payload` once the payload of a field that the reader does
/// not know has been passed over.
pub open spec fn after_skipped(wire_type: WireType, tag: nat, payload: Seq<u8>) -> Option<
    Seq<u8>,
> {
    match skipped_len(wire_type, tag as u32, payload) {
        Some(n) => if n <= payload.len() {
            Some(payload.skip(n as int))
        } else {
            None
        },
        None => None,
    }
}

/// The payload of a field that holds a message, after a key of wire type
/// `wire_type`: a length-delimited payload. Gives the bytes of the inner
/// message and the number of bytes taken.
pub open spec fn parse_nested(wire_type: WireType, bytes: Seq<u8>) -> Option<(Seq<u8>, nat)> {
    if wire_type != WireType::LengthDelimited {
        None
    } else {
        parse_delimited(bytes)
    }
}

/// The text of an echo payload that stood at `content` once the fields in
/// `bytes` have been read into it.
pub open spec fn merge_echo_fields(content: Seq<char>, bytes: Seq<u8>) -> Option<Seq<char>>
    decreases bytes.len(),
    via merge_echo_fields_decreases
{
    if bytes.len() == 0 {
        Some(content)
    } else {
        match parse_key(bytes) {
            Some((tag, wire_type, k)) => {
                let payload = bytes.skip(k as int);
                if tag == CONTENT_TAG {
                    match parse_string(wire_type, payload) {
                        Some((text, n)) => merge_echo_fields(text, payload.skip(n as int)),
                        None => None,
                    }
                } else {
                    match after_skipped(wire_type, tag, payload) {
                        Some(rest) => merge_echo_fields(content, rest),
                        None => None,
                    }
                }
            },
            None => None,
        }
    }
}

#[via_fn]
proof fn merge_echo_fields_decreases(content: Seq<char>, bytes: Seq<u8>) {
    lemma_parse_key_bounds(bytes);
}

/// The add request that stood at `request` once the fields in `bytes` have
/// been read into it.
pub open spec fn merge_add_request_fields(request: AddRequest, bytes: Seq<u8>) -> Option<
    AddRequest,
>
    decreases bytes.len(),
    via merge_add_request_fields_decreases
{
    if bytes.len() == 0 {
        Some(request)
    } else {
        match parse_key(bytes) {
            Some((tag, wire_type, k)) => {
                let payload = bytes.skip(k as int);
                if tag == A_TAG || tag == B_TAG {
                    match parse_int32(wire_type, payload) {
                        Some((value, n)) => {
                            let updated = if tag == A_TAG {
                                AddRequest { a: value, b: request.b }
                            } else {
                                AddRequest { a: request.a, b: value }
                            };
                            merge_add_request_fields(updated, payload.skip(n as int))
                        },
                        None => None,
                    }
                } else {
                    match after_skipped(wire_type, tag, payload) {
                        Some(rest) => merge_add_request_fields(request, rest),
                        None => None,
                    }
                }
            },
            None => None,
        }
    }
}

#[via_fn]
proof fn merge_add_request_fields_decreases(request: AddRequest, bytes: Seq<u8>) {
    lemma_parse_key_bounds(bytes);
    if let Some((tag, wire_type, k)) = parse_key(bytes) {
        lemma_parse_varint_bounds(bytes.skip(k as int));
    }
}

/// The client message that stood at `message` once the inner message `body`
/// of field `tag` has been read into it. A payload of the kind that
/// `message` holds already is read into what it holds; a payload of the other
/// kind starts from an empty one and takes its place.
pub open spec fn merge_client_payload(message: ClientMessageView, tag: nat, body: Seq<u8>)
    -> Option<ClientMessageView> {
    if tag == ECHO_TAG {
        let start = match message {
            ClientMessageView::Echo(content) => content,
            _ => Seq::<char>::empty(),
        };
        match merge_echo_fields(start, body) {
            Some(content) => Some(ClientMessageView::Echo(content)),
            None => None,
        }
    } else {
        let start = match message {
            ClientMessageView::Add(request) => request,
            _ => AddRequest { a: 0, b: 0 },
        };
        match merge_add_request_fields(start, body) {
            Some(request) => Some(ClientMessageView::Add(request)),
            None => None,
        }
    }
}

/// The client message that stood at `message` once the fields in `bytes`
/// have been read into it.
pub open spec fn merge_client_fields(message: ClientMessageView, bytes: Seq<u8>) -> Option<
    ClientMessageView,
>
    decreases bytes.len(),
    via merge_client_fields_decreases
{
    if bytes.len() == 0 {
        Some(message)
    } else {
        match parse_key(bytes) {
            Some((tag, wire_type, k)) => {
                let payload = bytes.skip(k as int);
                if tag == ECHO_TAG || tag == ADD_TAG {
                    match parse_nested(wire_type, payload) {
                        Some((body, n)) => match merge_client_payload(message, tag, body) {
                            Some(merged) => merge_client_fields(merged, payload.skip(n as int)),
                            None => None,
                        },
                        None => None,
                    }
                } else {
                    match after_skipped(wire_type, tag, payload) {
                        Some(rest) => merge_client_fields(message, rest),
                        None => None,
                    }
                }
            },
            None => None,
        }
    }
}

#[via_fn]
proof fn merge_client_fields_decreases(message: ClientMessageView, bytes: Seq<u8>) {
    lemma_parse_key_bounds(bytes);
}

/// The client message that `bytes` is read as, if it is one: the fields in
/// `bytes` read into a message with no payload set.
pub open spec fn parse_client_message(bytes: Seq<u8>) -> Option<ClientMessageView> {
    merge_client_fields(ClientMessageView::Unset, bytes)
}

/// The add response that stood at `response` once the fields in `bytes` have
/// been read into it.
pub open spec fn merge_add_response_fields(response: AddResponse, bytes: Seq<u8>) -> Option<
    AddResponse,
>
    decreases bytes.len(),
    via merge_add_response_fields_decreases
{
    if bytes.len() == 0 {
        Some(response)
    } else {
        match parse_key(bytes) {
            Some((tag, wire_type, k)) => {
                let payload = bytes.skip(k as int);
                if tag == RESULT_TAG {
                    match parse_int32(wire_type, payload) {
                        Some((value, n)) => merge_add_response_fields(
                            AddResponse { result: value },
                            payload.skip(n as int),
                        ),
                        None => None,
                    }
                } else {
                    match after_skipped(wire_type, tag, payload) {
                        Some(rest) => merge_add_response_fields(response, rest),
                        None => None,
                    }
                }
            },
            None => None,
        }
    }
}

#[via_fn]
proof fn merge_add_response_fields_decreases(response: AddResponse, bytes: Seq<u8>) {
    lemma_parse_key_bounds(bytes);
    if let Some((tag, wire_type, k)) = parse_key(bytes) {
        lemma_parse_varint_bounds(bytes.skip(k as int));
    }
}

/// The server message that stood at `message` once the inner message `body`
/// of field `tag` has been read into it. A payload of the kind that
/// `message` holds already is read into what it holds; a payload of the other
/// kind starts from an empty one and takes its place.
pub open spec fn merge_server_payload(message: ServerMessageView, tag: nat, body: Seq<u8>)
    -> Option<ServerMessageView> {
    if tag == ECHO_TAG {
        let start = match message {
            ServerMessageView::Echo(content) => content,
            _ => Seq::<char>::empty(),
        };
        match merge_echo_fields(start, body) {
            Some(content) => Some(ServerMessageView::Echo(content)),
            None => None,
        }
    } else {
        let start = match message {
            ServerMessageView::Add(response) => response,
            _ => AddResponse { result: 0 },
        };
        match merge_add_response_fields(start, body) {
            Some(response) => Some(ServerMessageView::Add(response)),
            None => None,
        }
    }
}

/// The server message that stood at `message` once the fields in `bytes`
/// have been read into it.
pub open spec fn merge_server_fields(message: ServerMessageView, bytes: Seq<u8>) -> Option<
    ServerMessageView,
>
    decreases bytes.len(),
    via merge_server_fields_decreases
{
    if bytes.len() == 0 {
        Some(message)
    } else {
        match parse_key(bytes) {
            Some((tag, wire_type, k)) => {
                let payload = bytes.skip(k as int);
                if tag == ECHO_TAG || tag == ADD_TAG {
                    match parse_nested(wire_type, payload) {
                        Some((body, n)) => match merge_server_payload(message, tag, body) {
                            Some(merged) => merge_server_fields(merged, payload.skip(n as int)),
                            None => None,
                        },
                        None => None,
                    }
                } else {
                    match after_skipped(wire_type, tag, payload) {
                        Some(rest) => merge_server_fields(message, rest),
                        None => None,
                    }
                }
            },
            None => None,
        }
    }
}

#[via_fn]
proof fn merge_server_fields_decreases(message: ServerMessageView, bytes: Seq<u8>) {
    lemma_parse_key_bounds(bytes);
}

/// The server message that `bytes` is read as, if it is one: the fields in
/// `bytes` read into a message with no payload set.
pub open spec fn parse_server_message(bytes: Seq<u8>) -> Option<ServerMessageView> {
    merge_server_fields(ServerMessageView::Unset, bytes)
}

// ---------------------------------------------------------------------------
// Reading: the code
// ---------------------------------------------------------------------------

/// Splits the payload of a field that holds a message into the bytes of the
/// inner message and the bytes after it.
fn take_nested<'a>(wire_type: WireType, payload: &'a [u8]) -> (r: Result<
    (&'a [u8], &'a [u8]),
    WireError,
>)
    ensures
        match r {
            Ok((body, rest)) => parse_nested(wire_type, payload@) matches Some((b, n)) && body@
                == b && n <= payload@.len() && rest@ == payload@.skip(n as int),
            Err(_) => parse_nested(wire_type, payload@) is None,
        },
{
    match wire_type {
        WireType::LengthDelimited => {},
        _ => {
            return Err(WireError);
        },
    }
    let (len, after) = match decode_varint(payload) {
        Ok(found) => found,
        Err(_) => {
            return Err(WireError);
        },
    };
    if len > after.len() as u64 {
        return Err(WireError);
    }
    let (body, rest) = after.split_at(len as usize);
    Ok((body, rest))
}

impl EchoMessage {
    /// Reads the fields in `buf` into this echo payload and gives it back.
    /// A text in `buf` takes the place of the one held; an error is given
    /// exactly when `buf` is no run of fields of an echo payload.
    pub fn merge(self, buf: &[u8]) -> (r: Result<EchoMessage, WireError>)
        ensures
            match r {
                Ok(echo) => merge_echo_fields(self@, buf@) == Some(echo@),
                Err(_) => merge_echo_fields(self@, buf@) is None,
            },
    {
        let mut echo = self;
        let mut rest = buf;
        while rest.len() > 0
            invariant
                merge_echo_fields(echo@, rest@) == merge_echo_fields(self@, buf@),
            decreases rest@.len(),
        {
            proof {
                lemma_parse_key_bounds(rest@);
            }
            let (tag, wire_type, payload) = match decode_key(rest) {
                Ok(key) => key,
                Err(_) => {
                    return Err(WireError);
                },
            };
            if tag == CONTENT_TAG {
                match merge_string(wire_type, payload) {
                    Ok((content, after)) => {
                        echo = EchoMessage { content };
                        rest = after;
                    },
                    Err(_) => {
                        return Err(WireError);
                    },
                }
            } else {
                match skip_field(wire_type, tag, payload) {
                    Ok(after) => {
                        rest = after;
                    },
                    Err(_) => {
                        return Err(WireError);
                    },
                }
            }
        }
        Ok(echo)
    }
}

impl AddRequest {
    /// Reads the fields in `buf` into this add request and gives it back.
    /// An integer in `buf` takes the place of the one held; an error is
    /// given exactly when `buf` is no run of fields of an add request.
    pub fn merge(self, buf: &[u8]) -> (r: Result<AddRequest, WireError>)
        ensures
            match r {
                Ok(request) => merge_add_request_fields(self, buf@) == Some(request),
                Err(_) => merge_add_request_fields(self, buf@) is None,
            },
    {
        let mut request = self;
        let mut rest = buf;
        while rest.len() > 0
            invariant
                merge_add_request_fields(request, rest@) == merge_add_request_fields(self, buf@),
            decreases rest@.len(),
        {
            proof {
                lemma_parse_key_bounds(rest@);
            }
            let (tag, wire_type, payload) = match decode_key(rest) {
                Ok(key) => key,
                Err(_) => {
                    return Err(WireError);
                },
            };
            if tag == A_TAG || tag == B_TAG {
                match merge_int32(wire_type, payload) {
                    Ok((value, after)) => {
                        if tag == A_TAG {
                            request = AddRequest { a: value, b: request.b };
                        } else {
                            request = AddRequest { a: request.a, b: value };
                        }
                        rest = after;
                    },
                    Err(_) => {
                        return Err(WireError);
                    },
                }
            } else {
                match skip_field(wire_type, tag, payload) {
                    Ok(after) => {
                        rest = after;
                    },
                    Err(_) => {
                        return Err(WireError);
                    },
                }
            }
        }
        Ok(request)
    }
}

impl ClientMessage {
    /// Reads the fields in `buf` into this message and gives it back.
    ///
    /// A payload in `buf` of the kind that the message holds is read into
    /// what it holds; a payload of the other kind takes its place. Fields
    /// that no message of this kind has are passed over. An error is given
    /// exactly when `buf` is no run of fields of a client message.
    pub fn merge(self, buf: &[u8]) -> (r: Result<ClientMessage, WireError>)
        ensures
            match r {
                Ok(message) => merge_client_fields(self@, buf@) == Some(message@),
                Err(_) => merge_client_fields(self@, buf@) is None,
            },
    {
        let mut message = self;
        let mut rest = buf;
        while rest.len() > 0
            invariant
                merge_client_fields(message@, rest@) == merge_client_fields(self@, buf@),
            decreases rest@.len(),
        {
            proof {
                lemma_parse_key_bounds(rest@);
            }
            let (tag, wire_type, payload) = match decode_key(rest) {
                Ok(key) => key,
                Err(_) => {
                    return Err(WireError);
                },
            };
            if tag == ECHO_TAG {
                let (body, after) = match take_nested(wire_type, payload) {
                    Ok(parts) => parts,
                    Err(_) => {
                        return Err(WireError);
                    },
                };
                let start = match message {
                    ClientMessage::Echo(echo) => echo,
                    _ => EchoMessage { content: String::new() },
                };
                match start.merge(body) {
                    Ok(echo) => {
                        message = ClientMessage::Echo(echo);
                    },
                    Err(_) => {
                        return Err(WireError);
                    },
                }
                rest = after;
            } else if tag == ADD_TAG {
                let (body, after) = match take_nested(wire_type, payload) {
                    Ok(parts) => parts,
                    Err(_) => {
                        return Err(WireError);
                    },
                };
                let start = match message {
                    ClientMessage::Add(request) => request,
                    _ => AddRequest { a: 0, b: 0 },
                };
                match start.merge(body) {
                    Ok(request) => {
                        message = ClientMessage::Add(request);
                    },
                    Err(_) => {
                        return Err(WireError);
                    },
                }
                rest = after;
            } else {
                match skip_field(wire_type, tag, payload) {
                    Ok(after) => {
                        rest = after;
                    },
                    Err(_) => {
                        return Err(WireError);
                    },
                }
            }
        }
        Ok(message)
    }

    /// Reads a client message from `buf`, which is taken whole.
    ///
    /// Gives the message exactly when `buf` is the byte form of one, and an
    /// error otherwise: when a key or a payload is cut short or wrong, when a
    /// known field comes with the wrong wire type, or when a text is not
    /// valid UTF-8. An empty `buf` is the message with no payload set.
    pub fn decode(buf: &[u8]) -> (r: Result<ClientMessage, WireError>)
        ensures
            match r {
                Ok(message) => parse_client_message(buf@) == Some(message@),
                Err(_) => parse_client_message(buf@) is None,
            },
    {
        ClientMessage::Unset.merge(buf)
    }
}

impl AddResponse {
    /// Reads the fields in `buf` into this add response and gives it back.
    /// A sum in `buf` takes the place of the one held; an error is given
    /// exactly when `buf` is no run of fields of an add response.
    pub fn merge(self, buf: &[u8]) -> (r: Result<AddResponse, WireError>)
        ensures
            match r {
                Ok(response) => merge_add_response_fields(self, buf@) == Some(response),
                Err(_) => merge_add_response_fields(self, buf@) is None,
            },
    {
        let mut response = self;
        let mut rest = buf;
        while rest.len() > 0
            invariant
                merge_add_response_fields(response, rest@) == merge_add_response_fields(
                    self,
                    buf@,
                ),
            decreases rest@.len(),
        {
            proof {
                lemma_parse_key_bounds(rest@);
            }
            let (tag, wire_type, payload) = match decode_key(rest) {
                Ok(key) => key,
                Err(_) => {
                    return Err(WireError);
                },
            };
            if tag == RESULT_TAG {
                match merge_int32(wire_type, payload) {
                    Ok((value, after)) => {
                        response = AddResponse { result: value };
                        rest = after;
                    },
                    Err(_) => {
                        return Err(WireError);
                    },
                }
            } else {
                match skip_field(wire_type, tag, payload) {
                    Ok(after) => {
                        rest = after;
                    },
                    Err(_) => {
                        return Err(WireError);
                    },
                }
            }
        }
        Ok(response)
    }
}

impl ServerMessage {
    /// Reads the fields in `buf` into this message and gives it back.
    ///
    /// A payload in `buf` of the kind that the message holds is read into
    /// what it holds; a payload of the other kind takes its place. Fields
    /// that no message of this kind has are passed over. An error is given
    /// exactly when `buf` is no run of fields of a server message.
    pub fn merge(self, buf: &[u8]) -> (r: Result<ServerMessage, WireError>)
        ensures
            match r {
                Ok(message) => merge_server_fields(self@, buf@) == Some(message@),
                Err(_) => merge_server_fields(self@, buf@) is None,
            },
    {
        let mut message = self;
        let mut rest = buf;
        while rest.len() > 0
            invariant
                merge_server_fields(message@, rest@) == merge_server_fields(self@, buf@),
            decreases rest@.len(),
        {
            proof {
                lemma_parse_key_bounds(rest@);
            }
            let (tag, wire_type, payload) = match decode_key(rest) {
                Ok(key) => key,
                Err(_) => {
                    return Err(WireError);
                },
            };
            if tag == ECHO_TAG {
                let (body, after) = match take_nested(wire_type, payload) {
                    Ok(parts) => parts,
                    Err(_) => {
                        return Err(WireError);
                    },
                };
                let start = match message {
                    ServerMessage::Echo(echo) => echo,
                    _ => EchoMessage { content: String::new() },
                };
                match start.merge(body) {
                    Ok(echo) => {
                        message = ServerMessage::Echo(echo);
                    },
                    Err(_) => {
                        return Err(WireError);
                    },
                }
                rest = after;
            } else if tag == ADD_TAG {
                let (body, after) = match take_nested(wire_type, payload) {
                    Ok(parts) => parts,
                    Err(_) => {
                        return Err(WireError);
                    },
                };
                let start = match message {
                    ServerMessage::Add(response) => response,
                    _ => AddResponse { result: 0 },
                };
                match start.merge(body) {
                    Ok(response) => {
                        message = ServerMessage::Add(response);
                    },
                    Err(_) => {
                        return Err(WireError);
                    },
                }
                rest = after;
            } else {
                match skip_field(wire_type, tag, payload) {
                    Ok(after) => {
                        rest = after;
                    },
                    Err(_) => {
                        return Err(WireError);
                    },
                }
            }
        }
        Ok(message)
    }

    /// Reads a server message from `buf`, which is taken whole.
    ///
    /// Gives the message exactly when `buf` is the byte form of one, and an
    /// error otherwise: when a key or a payload is cut short or wrong, when a
    /// known field comes with the wrong wire type, or when a text is not
    /// valid UTF-8. An empty `buf` is the message with no payload set.
    pub fn decode(buf: &[u8]) -> (r: Result<ServerMessage, WireError>)
        ensures
            match r {
                Ok(message) => parse_server_message(buf@) == Some(message@),
                Err(_) => parse_server_message(buf@) is None,
            },
    {
        ServerMessage::Unset.merge(buf)
    }
}

// ---------------------------------------------------------------------------
// Writing: the byte form
// ---------------------------------------------------------------------------

/// The bytes of a field that holds a message: key, then the bytes of the
/// inner message as a length-delimited payload.
pub open spec fn nested_field_bytes(tag: nat, body: Seq<u8>) -> Seq<u8> {
    key_bytes(tag, WireType::LengthDelimited) + delimited_bytes(body)
}

/// The bytes of an echo payload: its text as a string field, or nothing
/// where the text is empty.
pub open spec fn echo_body_bytes(content: Seq<char>) -> Seq<u8> {
    if content.len() == 0 {
        Seq::empty()
    } else {
        string_field_bytes(CONTENT_TAG as nat, content)
    }
}

/// The bytes of an add request: each integer that is not zero as a field,
/// the first before the second.
pub open spec fn add_request_body_bytes(request: AddRequest) -> Seq<u8> {
    let first = if request.a != 0 {
        int32_field_bytes(A_TAG as nat, request.a)
    } else {
        Seq::empty()
    };
    let second = if request.b != 0 {
        int32_field_bytes(B_TAG as nat, request.b)
    } else {
        Seq::empty()
    };
    first + second
}

/// The bytes of an add response: the sum as a field, or nothing where it is
/// zero.
pub open spec fn add_response_body_bytes(response: AddResponse) -> Seq<u8> {
    if response.result != 0 {
        int32_field_bytes(RESULT_TAG as nat, response.result)
    } else {
        Seq::empty()
    }
}

/// The bytes that a client message is written as.
pub open spec fn client_message_bytes(message: ClientMessageView) -> Seq<u8> {
    match message {
        ClientMessageView::Unset => Seq::empty(),
        ClientMessageView::Echo(content) => nested_field_bytes(
            ECHO_TAG as nat,
            echo_body_bytes(content),
        ),
        ClientMessageView::Add(request) => nested_field_bytes(
            ADD_TAG as nat,
            add_request_body_bytes(request),
        ),
    }
}

/// The bytes that a server message is written as.
pub open spec fn server_message_bytes(message: ServerMessageView) -> Seq<u8> {
    match message {
        ServerMessageView::Unset => Seq::empty(),
        ServerMessageView::Echo(content) => nested_field_bytes(
            ECHO_TAG as nat,
            echo_body_bytes(content),
        ),
        ServerMessageView::Add(response) => nested_field_bytes(
            ADD_TAG as nat,
            add_response_body_bytes(response),
        ),
    }
}

/// Whether the lengths inside the byte form of a client message fit the 64
/// bits that a length is written in. Every message that a program holds
/// does: see [`ClientMessage::encode_to_vec`].
pub open spec fn client_message_fits(message: ClientMessageView) -> bool {
    match message {
        ClientMessageView::Echo(content) => echo_body_bytes(content).len() <= u64::MAX,
        _ => true,
    }
}

/// Whether the lengths inside the byte form of a server message fit the 64
/// bits that a length is written in. Every message that a program holds
/// does: see [`ServerMessage::encode_to_vec`].
pub open spec fn server_message_fits(message: ServerMessageView) -> bool {
    match message {
        ServerMessageView::Echo(content) => echo_body_bytes(content).len() <= u64::MAX,
        _ => true,
    }
}

// ---------------------------------------------------------------------------
// Writing: the code
// ---------------------------------------------------------------------------

/// Writes an echo payload.
fn echo_body(echo: &EchoMessage) -> (body: Vec<u8>)
    ensures
        body@ == echo_body_bytes(echo@),
        echo_body_bytes(echo@).len() <= usize::MAX,
{
    let mut body = Vec::new();
    if !echo.content.as_str().is_empty() {
        encode_string(CONTENT_TAG, &echo.content, &mut body);
    }
    assert(body@.len() == body.len());
    body
}

/// Writes an add request.
fn add_request_body(request: AddRequest) -> (body: Vec<u8>)
    ensures
        body@ == add_request_body_bytes(request),
{
    let mut body = Vec::new();
    if request.a != 0 {
        encode_int32(A_TAG, request.a, &mut body);
    }
    if request.b != 0 {
        encode_int32(B_TAG, request.b, &mut body);
    }
    body
}

/// Writes an add response.
fn add_response_body(response: AddResponse) -> (body: Vec<u8>)
    ensures
        body@ == add_response_body_bytes(response),
{
    let mut body = Vec::new();
    if response.result != 0 {
        encode_int32(RESULT_TAG, response.result, &mut body);
    }
    body
}

/// Writes field `tag` holding the inner message `body`.
fn nested_field(tag: u32, body: Vec<u8>) -> (out: Vec<u8>)
    requires
        tag == ECHO_TAG || tag == ADD_TAG,
    ensures
        out@ == nested_field_bytes(tag as nat, body@),
{
    let mut body = body;
    let mut out = Vec::new();
    encode_key(tag, WireType::LengthDelimited, &mut out);
    encode_varint(body.len() as u64, &mut out);
    out.append(&mut body);
    out
}

impl ClientMessage {
    /// Writes the message to a new byte vector. A message with no payload
    /// set is written as no bytes.
    pub fn encode_to_vec(&self) -> (out: Vec<u8>)
        ensures
            out@ == client_message_bytes(self@),
            client_message_fits(self@),
    {
        match self {
            ClientMessage::Unset => Vec::new(),
            ClientMessage::Echo(echo) => nested_field(ECHO_TAG, echo_body(echo)),
            ClientMessage::Add(request) => nested_field(ADD_TAG, add_request_body(*request)),
        }
    }
}

impl ServerMessage {
    /// Writes the message to a new byte vector. A message with no payload
    /// set is written as no bytes.
    pub fn encode_to_vec(&self) -> (out: Vec<u8>)
        ensures
            out@ == server_message_bytes(self@),
            server_message_fits(self@),
    {
        match self {
            ServerMessage::Unset => Vec::new(),
            ServerMessage::Echo(echo) => nested_field(ECHO_TAG, echo_body(echo)),
            ServerMessage::Add(response) => nested_field(ADD_TAG, add_response_body(*response)),
        }
    }
}

} // verus!
