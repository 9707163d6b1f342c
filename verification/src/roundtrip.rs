//! What holds of the byte form of the messages: what is written reads back,
//! and what is cut short does not read.

use crate::codec::{
    add_request_body_bytes, add_response_body_bytes, client_message_bytes, client_message_fits,
    echo_body_bytes, server_message_fits,
    merge_add_request_fields, merge_add_response_fields, merge_client_fields,
    merge_client_payload, merge_echo_fields, merge_server_fields, merge_server_payload,
    nested_field_bytes, parse_client_message, parse_server_message, server_message_bytes,
    ADD_TAG, A_TAG, B_TAG, CONTENT_TAG, ECHO_TAG, RESULT_TAG,
};
use crate::message::{AddRequest, AddResponse, ClientMessageView, ServerMessageView};
use crate::wire::{
    delimited_bytes, int32_field_bytes, key_bytes, lemma_delimited_cut_short,
    lemma_delimited_reads_back, lemma_int32_reads_back, lemma_key_reads_back,
    lemma_varint_bytes_len, lemma_varint_reads_back, string_field_bytes, varint_bytes,
    varint_of_int32, WireType,
};
use vstd::prelude::*;
use vstd::utf8::{encode_utf8, encode_utf8_decode_utf8, encode_utf8_valid_utf8};

verus! {

// ---------------------------------------------------------------------------
// What is written reads back
// ---------------------------------------------------------------------------

/// Reading a text field that was written, whatever follows it, puts the text
/// in place of what stood there and goes on with what follows.
pub proof fn lemma_content_field_reads_back(start: Seq<char>, content: Seq<char>, rest: Seq<u8>)
    requires
        encode_utf8(content).len() <= u64::MAX,
    ensures
        merge_echo_fields(start, string_field_bytes(CONTENT_TAG as nat, content) + rest)
            == merge_echo_fields(content, rest),
{
    let text = encode_utf8(content);
    let key = key_bytes(CONTENT_TAG as nat, WireType::LengthDelimited);
    let bytes = string_field_bytes(CONTENT_TAG as nat, content) + rest;
    lemma_key_reads_back(CONTENT_TAG as nat, WireType::LengthDelimited, delimited_bytes(text) + rest);
    let payload = bytes.skip(key.len() as int);
    assert(payload =~= delimited_bytes(text) + rest);
    lemma_delimited_reads_back(text, rest);
    encode_utf8_valid_utf8(content);
    encode_utf8_decode_utf8(content);
    assert(payload.skip(delimited_bytes(text).len() as int) =~= rest);
}

/// Reading an integer field of an add request that was written, whatever
/// follows it, puts the integer in its place and goes on with what follows.
pub proof fn lemma_int32_field_reads_back(
    start: AddRequest,
    tag: nat,
    value: i32,
    rest: Seq<u8>,
)
    requires
        tag == A_TAG || tag == B_TAG,
    ensures
        merge_add_request_fields(start, int32_field_bytes(tag, value) + rest)
            == merge_add_request_fields(
            if tag == A_TAG {
                AddRequest { a: value, b: start.b }
            } else {
                AddRequest { a: start.a, b: value }
            },
            rest,
        ),
{
    let number = varint_bytes(varint_of_int32(value));
    let key = key_bytes(tag, WireType::Varint);
    let bytes = int32_field_bytes(tag, value) + rest;
    lemma_key_reads_back(tag, WireType::Varint, number + rest);
    let payload = bytes.skip(key.len() as int);
    assert(payload =~= number + rest);
    lemma_int32_reads_back(value);
    lemma_varint_reads_back(varint_of_int32(value), rest);
    assert(payload.skip(number.len() as int) =~= rest);
}

/// Reading a field that holds a message and was written, whatever follows
/// it, reads the inner message into the message at hand and goes on with
/// what follows.
pub proof fn lemma_nested_field_reads_back(
    start: ClientMessageView,
    tag: nat,
    body: Seq<u8>,
    rest: Seq<u8>,
)
    requires
        tag == ECHO_TAG || tag == ADD_TAG,
        body.len() <= u64::MAX,
    ensures
        merge_client_fields(start, nested_field_bytes(tag, body) + rest) == match merge_client_payload(
            start,
            tag,
            body,
        ) {
            Some(merged) => merge_client_fields(merged, rest),
            None => None,
        },
{
    let key = key_bytes(tag, WireType::LengthDelimited);
    let bytes = nested_field_bytes(tag, body) + rest;
    lemma_key_reads_back(tag, WireType::LengthDelimited, delimited_bytes(body) + rest);
    let payload = bytes.skip(key.len() as int);
    assert(payload =~= delimited_bytes(body) + rest);
    lemma_delimited_reads_back(body, rest);
    assert(payload.skip(delimited_bytes(body).len() as int) =~= rest);
}

/// The bytes of an echo payload read back as its text.
pub proof fn lemma_echo_body_reads_back(content: Seq<char>)
    requires
        echo_body_bytes(content).len() <= u64::MAX,
    ensures
        merge_echo_fields(Seq::empty(), echo_body_bytes(content)) == Some(content),
{
    if content.len() > 0 {
        lemma_content_field_reads_back(Seq::empty(), content, Seq::empty());
    }
}

/// The bytes of an add request read back as the request.
pub proof fn lemma_add_request_body_reads_back(request: AddRequest)
    ensures
        merge_add_request_fields(AddRequest { a: 0, b: 0 }, add_request_body_bytes(request))
            == Some(request),
{
    let start = AddRequest { a: 0, b: 0 };
    let second = if request.b != 0 {
        int32_field_bytes(B_TAG as nat, request.b)
    } else {
        Seq::empty()
    };
    let middle = AddRequest { a: request.a, b: 0 };
    assert(merge_add_request_fields(middle, second) == Some(request)) by {
        if request.b != 0 {
            lemma_int32_field_reads_back(middle, B_TAG as nat, request.b, Seq::empty());
        }
    }
    if request.a != 0 {
        lemma_int32_field_reads_back(start, A_TAG as nat, request.a, second);
    }
}

/// What is written reads back: the bytes that a client message is written
/// as are read as that message.
pub proof fn lemma_client_message_reads_back(message: ClientMessageView)
    requires
        client_message_fits(message),
    ensures
        parse_client_message(client_message_bytes(message)) == Some(message),
{
    match message {
        ClientMessageView::Unset => {},
        ClientMessageView::Echo(content) => {
            let body = echo_body_bytes(content);
            lemma_echo_body_reads_back(content);
            lemma_nested_field_reads_back(
                ClientMessageView::Unset,
                ECHO_TAG as nat,
                body,
                Seq::empty(),
            );
        },
        ClientMessageView::Add(request) => {
            let body = add_request_body_bytes(request);
            lemma_add_request_body_reads_back(request);
            lemma_add_request_body_len(request);
            lemma_nested_field_reads_back(
                ClientMessageView::Unset,
                ADD_TAG as nat,
                body,
                Seq::empty(),
            );
        },
    }
}

/// An add request is written in at most 22 bytes.
pub proof fn lemma_add_request_body_len(request: AddRequest)
    ensures
        add_request_body_bytes(request).len() <= 22,
{
    lemma_int32_reads_back(request.a);
    lemma_int32_reads_back(request.b);
    lemma_varint_bytes_len(varint_of_int32(request.a));
    lemma_varint_bytes_len(varint_of_int32(request.b));
}

/// Reading the sum field of an add response that was written, whatever
/// follows it, puts the sum in its place and goes on with what follows.
pub proof fn lemma_result_field_reads_back(start: AddResponse, value: i32, rest: Seq<u8>)
    ensures
        merge_add_response_fields(start, int32_field_bytes(RESULT_TAG as nat, value) + rest)
            == merge_add_response_fields(AddResponse { result: value }, rest),
{
    let number = varint_bytes(varint_of_int32(value));
    let key = key_bytes(RESULT_TAG as nat, WireType::Varint);
    let bytes = int32_field_bytes(RESULT_TAG as nat, value) + rest;
    lemma_key_reads_back(RESULT_TAG as nat, WireType::Varint, number + rest);
    let payload = bytes.skip(key.len() as int);
    assert(payload =~= number + rest);
    lemma_int32_reads_back(value);
    lemma_varint_reads_back(varint_of_int32(value), rest);
    assert(payload.skip(number.len() as int) =~= rest);
}

/// Reading a field of a server message that holds a message and was
/// written, whatever follows it, reads the inner message into the message at
/// hand and goes on with what follows.
pub proof fn lemma_server_nested_field_reads_back(
    start: ServerMessageView,
    tag: nat,
    body: Seq<u8>,
    rest: Seq<u8>,
)
    requires
        tag == ECHO_TAG || tag == ADD_TAG,
        body.len() <= u64::MAX,
    ensures
        merge_server_fields(start, nested_field_bytes(tag, body) + rest) == match merge_server_payload(
            start,
            tag,
            body,
        ) {
            Some(merged) => merge_server_fields(merged, rest),
            None => None,
        },
{
    let key = key_bytes(tag, WireType::LengthDelimited);
    let bytes = nested_field_bytes(tag, body) + rest;
    lemma_key_reads_back(tag, WireType::LengthDelimited, delimited_bytes(body) + rest);
    let payload = bytes.skip(key.len() as int);
    assert(payload =~= delimited_bytes(body) + rest);
    lemma_delimited_reads_back(body, rest);
    assert(payload.skip(delimited_bytes(body).len() as int) =~= rest);
}

/// What is written reads back: the bytes that a server message is written
/// as are read as that message.
pub proof fn lemma_server_message_reads_back(message: ServerMessageView)
    requires
        server_message_fits(message),
    ensures
        parse_server_message(server_message_bytes(message)) == Some(message),
{
    match message {
        ServerMessageView::Unset => {},
        ServerMessageView::Echo(content) => {
            let body = echo_body_bytes(content);
            lemma_echo_body_reads_back(content);
            lemma_server_nested_field_reads_back(
                ServerMessageView::Unset,
                ECHO_TAG as nat,
                body,
                Seq::empty(),
            );
        },
        ServerMessageView::Add(response) => {
            let body = add_response_body_bytes(response);
            if response.result != 0 {
                lemma_result_field_reads_back(
                    AddResponse { result: 0 },
                    response.result,
                    Seq::empty(),
                );
            }
            lemma_int32_reads_back(response.result);
            lemma_varint_bytes_len(varint_of_int32(response.result));
            lemma_server_nested_field_reads_back(
                ServerMessageView::Unset,
                ADD_TAG as nat,
                body,
                Seq::empty(),
            );
        },
    }
}

// ---------------------------------------------------------------------------
// What is cut short does not read
// ---------------------------------------------------------------------------

/// A written client message with one or more bytes missing at the end, and
/// at least one byte left, is not read as a message: while only a part of it
/// has arrived, the reader waits.
pub proof fn lemma_client_message_cut_short(message: ClientMessageView, kept: int)
    requires
        client_message_fits(message),
        0 < kept < client_message_bytes(message).len(),
    ensures
        parse_client_message(client_message_bytes(message).take(kept)) is None,
{
    match message {
        ClientMessageView::Unset => {},
        ClientMessageView::Echo(content) => {
            lemma_nested_field_cut_short(
                ClientMessageView::Unset,
                ECHO_TAG as nat,
                echo_body_bytes(content),
                kept,
            );
        },
        ClientMessageView::Add(request) => {
            lemma_add_request_body_len(request);
            lemma_nested_field_cut_short(
                ClientMessageView::Unset,
                ADD_TAG as nat,
                add_request_body_bytes(request),
                kept,
            );
        },
    }
}

/// A written field that holds a message, with one or more bytes missing at
/// the end and at least one byte left, does not read.
pub proof fn lemma_nested_field_cut_short(
    start: ClientMessageView,
    tag: nat,
    body: Seq<u8>,
    kept: int,
)
    requires
        tag == ECHO_TAG || tag == ADD_TAG,
        body.len() <= u64::MAX,
        0 < kept < nested_field_bytes(tag, body).len(),
    ensures
        merge_client_fields(start, nested_field_bytes(tag, body).take(kept)) is None,
{
    let cut = nested_field_bytes(tag, body).take(kept);
    let part = delimited_bytes(body).take(kept - 1);
    assert(cut =~= key_bytes(tag, WireType::LengthDelimited) + part);
    lemma_key_reads_back(tag, WireType::LengthDelimited, part);
    assert(cut.skip(1) =~= part);
    lemma_delimited_cut_short(body, kept - 1);
}

} // verus!
