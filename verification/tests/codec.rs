use echo_server::message::{
    AddRequest, AddResponse, ClientMessage, EchoMessage, ServerMessage,
};
use echo_server::wire::WireError;

fn echo(text: &str) -> ClientMessage {
    ClientMessage::Echo(EchoMessage::new(String::from(text)))
}

fn add(a: i32, b: i32) -> ClientMessage {
    ClientMessage::Add(AddRequest { a, b })
}

#[test]
fn empty_bytes_are_the_message_with_no_payload() {
    assert_eq!(ClientMessage::decode(&[]), Ok(ClientMessage::Unset));
}

#[test]
fn unset_messages_are_written_as_no_bytes() {
    assert_eq!(ClientMessage::Unset.encode_to_vec(), Vec::<u8>::new());
    assert_eq!(ServerMessage::Unset.encode_to_vec(), Vec::<u8>::new());
}

#[test]
fn client_messages_read_back() {
    let messages = [
        echo(""),
        echo("ping"),
        echo("größer"),
        echo(&"y".repeat(20_000)),
        add(0, 0),
        add(1, 0),
        add(0, 1),
        add(2, 3),
        add(-1, -1),
        add(i32::MAX, i32::MIN),
        add(127, 128),
        add(16_383, 16_384),
    ];
    for message in messages {
        let bytes = message.encode_to_vec();
        assert_eq!(ClientMessage::decode(&bytes), Ok(message));
    }
}

#[test]
fn add_request_bytes() {
    assert_eq!(add(0, 0).encode_to_vec(), vec![0x12, 0x00]);
    assert_eq!(add(7, 0).encode_to_vec(), vec![0x12, 0x02, 0x08, 0x07]);
    assert_eq!(add(0, 7).encode_to_vec(), vec![0x12, 0x02, 0x10, 0x07]);
    assert_eq!(
        add(300, 1).encode_to_vec(),
        vec![0x12, 0x05, 0x08, 0xac, 0x02, 0x10, 0x01]
    );
    assert_eq!(
        add(-1, 0).encode_to_vec(),
        vec![0x12, 0x0b, 0x08, 0xff, 0xff, 0xff, 0xff, 0xff, 0xff, 0xff, 0xff, 0xff, 0x01]
    );
    assert_eq!(
        add(i32::MIN, 0).encode_to_vec(),
        vec![0x12, 0x0b, 0x08, 0x80, 0x80, 0x80, 0x80, 0xf8, 0xff, 0xff, 0xff, 0xff, 0x01]
    );
    assert_eq!(
        add(i32::MAX, 0).encode_to_vec(),
        vec![0x12, 0x06, 0x08, 0xff, 0xff, 0xff, 0xff, 0x07]
    );
}

#[test]
fn server_message_bytes() {
    assert_eq!(
        ServerMessage::Echo(EchoMessage::new(String::from("ok"))).encode_to_vec(),
        vec![0x0a, 0x04, 0x0a, 0x02, b'o', b'k']
    );
    assert_eq!(
        ServerMessage::Add(AddResponse { result: 5 }).encode_to_vec(),
        vec![0x12, 0x02, 0x08, 0x05]
    );
    assert_eq!(
        ServerMessage::Add(AddResponse { result: 0 }).encode_to_vec(),
        vec![0x12, 0x00]
    );
    assert_eq!(
        ServerMessage::Add(AddResponse { result: 128 }).encode_to_vec(),
        vec![0x12, 0x03, 0x08, 0x80, 0x01]
    );
}

#[test]
fn unknown_fields_are_passed_over() {
    // field 3, varint 150
    assert_eq!(ClientMessage::decode(&[0x18, 0x96, 0x01]), Ok(ClientMessage::Unset));
    // field 4, 32 bits
    assert_eq!(ClientMessage::decode(&[0x25, 1, 2, 3, 4]), Ok(ClientMessage::Unset));
    // field 5, 64 bits
    assert_eq!(
        ClientMessage::decode(&[0x29, 1, 2, 3, 4, 5, 6, 7, 8]),
        Ok(ClientMessage::Unset)
    );
    // field 6, length-delimited, three bytes
    assert_eq!(
        ClientMessage::decode(&[0x32, 0x03, 0xff, 0xff, 0xff]),
        Ok(ClientMessage::Unset)
    );
    // field 7, a group that holds field 1 as a varint
    assert_eq!(
        ClientMessage::decode(&[0x3b, 0x08, 0x01, 0x3c]),
        Ok(ClientMessage::Unset)
    );
}

#[test]
fn unknown_fields_around_a_request_do_not_change_it() {
    let mut bytes = vec![0x18, 0x01];
    bytes.extend_from_slice(&add(2, 3).encode_to_vec());
    bytes.extend_from_slice(&[0x32, 0x01, 0x00]);
    assert_eq!(ClientMessage::decode(&bytes), Ok(add(2, 3)));
}

#[test]
fn unknown_fields_inside_a_payload_are_passed_over() {
    // echo payload: field 2 varint 9, then the text, then field 15 of 32 bits
    let body = [0x10, 0x09, 0x0a, 0x02, b'h', b'i', 0x7d, 0, 0, 0, 0];
    let mut bytes = vec![0x0a, body.len() as u8];
    bytes.extend_from_slice(&body);
    assert_eq!(ClientMessage::decode(&bytes), Ok(echo("hi")));
    // add payload: field 3 length-delimited, then a and b
    let body = [0x1a, 0x01, 0xaa, 0x08, 0x02, 0x10, 0x03];
    let mut bytes = vec![0x12, body.len() as u8];
    bytes.extend_from_slice(&body);
    assert_eq!(ClientMessage::decode(&bytes), Ok(add(2, 3)));
}

#[test]
fn unknown_field_cut_short_is_an_error() {
    assert_eq!(ClientMessage::decode(&[0x25, 1, 2, 3]), Err(WireError));
    assert_eq!(ClientMessage::decode(&[0x32, 0x03, 0xff]), Err(WireError));
    assert_eq!(ClientMessage::decode(&[0x3b, 0x08, 0x01]), Err(WireError));
    // a group closed by the end mark of another field
    assert_eq!(ClientMessage::decode(&[0x3b, 0x44]), Err(WireError));
    // an end mark with no group open
    assert_eq!(ClientMessage::decode(&[0x3c]), Err(WireError));
}

#[test]
fn later_value_of_a_field_stands() {
    // a = 1, then a = 9, b = 4
    let body = [0x08, 0x01, 0x08, 0x09, 0x10, 0x04];
    let mut bytes = vec![0x12, body.len() as u8];
    bytes.extend_from_slice(&body);
    assert_eq!(ClientMessage::decode(&bytes), Ok(add(9, 4)));
    // text "a", then text "bc"
    let body = [0x0a, 0x01, b'a', 0x0a, 0x02, b'b', b'c'];
    let mut bytes = vec![0x0a, body.len() as u8];
    bytes.extend_from_slice(&body);
    assert_eq!(ClientMessage::decode(&bytes), Ok(echo("bc")));
}

#[test]
fn fields_may_come_in_any_order() {
    let body = [0x10, 0x03, 0x08, 0x02];
    let mut bytes = vec![0x12, body.len() as u8];
    bytes.extend_from_slice(&body);
    assert_eq!(ClientMessage::decode(&bytes), Ok(add(2, 3)));
}

#[test]
fn payload_of_the_same_kind_is_read_into_the_one_held() {
    // add {a: 2}, then add {b: 3}
    let bytes = [0x12, 0x02, 0x08, 0x02, 0x12, 0x02, 0x10, 0x03];
    assert_eq!(ClientMessage::decode(&bytes), Ok(add(2, 3)));
    // echo "keep", then an echo payload without a text
    let mut bytes = echo("keep").encode_to_vec();
    bytes.extend_from_slice(&[0x0a, 0x00]);
    assert_eq!(ClientMessage::decode(&bytes), Ok(echo("keep")));
}

#[test]
fn payload_of_the_other_kind_replaces_the_one_held() {
    let mut bytes = echo("gone").encode_to_vec();
    bytes.extend_from_slice(&add(0, 3).encode_to_vec());
    assert_eq!(ClientMessage::decode(&bytes), Ok(add(0, 3)));
    let mut bytes = add(2, 3).encode_to_vec();
    bytes.extend_from_slice(&echo("").encode_to_vec());
    assert_eq!(ClientMessage::decode(&bytes), Ok(echo("")));
    // add {a: 2}, echo, add {b: 3}: the second add payload starts afresh
    let mut bytes = vec![0x12, 0x02, 0x08, 0x02];
    bytes.extend_from_slice(&echo("x").encode_to_vec());
    bytes.extend_from_slice(&[0x12, 0x02, 0x10, 0x03]);
    assert_eq!(ClientMessage::decode(&bytes), Ok(add(0, 3)));
}

#[test]
fn integers_take_the_low_32_bits_of_their_varint() {
    // a = 2^32 + 5
    let body = [0x08, 0x85, 0x80, 0x80, 0x80, 0x10];
    let mut bytes = vec![0x12, body.len() as u8];
    bytes.extend_from_slice(&body);
    assert_eq!(ClientMessage::decode(&bytes), Ok(add(5, 0)));
    // a = 2^31, which is the least 32-bit integer
    let body = [0x08, 0x80, 0x80, 0x80, 0x80, 0x08];
    let mut bytes = vec![0x12, body.len() as u8];
    bytes.extend_from_slice(&body);
    assert_eq!(ClientMessage::decode(&bytes), Ok(add(i32::MIN, 0)));
    // a = 2^64 - 1
    let body = [0x08, 0xff, 0xff, 0xff, 0xff, 0xff, 0xff, 0xff, 0xff, 0xff, 0x01];
    let mut bytes = vec![0x12, body.len() as u8];
    bytes.extend_from_slice(&body);
    assert_eq!(ClientMessage::decode(&bytes), Ok(add(-1, 0)));
}

#[test]
fn varints_need_not_be_as_short_as_can_be() {
    // a = 1, written in three bytes
    let body = [0x08, 0x81, 0x80, 0x00];
    let mut bytes = vec![0x12, body.len() as u8];
    bytes.extend_from_slice(&body);
    assert_eq!(ClientMessage::decode(&bytes), Ok(add(1, 0)));
    // the key of field 2 written in two bytes, the length in two bytes
    assert_eq!(
        ClientMessage::decode(&[0x92, 0x00, 0x82, 0x00, 0x08, 0x07]),
        Ok(add(7, 0))
    );
}

#[test]
fn varint_of_more_than_64_bits_is_an_error() {
    // tenth byte 2
    let body = [0x08, 0xff, 0xff, 0xff, 0xff, 0xff, 0xff, 0xff, 0xff, 0xff, 0x02];
    let mut bytes = vec![0x12, body.len() as u8];
    bytes.extend_from_slice(&body);
    assert_eq!(ClientMessage::decode(&bytes), Err(WireError));
    // eleven bytes
    let body = [0x08, 0x80, 0x80, 0x80, 0x80, 0x80, 0x80, 0x80, 0x80, 0x80, 0x80, 0x00];
    let mut bytes = vec![0x12, body.len() as u8];
    bytes.extend_from_slice(&body);
    assert_eq!(ClientMessage::decode(&bytes), Err(WireError));
}

#[test]
fn varint_cut_short_is_an_error() {
    assert_eq!(ClientMessage::decode(&[0x12, 0x02, 0x08, 0x80]), Err(WireError));
    assert_eq!(ClientMessage::decode(&[0x80]), Err(WireError));
    assert_eq!(ClientMessage::decode(&[0x12, 0x80]), Err(WireError));
}

#[test]
fn bad_keys_are_errors() {
    // field number 0
    assert_eq!(ClientMessage::decode(&[0x00, 0x00]), Err(WireError));
    assert_eq!(ClientMessage::decode(&[0x02, 0x00]), Err(WireError));
    // wire types 6 and 7
    assert_eq!(ClientMessage::decode(&[0x0e, 0x00]), Err(WireError));
    assert_eq!(ClientMessage::decode(&[0x0f, 0x00]), Err(WireError));
    // a key above 32 bits: 2^32 + 8
    assert_eq!(
        ClientMessage::decode(&[0x88, 0x80, 0x80, 0x80, 0x10, 0x00]),
        Err(WireError)
    );
}

#[test]
fn largest_field_number_is_passed_over() {
    // key 2^32 - 8: field 2^29 - 1, varint
    assert_eq!(
        ClientMessage::decode(&[0xf8, 0xff, 0xff, 0xff, 0x0f, 0x01]),
        Ok(ClientMessage::Unset)
    );
}

#[test]
fn known_field_with_wrong_wire_type_is_an_error() {
    // field 1 of the message as a varint
    assert_eq!(ClientMessage::decode(&[0x08, 0x01]), Err(WireError));
    // field 2 of the message as 32 bits
    assert_eq!(ClientMessage::decode(&[0x15, 0, 0, 0, 0]), Err(WireError));
    // text as a varint
    assert_eq!(ClientMessage::decode(&[0x0a, 0x02, 0x08, 0x01]), Err(WireError));
    // a as a length-delimited payload
    assert_eq!(ClientMessage::decode(&[0x12, 0x03, 0x0a, 0x01, 0x00]), Err(WireError));
    // b as 64 bits
    assert_eq!(
        ClientMessage::decode(&[0x12, 0x09, 0x11, 0, 0, 0, 0, 0, 0, 0, 0]),
        Err(WireError)
    );
}

#[test]
fn payload_longer_than_what_is_there_is_an_error() {
    assert_eq!(ClientMessage::decode(&[0x0a, 0x05, 0x0a, 0x01, b'a']), Err(WireError));
    assert_eq!(ClientMessage::decode(&[0x0a, 0x03, 0x0a, 0x02, b'a']), Err(WireError));
    assert_eq!(ClientMessage::decode(&[0x12]), Err(WireError));
    assert_eq!(ClientMessage::decode(&[0x0a]), Err(WireError));
}

#[test]
fn inner_field_that_runs_past_its_payload_is_an_error() {
    // The echo payload is said to be 3 bytes, its text to be 2: the text
    // would take one byte of what follows the payload.
    assert_eq!(
        ClientMessage::decode(&[0x0a, 0x03, 0x0a, 0x02, b'a', b'b']),
        Err(WireError)
    );
    // The add payload ends inside the varint of a.
    assert_eq!(
        ClientMessage::decode(&[0x12, 0x02, 0x08, 0x80, 0x01]),
        Err(WireError)
    );
}

#[test]
fn text_that_is_not_utf8_is_an_error() {
    assert_eq!(ClientMessage::decode(&[0x0a, 0x03, 0x0a, 0x01, 0xff]), Err(WireError));
    // an overlong form of '/'
    assert_eq!(
        ClientMessage::decode(&[0x0a, 0x04, 0x0a, 0x02, 0xc0, 0xaf]),
        Err(WireError)
    );
    // a surrogate
    assert_eq!(
        ClientMessage::decode(&[0x0a, 0x05, 0x0a, 0x03, 0xed, 0xa0, 0x80]),
        Err(WireError)
    );
    // a character cut short
    assert_eq!(
        ClientMessage::decode(&[0x0a, 0x04, 0x0a, 0x02, 0xe2, 0x82]),
        Err(WireError)
    );
    // above U+10FFFF
    assert_eq!(
        ClientMessage::decode(&[0x0a, 0x06, 0x0a, 0x04, 0xf4, 0x90, 0x80, 0x80]),
        Err(WireError)
    );
}

#[test]
fn text_of_several_bytes_a_character_is_read() {
    let bytes = [0x0a, 0x05, 0x0a, 0x03, 0xe2, 0x82, 0xac];
    assert_eq!(ClientMessage::decode(&bytes), Ok(echo("€")));
}

#[test]
fn echo_message_holds_its_content() {
    let message = EchoMessage::new(String::from("content"));
    assert_eq!(message.content, "content");
}

#[test]
fn server_messages_read_back() {
    let messages = [
        ServerMessage::Echo(EchoMessage::new(String::new())),
        ServerMessage::Echo(EchoMessage::new(String::from("pong"))),
        ServerMessage::Echo(EchoMessage::new("ü".repeat(1000))),
        ServerMessage::Add(AddResponse { result: 0 }),
        ServerMessage::Add(AddResponse { result: 5 }),
        ServerMessage::Add(AddResponse { result: -5 }),
        ServerMessage::Add(AddResponse { result: i32::MAX }),
        ServerMessage::Add(AddResponse { result: i32::MIN }),
    ];
    for message in messages {
        let bytes = message.encode_to_vec();
        assert_eq!(ServerMessage::decode(&bytes), Ok(message));
    }
}

#[test]
fn empty_bytes_are_the_server_message_with_no_payload() {
    assert_eq!(ServerMessage::decode(&[]), Ok(ServerMessage::Unset));
    assert_eq!(ServerMessage::decode(&[0x18, 0x00]), Ok(ServerMessage::Unset));
}

#[test]
fn server_message_reader_takes_the_later_sum() {
    let body = [0x08, 0x01, 0x18, 0x07, 0x08, 0x02];
    let mut bytes = vec![0x12, body.len() as u8];
    bytes.extend_from_slice(&body);
    assert_eq!(
        ServerMessage::decode(&bytes),
        Ok(ServerMessage::Add(AddResponse { result: 2 }))
    );
}

#[test]
fn server_message_reader_turns_down_what_is_wrong() {
    // the sum as a length-delimited payload
    assert_eq!(ServerMessage::decode(&[0x12, 0x02, 0x0a, 0x00]), Err(WireError));
    // the add payload as a varint
    assert_eq!(ServerMessage::decode(&[0x10, 0x05]), Err(WireError));
    // cut short
    assert_eq!(ServerMessage::decode(&[0x12, 0x02, 0x08]), Err(WireError));
    // text that is not UTF-8
    assert_eq!(ServerMessage::decode(&[0x0a, 0x03, 0x0a, 0x01, 0x80]), Err(WireError));
}

#[test]
fn merge_reads_fields_into_what_is_held() {
    assert_eq!(
        AddRequest { a: 1, b: 2 }.merge(&[0x08, 0x05]),
        Ok(AddRequest { a: 5, b: 2 })
    );
    assert_eq!(
        AddRequest { a: 1, b: 2 }.merge(&[0x10, 0x05]),
        Ok(AddRequest { a: 1, b: 5 })
    );
    assert_eq!(AddRequest { a: 1, b: 2 }.merge(&[]), Ok(AddRequest { a: 1, b: 2 }));
    assert_eq!(AddRequest { a: 1, b: 2 }.merge(&[0x08]), Err(WireError));
    assert_eq!(
        AddResponse { result: 1 }.merge(&[0x08, 0x09]),
        Ok(AddResponse { result: 9 })
    );
    assert_eq!(AddResponse { result: 1 }.merge(&[0x10, 0x09]), Ok(AddResponse { result: 1 }));
    assert_eq!(AddResponse { result: 1 }.merge(&[0x0d, 0x09]), Err(WireError));
    assert_eq!(
        EchoMessage::new(String::from("old")).merge(&[]),
        Ok(EchoMessage::new(String::from("old")))
    );
    assert_eq!(
        EchoMessage::new(String::from("old")).merge(&[0x0a, 0x03, b'n', b'e', b'w']),
        Ok(EchoMessage::new(String::from("new")))
    );
    assert_eq!(
        EchoMessage::new(String::from("old")).merge(&[0x0a, 0x03, b'n', b'e']),
        Err(WireError)
    );
}

#[test]
fn merge_reads_a_payload_into_the_message_held() {
    assert_eq!(add(2, 0).merge(&[0x12, 0x02, 0x10, 0x03]), Ok(add(2, 3)));
    assert_eq!(echo("x").merge(&[0x12, 0x02, 0x10, 0x03]), Ok(add(0, 3)));
    assert_eq!(add(2, 3).merge(&[]), Ok(add(2, 3)));
    assert_eq!(add(2, 3).merge(&[0x18, 0x01]), Ok(add(2, 3)));
    assert_eq!(add(2, 3).merge(&[0x12, 0x02]), Err(WireError));
    assert_eq!(
        ServerMessage::Add(AddResponse { result: 4 }).merge(&[0x12, 0x00]),
        Ok(ServerMessage::Add(AddResponse { result: 4 }))
    );
    assert_eq!(
        ServerMessage::Add(AddResponse { result: 4 }).merge(&[0x0a, 0x00]),
        Ok(ServerMessage::Echo(EchoMessage::new(String::new())))
    );
}
