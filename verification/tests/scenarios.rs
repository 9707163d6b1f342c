use echo_server::client::{Client, Outcome, READ_CHUNK};
use echo_server::message::{
    AddRequest, AddResponse, ClientMessage, EchoMessage, ServerMessage,
};
use echo_server::server::{Server, TaskStep, TurnOutcome};

fn echo(text: &str) -> Vec<u8> {
    ClientMessage::Echo(EchoMessage::new(String::from(text))).encode_to_vec()
}

fn add(a: i32, b: i32) -> Vec<u8> {
    ClientMessage::Add(AddRequest { a, b }).encode_to_vec()
}

#[test]
fn echo_ping_is_answered_with_ping() {
    let bytes = echo("ping");
    assert_eq!(bytes, vec![0x0a, 0x06, 0x0a, 0x04, b'p', b'i', b'n', b'g']);
    let mut client = Client::new();
    let outcome = client.handle(&bytes);
    assert_eq!(
        outcome,
        Outcome::Reply(vec![0x0a, 0x06, 0x0a, 0x04, b'p', b'i', b'n', b'g'])
    );
    assert_eq!(client.buffered(), 0);
}

#[test]
fn add_two_and_three_is_answered_with_five() {
    let bytes = add(2, 3);
    assert_eq!(bytes, vec![0x12, 0x04, 0x08, 0x02, 0x10, 0x03]);
    let mut client = Client::new();
    assert_eq!(
        client.handle(&bytes),
        Outcome::Reply(vec![0x12, 0x02, 0x08, 0x05])
    );
    assert_eq!(client.buffered(), 0);
}

#[test]
fn message_without_payload_gets_no_reply_and_keeps_the_connection() {
    // Field 3 is known to nobody: the bytes are a message with no payload set.
    let unset = vec![0x18, 0x01];
    let mut client = Client::new();
    assert_eq!(client.handle(&unset), Outcome::Empty);
    assert_eq!(client.buffered(), 0);
    assert_eq!(client.handle(&echo("still here")), Outcome::Reply(echo("still here")));
    assert_eq!(
        client.handle(&add(40, 2)),
        Outcome::Reply(vec![0x12, 0x02, 0x08, 42])
    );
}

#[test]
fn echo_reply_holds_the_same_bytes_as_the_request() {
    let texts = [
        "",
        "a",
        "hello, world",
        "zażółć gęślą jaźń",
        "日本語のテキスト",
        "\u{1F980} crab \u{10FFFF}",
        "line\nbreak\ttab\0nul",
    ];
    for text in texts {
        let request = echo(text);
        let mut client = Client::new();
        assert_eq!(client.handle(&request), Outcome::Reply(request.clone()));
        assert_eq!(client.buffered(), 0);
    }
}

#[test]
fn echo_of_the_empty_text_is_two_bytes() {
    let request = echo("");
    assert_eq!(request, vec![0x0a, 0x00]);
    let mut client = Client::new();
    assert_eq!(client.handle(&request), Outcome::Reply(vec![0x0a, 0x00]));
}

#[test]
fn echo_of_a_long_text_has_two_byte_lengths() {
    let text = "x".repeat(300);
    let request = echo(&text);
    // inner length 300 = 0xac 0x02, outer length 303 = 0xaf 0x02
    assert_eq!(&request[..6], &[0x0a, 0xaf, 0x02, 0x0a, 0xac, 0x02]);
    assert_eq!(request.len(), 306);
    assert!(request[6..].iter().all(|byte| *byte == b'x'));
    let mut client = Client::new();
    assert_eq!(client.handle(&request), Outcome::Reply(request.clone()));
}

#[test]
fn add_without_overflow() {
    let cases = [
        (0, 0, 0),
        (1, 0, 1),
        (0, 1, 1),
        (2, 3, 5),
        (-2, -3, -5),
        (-7, 7, 0),
        (1_000_000, 2_000_000, 3_000_000),
        (i32::MAX, 0, i32::MAX),
        (i32::MIN, 0, i32::MIN),
        (i32::MAX, i32::MIN, -1),
        (i32::MAX - 1, 1, i32::MAX),
        (i32::MIN + 1, -1, i32::MIN),
    ];
    for (a, b, sum) in cases {
        let mut client = Client::new();
        let expected = ServerMessage::Add(AddResponse { result: sum }).encode_to_vec();
        assert_eq!(client.handle(&add(a, b)), Outcome::Reply(expected), "{a} + {b}");
    }
}

#[test]
fn add_wraps_on_overflow() {
    let cases = [
        (i32::MAX, 1, i32::MIN),
        (i32::MAX, i32::MAX, -2),
        (i32::MIN, -1, i32::MAX),
        (i32::MIN, i32::MIN, 0),
        (2_000_000_000, 2_000_000_000, -294_967_296),
    ];
    for (a, b, sum) in cases {
        let mut client = Client::new();
        let expected = ServerMessage::Add(AddResponse { result: sum }).encode_to_vec();
        assert_eq!(client.handle(&add(a, b)), Outcome::Reply(expected), "{a} + {b}");
    }
}

#[test]
fn add_reply_bytes_for_a_negative_sum() {
    let mut client = Client::new();
    // -1 travels as the ten-byte varint of 2^64 - 1
    assert_eq!(
        client.handle(&add(1, -2)),
        Outcome::Reply(vec![
            0x12, 0x0b, 0x08, 0xff, 0xff, 0xff, 0xff, 0xff, 0xff, 0xff, 0xff, 0xff, 0x01
        ])
    );
}

#[test]
fn add_reply_for_sum_zero_has_an_empty_body() {
    let mut client = Client::new();
    assert_eq!(client.handle(&add(5, -5)), Outcome::Reply(vec![0x12, 0x00]));
}

#[test]
fn same_message_twice_gets_two_replies() {
    let request = echo("twice");
    let mut client = Client::new();
    assert_eq!(client.handle(&request), Outcome::Reply(request.clone()));
    assert_eq!(client.buffered(), 0);
    assert_eq!(client.handle(&request), Outcome::Reply(request.clone()));
    assert_eq!(client.buffered(), 0);

    let request = add(20, 22);
    assert_eq!(
        client.handle(&request),
        Outcome::Reply(vec![0x12, 0x02, 0x08, 42])
    );
    assert_eq!(
        client.handle(&request),
        Outcome::Reply(vec![0x12, 0x02, 0x08, 42])
    );
}

#[test]
fn message_in_two_parts_gets_one_reply_at_the_end() {
    let request = echo("split me");
    for cut in 1..request.len() {
        let mut client = Client::new();
        assert_eq!(client.handle(&request[..cut]), Outcome::Pending, "cut at {cut}");
        assert_eq!(client.buffered(), cut);
        assert_eq!(
            client.handle(&request[cut..]),
            Outcome::Reply(request.clone()),
            "cut at {cut}"
        );
        assert_eq!(client.buffered(), 0);
    }
}

#[test]
fn message_byte_by_byte_gets_one_reply_at_the_end() {
    let request = add(-100, 30);
    let mut client = Client::new();
    let mut replies = 0;
    for (index, byte) in request.iter().enumerate() {
        let outcome = client.handle(&[*byte]);
        if index + 1 < request.len() {
            assert_eq!(outcome, Outcome::Pending);
            assert_eq!(client.buffered(), index + 1);
        } else {
            let expected = ServerMessage::Add(AddResponse { result: -70 }).encode_to_vec();
            assert_eq!(outcome, Outcome::Reply(expected));
            replies += 1;
        }
    }
    assert_eq!(replies, 1);
    assert_eq!(client.buffered(), 0);
}

#[test]
fn message_longer_than_one_read_arrives_in_chunks() {
    let text = "0123456789".repeat(120);
    let request = echo(&text);
    assert!(request.len() > 2 * READ_CHUNK);
    let mut client = Client::new();
    let mut chunks = request.chunks(READ_CHUNK).peekable();
    while let Some(chunk) = chunks.next() {
        let outcome = client.handle(chunk);
        if chunks.peek().is_some() {
            assert_eq!(outcome, Outcome::Pending);
        } else {
            assert_eq!(outcome, Outcome::Reply(request.clone()));
        }
    }
    assert_eq!(client.buffered(), 0);
}

#[test]
fn read_of_no_bytes_disconnects() {
    let mut client = Client::new();
    assert_eq!(client.handle(&[]), Outcome::Disconnected);
    assert_eq!(client.buffered(), 0);
}

#[test]
fn read_of_no_bytes_leaves_what_is_held() {
    let request = echo("half");
    let mut client = Client::new();
    assert_eq!(client.handle(&request[..3]), Outcome::Pending);
    assert_eq!(client.handle(&[]), Outcome::Disconnected);
    assert_eq!(client.buffered(), 3);
}

#[test]
fn bytes_that_are_no_message_are_kept() {
    let mut client = Client::new();
    // key of field 1 with wire type 7, which does not exist
    assert_eq!(client.handle(&[0x0f]), Outcome::Pending);
    assert_eq!(client.buffered(), 1);
    assert_eq!(client.handle(&[0x00, 0x00]), Outcome::Pending);
    assert_eq!(client.buffered(), 3);
}

#[test]
fn bytes_after_a_message_in_the_same_read_are_part_of_it() {
    // Two echo requests in one read are read as one message: the later text
    // stands, one reply goes out, and nothing is kept.
    let mut both = echo("first");
    both.extend_from_slice(&echo("second"));
    let mut client = Client::new();
    assert_eq!(client.handle(&both), Outcome::Reply(echo("second")));
    assert_eq!(client.buffered(), 0);
}

#[test]
fn new_client_holds_nothing() {
    assert_eq!(Client::new().buffered(), 0);
}

#[test]
fn replies_read_as_the_answers() {
    let mut client = Client::new();
    match client.handle(&echo("what a client finds")) {
        Outcome::Reply(bytes) => assert_eq!(
            ServerMessage::decode(&bytes),
            Ok(ServerMessage::Echo(EchoMessage::new(String::from("what a client finds"))))
        ),
        other => panic!("no reply: {other:?}"),
    }
    match client.handle(&add(i32::MAX, 1)) {
        Outcome::Reply(bytes) => assert_eq!(
            ServerMessage::decode(&bytes),
            Ok(ServerMessage::Add(AddResponse { result: i32::MIN }))
        ),
        other => panic!("no reply: {other:?}"),
    }
}

#[test]
fn respond_builds_the_reply() {
    assert_eq!(Client::respond(ClientMessage::Unset), None);
    assert_eq!(
        Client::respond(ClientMessage::Echo(EchoMessage::new(String::from("ping")))),
        Some(ServerMessage::Echo(EchoMessage::new(String::from("ping"))))
    );
    assert_eq!(
        Client::respond(ClientMessage::Add(AddRequest { a: 2, b: 3 })),
        Some(ServerMessage::Add(AddResponse { result: 5 }))
    );
    assert_eq!(
        Client::respond(ClientMessage::Add(AddRequest { a: i32::MIN, b: -1 })),
        Some(ServerMessage::Add(AddResponse { result: i32::MAX }))
    );
}

#[test]
fn only_a_disconnect_ends_the_turns() {
    assert_eq!(Outcome::Disconnected.turn(), TurnOutcome::Disconnected);
    assert_eq!(Outcome::Pending.turn(), TurnOutcome::Handled);
    assert_eq!(Outcome::Empty.turn(), TurnOutcome::Handled);
    assert_eq!(Outcome::Reply(vec![0x12, 0x00]).turn(), TurnOutcome::Handled);
}

#[test]
fn a_connection_task_runs_to_the_disconnect() {
    // What a task does with a peer that sends an add request in two reads,
    // then a message with no payload, then an echo request, and hangs up.
    let request = add(2, 3);
    let reads: Vec<Option<Vec<u8>>> = vec![
        None,
        Some(request[..2].to_vec()),
        None,
        Some(request[2..].to_vec()),
        Some(vec![0x18, 0x01]),
        Some(echo("bye")),
        Some(Vec::new()),
    ];
    let mut server = Server::new();
    server.run();
    let mut client = Client::new();
    let mut sent: Vec<Vec<u8>> = Vec::new();
    let mut waited = 0;
    let mut turns = 0;
    for read in reads {
        assert!(server.is_running());
        turns += 1;
        let turn = match read {
            None => TurnOutcome::WouldBlock,
            Some(bytes) => {
                let outcome = client.handle(&bytes);
                if let Outcome::Reply(reply) = &outcome {
                    sent.push(reply.clone());
                }
                outcome.turn()
            }
        };
        match Server::on_turn(turn) {
            TaskStep::Continue => {}
            TaskStep::Wait { millis } => waited += millis,
            TaskStep::Close => break,
        }
    }
    assert_eq!(turns, 7);
    assert_eq!(waited, 20);
    assert_eq!(sent, vec![vec![0x12, 0x02, 0x08, 0x05], echo("bye")]);
}

#[test]
fn many_requests_on_one_connection_are_answered_in_order() {
    let mut client = Client::new();
    let mut state: u64 = 0x2545_f491_4f6c_dd1d;
    let mut next = || {
        state ^= state << 13;
        state ^= state >> 7;
        state ^= state << 17;
        state
    };
    for round in 0..2_000 {
        let a = next() as i32;
        let b = next() as i32;
        if round % 3 == 0 {
            let text = format!("round {round}: {a} {b}");
            let request = echo(&text);
            assert_eq!(client.handle(&request), Outcome::Reply(request.clone()));
        } else {
            let request = add(a, b);
            assert_eq!(ClientMessage::decode(&request), Ok(ClientMessage::Add(AddRequest { a, b })));
            let reply = ServerMessage::Add(AddResponse { result: a.wrapping_add(b) });
            assert_eq!(client.handle(&request), Outcome::Reply(reply.encode_to_vec()));
            let cut = 1 + (next() as usize) % (request.len() - 1);
            assert_eq!(client.handle(&request[..cut]), Outcome::Pending);
            assert_eq!(client.handle(&request[cut..]), Outcome::Reply(reply.encode_to_vec()));
        }
        assert_eq!(client.buffered(), 0);
    }
}
