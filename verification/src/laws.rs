//! What holds of every request and of every run of reads on a connection.

use crate::client::{handle_step, outcome_of, reply_to, turn_of, wrapping_sum, OutcomeView};
use crate::codec::{
    client_message_bytes, client_message_fits, parse_client_message, parse_server_message,
    server_message_bytes, ADD_TAG, ECHO_TAG,
};
use crate::message::{AddRequest, AddResponse, ClientMessageView, ServerMessageView};
use crate::roundtrip::{
    lemma_client_message_cut_short, lemma_client_message_reads_back,
    lemma_server_message_reads_back,
};
use crate::server::{
    accept_step, poll_step, task_step, AcceptOutcome, AcceptStep, TaskStep,
};
use crate::wire::lemma_varint_bytes_len;
use vstd::prelude::*;

verus! {

// ---------------------------------------------------------------------------
// Runs of reads
// ---------------------------------------------------------------------------

/// A run of calls of [`crate::client::Client::handle`], one for each of
/// `reads` in order, on a connection that holds `held`: the bytes it holds
/// afterwards, and the outcomes in order.
pub open spec fn handle_all(held: Seq<u8>, reads: Seq<Seq<u8>>) -> (Seq<u8>, Seq<OutcomeView>)
    decreases reads.len(),
{
    if reads.len() == 0 {
        (held, Seq::empty())
    } else {
        let (next, outcome) = handle_step(held, reads.first());
        let (last, outcomes) = handle_all(next, reads.drop_first());
        (last, seq![outcome] + outcomes)
    }
}

/// The bytes of `reads`, one read after the other.
pub open spec fn joined(reads: Seq<Seq<u8>>) -> Seq<u8>
    decreases reads.len(),
{
    if reads.len() == 0 {
        Seq::empty()
    } else {
        reads.first() + joined(reads.drop_first())
    }
}

/// `count` times the outcome that the bytes held are not a message yet.
pub open spec fn pending(count: nat) -> Seq<OutcomeView> {
    Seq::new(count, |i: int| OutcomeView::Pending)
}

// ---------------------------------------------------------------------------
// What holds of every request
// ---------------------------------------------------------------------------

/// The sum that the server computes is the mathematical sum where that fits
/// 32 bits, and differs from it by a multiple of 2^32 where it does not.
pub proof fn lemma_wrapping_sum(a: i32, b: i32)
    ensures
        i32::MIN <= a + b <= i32::MAX ==> wrapping_sum(a, b) == a + b,
        (wrapping_sum(a, b) - (a + b)) % 0x1_0000_0000 == 0,
{
}

/// Every echo request is answered with an echo response that holds the same
/// text: whatever bytes arrive, if all the bytes held are read as an echo
/// request, the reply is the byte form of the echo response with that text.
pub proof fn lemma_echo_is_answered(held: Seq<u8>, received: Seq<u8>, content: Seq<char>)
    requires
        received.len() > 0,
        parse_client_message(held + received) == Some(ClientMessageView::Echo(content)),
    ensures
        handle_step(held, received) == (
            Seq::<u8>::empty(),
            OutcomeView::Reply(server_message_bytes(ServerMessageView::Echo(content))),
        ),
{
}

/// A written echo request comes back byte for byte: the reply to the byte
/// form of an echo request is that same byte string.
pub proof fn lemma_written_echo_comes_back(content: Seq<char>)
    requires
        client_message_fits(ClientMessageView::Echo(content)),
    ensures
        handle_step(Seq::empty(), client_message_bytes(ClientMessageView::Echo(content))) == (
            Seq::<u8>::empty(),
            OutcomeView::Reply(client_message_bytes(ClientMessageView::Echo(content))),
        ),
{
    let request = ClientMessageView::Echo(content);
    let bytes = client_message_bytes(request);
    lemma_client_message_reads_back(request);
    lemma_written_message_is_not_empty(request);
}

/// Every reply reads as the answer to its request: a client that reads the
/// bytes sent in reply to an echo request finds an echo response with the
/// text of the request, and one that reads the bytes sent in reply to an add
/// request finds the wrapping sum of its integers. A message with no payload
/// set gets no reply.
pub proof fn lemma_reply_reads_as_answer(request: ClientMessageView)
    requires
        client_message_fits(request),
    ensures
        match request {
            ClientMessageView::Unset => outcome_of(request) == OutcomeView::Empty,
            ClientMessageView::Echo(content) => outcome_of(request) matches OutcomeView::Reply(
                bytes,
            ) && parse_server_message(bytes) == Some(ServerMessageView::Echo(content)),
            ClientMessageView::Add(add) => outcome_of(request) matches OutcomeView::Reply(bytes)
                && parse_server_message(bytes) == Some(
                ServerMessageView::Add(AddResponse { result: wrapping_sum(add.a, add.b) }),
            ),
        },
{
    match reply_to(request) {
        Some(reply) => {
            lemma_server_message_reads_back(reply);
        },
        None => {},
    }
}

/// Every add request is answered with the wrapping sum of its integers:
/// whatever bytes arrive, if all the bytes held are read as an add request,
/// the reply is the byte form of the add response with that sum.
pub proof fn lemma_add_is_answered(held: Seq<u8>, received: Seq<u8>, request: AddRequest)
    requires
        received.len() > 0,
        parse_client_message(held + received) == Some(ClientMessageView::Add(request)),
    ensures
        handle_step(held, received) == (
            Seq::<u8>::empty(),
            OutcomeView::Reply(
                server_message_bytes(
                    ServerMessageView::Add(
                        AddResponse { result: wrapping_sum(request.a, request.b) },
                    ),
                ),
            ),
        ),
{
}

/// A written add request is answered with the wrapping sum.
pub proof fn lemma_written_add_is_answered(request: AddRequest)
    ensures
        handle_step(Seq::empty(), client_message_bytes(ClientMessageView::Add(request))) == (
            Seq::<u8>::empty(),
            OutcomeView::Reply(
                server_message_bytes(
                    ServerMessageView::Add(
                        AddResponse { result: wrapping_sum(request.a, request.b) },
                    ),
                ),
            ),
        ),
{
    let message = ClientMessageView::Add(request);
    let bytes = client_message_bytes(message);
    lemma_client_message_reads_back(message);
    lemma_written_message_is_not_empty(message);
}

/// A message with a payload set is written as at least one byte.
pub proof fn lemma_written_message_is_not_empty(message: ClientMessageView)
    ensures
        !(message is Unset) ==> client_message_bytes(message).len() > 0,
{
    lemma_varint_bytes_len((ECHO_TAG * 8 + 2) as nat);
    lemma_varint_bytes_len((ADD_TAG * 8 + 2) as nat);
}

// ---------------------------------------------------------------------------
// What holds of every run of reads
// ---------------------------------------------------------------------------

/// Reads that each bring one whole message are each answered on their own:
/// on a connection that holds nothing, every read gets the outcome of its
/// message, and nothing is held afterwards.
pub proof fn lemma_whole_messages_are_each_answered(reads: Seq<Seq<u8>>)
    requires
        forall|i: int|
            0 <= i < reads.len() ==> (#[trigger] reads[i]).len() > 0 && parse_client_message(
                reads[i],
            ) is Some,
    ensures
        handle_all(Seq::empty(), reads).0 == Seq::<u8>::empty(),
        handle_all(Seq::empty(), reads).1.len() == reads.len(),
        forall|i: int|
            0 <= i < reads.len() ==> #[trigger] handle_all(Seq::empty(), reads).1[i] == outcome_of(
                parse_client_message(reads[i])->Some_0,
            ),
    decreases reads.len(),
{
    if reads.len() > 0 {
        let rest = reads.drop_first();
        assert(Seq::<u8>::empty() + reads.first() =~= reads.first());
        lemma_whole_messages_are_each_answered(rest);
        let outcomes = handle_all(Seq::empty(), reads).1;
        let later = handle_all(Seq::empty(), rest).1;
        assert forall|i: int| 0 <= i < reads.len() implies #[trigger] outcomes[i] == outcome_of(
            parse_client_message(reads[i])->Some_0,
        ) by {
            if i > 0 {
                assert(outcomes[i] == later[i - 1]);
                assert(rest[i - 1] == reads[i]);
            }
        }
    }
}

/// The same whole message in two reads gets the same answer twice.
pub proof fn lemma_same_message_twice(message: Seq<u8>, request: ClientMessageView)
    requires
        message.len() > 0,
        parse_client_message(message) == Some(request),
    ensures
        handle_all(Seq::empty(), seq![message, message]) == (
            Seq::<u8>::empty(),
            seq![outcome_of(request), outcome_of(request)],
        ),
{
    let reads = seq![message, message];
    lemma_whole_messages_are_each_answered(reads);
    let outcomes = handle_all(Seq::empty(), reads).1;
    assert(outcomes =~= seq![outcome_of(request), outcome_of(request)]);
}

/// A message that arrives in parts is answered once, when its last part
/// arrives. The parts are `reads`, none of them empty; with the bytes held
/// before, all of them are read as `request`, and with any of them still
/// missing what has arrived is not read as a message. Then every read but
/// the last is pending, the last gets the outcome of `request`, and nothing
/// is held afterwards.
pub proof fn lemma_parts_are_answered_once(
    held: Seq<u8>,
    reads: Seq<Seq<u8>>,
    request: ClientMessageView,
)
    requires
        reads.len() >= 1,
        forall|i: int| 0 <= i < reads.len() ==> (#[trigger] reads[i]).len() > 0,
        parse_client_message(held + joined(reads)) == Some(request),
        forall|k: int|
            1 <= k < reads.len() ==> parse_client_message(held + #[trigger] joined(reads.take(k)))
                is None,
    ensures
        handle_all(held, reads) == (
            Seq::<u8>::empty(),
            pending((reads.len() - 1) as nat) + seq![outcome_of(request)],
        ),
    decreases reads.len(),
{
    let first = reads.first();
    let rest = reads.drop_first();
    if reads.len() == 1 {
        assert(joined(reads) =~= first);
        assert(handle_all(Seq::empty(), rest).1 =~= Seq::<OutcomeView>::empty());
    } else {
        assert(joined(reads.take(1).drop_first()) =~= Seq::<u8>::empty());
        assert(joined(reads.take(1)) =~= first);
        assert(held + first + joined(rest) =~= held + joined(reads));
        assert forall|k: int| 1 <= k < rest.len() implies parse_client_message(
            held + first + #[trigger] joined(rest.take(k)),
        ) is None by {
            assert(reads.take(k + 1).drop_first() =~= rest.take(k));
            assert(held + first + joined(rest.take(k)) =~= held + joined(reads.take(k + 1)));
        }
        lemma_parts_are_answered_once(held + first, rest, request);
        assert(handle_all(held, reads).1 =~= pending((reads.len() - 1) as nat) + seq![
            outcome_of(request),
        ]);
    }
}

/// The first `count` of `reads` hold a prefix of the bytes of all of them.
pub proof fn lemma_joined_take(reads: Seq<Seq<u8>>, count: int)
    requires
        0 <= count <= reads.len(),
    ensures
        joined(reads.take(count)).len() <= joined(reads).len(),
        joined(reads.take(count)) == joined(reads).take(joined(reads.take(count)).len() as int),
        (count >= 1 && reads[0].len() > 0) ==> joined(reads.take(count)).len() > 0,
        (count < reads.len() && forall|i: int|
            0 <= i < reads.len() ==> (#[trigger] reads[i]).len() > 0) ==> joined(
            reads.take(count),
        ).len() < joined(reads).len(),
    decreases count,
{
    if count == 0 {
        assert(joined(reads.take(0)) =~= joined(reads).take(0));
    } else {
        let first = reads.first();
        let rest = reads.drop_first();
        assert(reads.take(count).drop_first() =~= rest.take(count - 1));
        lemma_joined_take(rest, count - 1);
        assert(joined(reads.take(count)) =~= first + joined(rest.take(count - 1)));
    }
}

/// A written message that arrives in parts is answered once, when its last
/// part arrives: on a connection that holds nothing, for every way of
/// cutting the byte form of `request` into one or more parts, none of them
/// empty, every read but the last is pending, the last gets the outcome of
/// `request`, and nothing is held afterwards.
pub proof fn lemma_written_message_in_parts(request: ClientMessageView, reads: Seq<Seq<u8>>)
    requires
        client_message_fits(request),
        reads.len() >= 1,
        forall|i: int| 0 <= i < reads.len() ==> (#[trigger] reads[i]).len() > 0,
        joined(reads) == client_message_bytes(request),
    ensures
        handle_all(Seq::empty(), reads) == (
            Seq::<u8>::empty(),
            pending((reads.len() - 1) as nat) + seq![outcome_of(request)],
        ),
{
    let held = Seq::<u8>::empty();
    let bytes = client_message_bytes(request);
    lemma_client_message_reads_back(request);
    assert forall|k: int| 1 <= k < reads.len() implies parse_client_message(
        held + #[trigger] joined(reads.take(k)),
    ) is None by {
        lemma_joined_take(reads, k);
        let part = joined(reads.take(k));
        assert(held + part =~= bytes.take(part.len() as int));
        lemma_client_message_cut_short(request, part.len() as int);
    }
    lemma_parts_are_answered_once(held, reads, request);
}

/// What a connection holds is never a whole message that waits for an
/// answer: if the bytes held are empty or no message before a call of
/// [`crate::client::Client::handle`], they are so after it. A connection that
/// has received nothing starts out so.
pub proof fn lemma_held_bytes_are_no_message(held: Seq<u8>, received: Seq<u8>)
    requires
        held.len() == 0 || parse_client_message(held) is None,
    ensures
        handle_step(held, received).0.len() == 0 || parse_client_message(
            handle_step(held, received).0,
        ) is None,
{
}

/// A read of no bytes ends the connection and is no failure: the outcome is
/// that the peer has disconnected, whatever the connection holds; what it
/// holds is left as it is; and the task of the connection closes, which no
/// step of a task hands on to the accept loop.
pub proof fn lemma_empty_read_disconnects(held: Seq<u8>)
    ensures
        handle_step(held, Seq::empty()) == (held, OutcomeView::Disconnected),
        task_step(turn_of(OutcomeView::Disconnected)) == TaskStep::Close,
{
}

// ---------------------------------------------------------------------------
// What holds of every run of the accept loop
// ---------------------------------------------------------------------------

/// A run of the accept loop over `turns`, each of them what the running flag
/// said at the head of the loop and how the attempt to accept ended: the
/// number of connections served, and the step that ended the loop, if one
/// did.
pub open spec fn accept_run(turns: Seq<(bool, AcceptOutcome)>) -> (nat, Option<AcceptStep>)
    decreases turns.len(),
{
    if turns.len() == 0 {
        (0, None)
    } else if poll_step(turns.first().0) == AcceptStep::Halt {
        (0, Some(AcceptStep::Halt))
    } else {
        let (served, end) = accept_run(turns.drop_first());
        match accept_step(turns.first().1) {
            AcceptStep::Serve => (served + 1, end),
            AcceptStep::Halt => (0, Some(AcceptStep::Halt)),
            AcceptStep::Fail => (0, Some(AcceptStep::Fail)),
            _ => (served, end),
        }
    }
}

/// Once the running flag is cleared the accept loop ends and accepts no
/// further connection: a run in which turn `at` finds the flag cleared has
/// ended by then, it comes to what its turns up to `at` come to, and the
/// connections it serves were all accepted before turn `at`.
pub proof fn lemma_cleared_flag_ends_the_accept_loop(turns: Seq<(bool, AcceptOutcome)>, at: int)
    requires
        0 <= at < turns.len(),
        !turns[at].0,
    ensures
        accept_run(turns) == accept_run(turns.take(at + 1)),
        accept_run(turns).0 <= at,
        accept_run(turns).1 is Some,
    decreases at,
{
    if at > 0 {
        let rest = turns.drop_first();
        assert(turns.take(at + 1).drop_first() =~= rest.take(at));
        lemma_cleared_flag_ends_the_accept_loop(rest, at - 1);
    }
}

/// That no connection is pending never ends the accept loop: a run in which
/// the flag is set at every turn and no attempt finds a connection serves
/// none and goes on.
pub proof fn lemma_waiting_does_not_end_the_accept_loop(turns: Seq<(bool, AcceptOutcome)>)
    requires
        forall|i: int|
            0 <= i < turns.len() ==> (#[trigger] turns[i]).0 && turns[i].1
                == AcceptOutcome::WouldBlock,
    ensures
        accept_run(turns) == (0nat, None::<AcceptStep>),
    decreases turns.len(),
{
    if turns.len() > 0 {
        lemma_waiting_does_not_end_the_accept_loop(turns.drop_first());
    }
}

} // verus!
