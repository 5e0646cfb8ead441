//! What each action of a transfer to the client is for.

use crate::blocks::{block_id, law_ack_names_block, law_ids_count_up};
use crate::buffer::frozen;
use crate::error::{Error, IoErrorKind};
use crate::packet::{
    ack_packet, data_packet, decoded, error_packet, law_ack_round_trip, oack_packet, Received,
};
use crate::packet_laws::{law_ack_on_wire, law_data_on_wire, law_read_from_wire};
use crate::read_laws::{answers, in_turn, law_run, run};
use crate::read_req::{
    ack_of, law_valid_kept, room_for, ReadAction, ReadEvent, ReadInput, ReadOutput, ReadPhase,
    ReadState, ACK_BUFFER_LEN,
};
use crate::session::{PeerAddr, Session};
use bytes::Bytes;
use vstd::prelude::*;

verus! {

/// An event or an action stands for its bytes as they are.
pub proof fn law_views(
    len: usize,
    packets: Vec<Bytes>,
    packet: Bytes,
    error: Error,
    from: PeerAddr,
    bytes: &[u8],
    kind: IoErrorKind,
    i: int,
)
    ensures
        ReadAction::Read(len)@ == ReadOutput::Read(len as nat),
        ReadAction::Send(packets)@ matches ReadOutput::Send(sent) && sent.len() == packets@.len()
            && (0 <= i < sent.len() ==> sent[i] == frozen(packets@[i])),
        ReadAction::Receive@ == ReadOutput::Receive,
        ReadAction::KeepReceiving@ == ReadOutput::KeepReceiving,
        ReadAction::Done@ == ReadOutput::Done,
        ReadAction::Fail(error, packet)@ == ReadOutput::Fail(error, frozen(packet)),
        ReadEvent::Start@ == ReadInput::Start,
        ReadEvent::Data(bytes)@ == ReadInput::Data(bytes@),
        ReadEvent::Sent@ == ReadInput::Sent,
        ReadEvent::Datagram(from, bytes)@ == ReadInput::Datagram(from, bytes@),
        ReadEvent::Failed(kind)@ == ReadInput::Failed(kind),
{
}

/// A transfer begins with `Start` and nothing else, and the first thing that it
/// does is to read a block, for which there is some room.
pub proof fn law_begins_by_reading(session: Session, room: nat, input: ReadInput)
    requires
        session.valid(),
        room_for(session, room),
    ensures
        ReadState::init(session, room).expects(input) <==> input == ReadInput::Start,
        ({
            let (next, output) = ReadState::init(session, room).handled(ReadInput::Start);
            &&& output == ReadOutput::Read(room)
            &&& next.session == session
            &&& next.room == room
            &&& next.blocks.len() == 0
            &&& next.partial.len() == 0
            &&& next.confirmed == 0
        }),
        0 < room <= 65536,
        session.block_size > 0 ==> room == session.block_size,
{
}

/// What can follow an action is its outcome: bytes, no more than were asked
/// for, after a read; that the packets are out after a send; a datagram, any
/// datagram, while one is awaited; and a failure, as long as the transfer runs.
pub proof fn law_outcomes_follow_actions(state: ReadState, input: ReadInput, later: ReadInput)
    requires
        state.valid(),
        state.expects(input),
    ensures
        ({
            let (next, output) = state.handled(input);
            next.expects(later) <==> match output {
                ReadOutput::Read(n) => {
                    ||| later matches ReadInput::Data(data) && data.len() <= n
                    ||| later is Failed
                },
                ReadOutput::Send(_) => later is Sent || later is Failed,
                ReadOutput::Receive | ReadOutput::KeepReceiving => later is Datagram
                    || later is Failed,
                ReadOutput::Done | ReadOutput::Fail(_, _) => false,
            }
        }),
{
    law_valid_kept(state, input);
}

/// A block is over where it is full or where the reader just gave nothing, and
/// only there. It is what was read since the block before it, and of what is
/// not full the rest is read.
pub proof fn law_block_over_when_full_or_at_end(state: ReadState, data: Seq<u8>)
    requires
        state.valid(),
        state.expects(ReadInput::Data(data)),
    ensures
        ({
            let (next, output) = state.handled(ReadInput::Data(data));
            let total = state.partial.len() + data.len();
            if data.len() == 0 || total == state.room {
                &&& next.blocks == state.blocks.push(state.partial + data)
                &&& next.partial.len() == 0
            } else {
                &&& next.blocks == state.blocks
                &&& next.partial == state.partial + data
                &&& output == ReadOutput::Read((state.room - total) as nat)
            }
        }),
{
}

/// What is asked of the reader is what is missing of a full block, always
/// something.
pub proof fn law_reads_what_is_missing(state: ReadState, input: ReadInput)
    requires
        state.valid(),
        state.expects(input),
        state.handled(input).1 is Read,
    ensures
        ({
            let (next, output) = state.handled(input);
            &&& output == ReadOutput::Read((next.room - next.partial.len()) as nat)
            &&& next.partial.len() < next.room
            &&& next.session.block_size > 0 ==> next.room == next.session.block_size
        }),
{
    law_valid_kept(state, input);
}

/// Nothing but what the reader gives changes the blocks.
pub proof fn law_only_reads_make_blocks(state: ReadState, input: ReadInput)
    requires
        state.valid(),
        state.expects(input),
        !(input is Data),
    ensures
        state.handled(input).0.blocks == state.blocks,
        state.handled(input).0.partial == state.partial,
{
}

/// Nothing but an ACK of the client confirms a block, and it takes none back.
pub proof fn law_only_acks_confirm(state: ReadState, input: ReadInput)
    requires
        state.valid(),
        state.expects(input),
    ensures
        ({
            let next = state.handled(input).0;
            &&& next.confirmed + next.acked >= state.confirmed + state.acked
            &&& !(input is Datagram) ==> next.confirmed == state.confirmed && next.acked
                == state.acked
        }),
{
}

/// The reader said among `inputs` that it has no more.
pub open spec fn reader_ended(inputs: Seq<ReadInput>) -> bool {
    exists|i: int|
        0 <= i < inputs.len() && (#[trigger] inputs[i] matches ReadInput::Data(data) && data.len()
            == 0)
}

proof fn lemma_short_block_at_end(session: Session, room: nat, inputs: Seq<ReadInput>, k: int)
    requires
        session.valid(),
        room_for(session, room),
        in_turn(ReadState::init(session, room), inputs),
        0 <= k < run(ReadState::init(session, room), inputs).blocks.len(),
        run(ReadState::init(session, room), inputs).blocks[k].len() < room,
    ensures
        reader_ended(inputs),
    decreases inputs.len(),
{
    let start = ReadState::init(session, room);
    if inputs.len() > 0 {
        let before = inputs.drop_last();
        let state = run(start, before);
        let input = inputs.last();
        law_run(session, room, before);
        if k < state.blocks.len() {
            match input {
                ReadInput::Data(data) => law_block_over_when_full_or_at_end(state, data),
                _ => law_only_reads_make_blocks(state, input),
            }
            lemma_short_block_at_end(session, room, before, k);
            let i = choose|i: int|
                0 <= i < before.len() && (#[trigger] before[i] matches ReadInput::Data(data)
                    && data.len() == 0);
            assert(inputs[i] == before[i]);
        } else {
            match input {
                ReadInput::Data(data) => {
                    law_block_over_when_full_or_at_end(state, data);
                    assert(inputs[inputs.len() - 1] == input);
                },
                _ => law_only_reads_make_blocks(state, input),
            }
        }
    }
}

/// A transfer is done only if the reader said that it has no more: no client
/// takes part of a file for the whole.
pub proof fn law_done_only_at_end(session: Session, room: nat, inputs: Seq<ReadInput>)
    requires
        session.valid(),
        room_for(session, room),
        in_turn(ReadState::init(session, room), inputs),
        run(ReadState::init(session, room), inputs).phase == ReadPhase::Done,
    ensures
        reader_ended(inputs),
{
    let state = run(ReadState::init(session, room), inputs);
    law_run(session, room, inputs);
    lemma_short_block_at_end(session, room, inputs, state.blocks.len() - 1);
}

/// What goes out is the OACK alone, or the blocks of the window that are not
/// acknowledged, all of them, in order, each under its number.
pub proof fn law_sends_numbered_blocks(state: ReadState, input: ReadInput, k: int)
    requires
        state.valid(),
        state.expects(input),
    ensures
        ({
            let (next, output) = state.handled(input);
            output matches ReadOutput::Send(packets) ==> if next.phase == ReadPhase::SendingOack {
                &&& next.session.oack_opts is Some
                &&& packets == seq![oack_packet(next.session.oack_opts.unwrap())]
            } else {
                &&& packets.len() == next.blocks.len() - next.confirmed - next.acked
                &&& 0 <= k < packets.len() ==> packets[k] == data_packet(
                    block_id((next.confirmed + next.acked + k + 1) as nat),
                    next.blocks[next.confirmed + next.acked + k],
                )
            }
        }),
{
    law_valid_kept(state, input);
}

/// A window that begins is full: it has as many DATA packets as were agreed, or
/// ends with the block that is not full, the last of the content. It begins
/// with nothing acknowledged and a count of retries of 0.
pub proof fn law_window_begins_full(state: ReadState, input: ReadInput)
    requires
        state.valid(),
        state.expects(input),
        state.phase == ReadPhase::Reading || state.phase == ReadPhase::AwaitingOack,
        state.session.window_size > 0,
    ensures
        ({
            let (next, output) = state.handled(input);
            output matches ReadOutput::Send(packets) ==> if next.phase == ReadPhase::SendingOack {
                next.blocks.len() == 1
            } else {
                &&& next.acked == 0
                &&& next.retries == 0
                &&& packets.len() == next.blocks.len() - next.confirmed
                &&& packets.len() > 0
                &&& packets.len() <= state.session.window_size
                &&& packets.len() == state.session.window_size || packets.last().len() < 4
                    + state.session.block_size
            }
        }),
{
    let (next, output) = state.handled(input);
    law_valid_kept(state, input);
    if let ReadOutput::Send(packets) = output {
        if next.phase != ReadPhase::SendingOack {
            law_sends_numbered_blocks(state, input, packets.len() - 1);
            law_data_on_wire(block_id(next.blocks.len()), next.blocks.last());
        }
    }
}

/// As long as the window is not full and the last block was a full one, one
/// block more is read before anything is sent, but for the OACK, which goes out
/// behind the first block where options were agreed, and only then.
pub proof fn law_window_is_filled_first(state: ReadState, data: Seq<u8>)
    requires
        state.valid(),
        state.expects(ReadInput::Data(data)),
        data.len() == 0 || state.partial.len() + data.len() == state.room,
    ensures
        ({
            let (next, output) = state.handled(ReadInput::Data(data));
            let window = next.blocks.len() - next.confirmed;
            if next.blocks.len() == 1 && state.session.oack_opts is Some {
                &&& output == ReadOutput::Send(
                    seq![oack_packet(state.session.oack_opts.unwrap())],
                )
                &&& next.phase == ReadPhase::SendingOack
                &&& next.retries == 0
            } else if window < state.session.window_size && state.partial.len() + data.len()
                >= state.session.block_size {
                output == ReadOutput::Read(state.room)
            } else {
                output is Send && next.phase == ReadPhase::SendingWindow
            }
        }),
{
}

/// Once the packets are out, an answer is awaited for the whole of the timeout,
/// and nothing else has changed.
pub proof fn law_sent_then_awaits(state: ReadState)
    requires
        state.valid(),
        state.expects(ReadInput::Sent),
        state.blocks.len() > state.confirmed,
    ensures
        ({
            let (next, output) = state.handled(ReadInput::Sent);
            &&& output == ReadOutput::Receive
            &&& next.blocks == state.blocks
            &&& next.partial == state.partial
            &&& next.confirmed == state.confirmed
            &&& next.acked == state.acked
            &&& next.retries == state.retries
            &&& next.phase == if state.phase == ReadPhase::SendingOack {
                ReadPhase::AwaitingOack
            } else {
                ReadPhase::AwaitingAck
            }
        }),
{
}

/// A window of no blocks, which there is only where none were agreed on, has
/// nothing to wait for: it is over as soon as it is sent, and is followed by the
/// next, as empty.
pub proof fn law_empty_window(state: ReadState)
    requires
        state.valid(),
        state.expects(ReadInput::Sent),
        state.blocks.len() == state.confirmed,
    ensures
        state.session.window_size == 0,
        state.handled(ReadInput::Sent).1 == ReadOutput::Send(Seq::empty()),
        state.handled(ReadInput::Sent).0.phase == state.phase,
{
    assert(state.handled(ReadInput::Sent).0.unacked() =~= Seq::empty());
}

/// An ACK of the client for the `k`th block that is not acknowledged covers
/// exactly the blocks up to it. Where some are left, they are sent at once, and
/// the count of retries starts over; where none is left, the window is over,
/// and the next one is read, or, after the block that is not full, the transfer
/// is done.
pub proof fn law_ack_covers_up_to_its_block(state: ReadState, k: nat)
    requires
        state.valid(),
        state.phase == ReadPhase::AwaitingAck,
        1 <= k <= state.blocks.len() - state.confirmed - state.acked,
    ensures
        ({
            let ack = ack_packet(block_id(state.confirmed + state.acked + k));
            let (next, output) = state.handled(ReadInput::Datagram(state.session.peer, ack));
            &&& next.blocks == state.blocks
            &&& if k < state.blocks.len() - state.confirmed - state.acked {
                &&& next.confirmed == state.confirmed
                &&& next.acked == state.acked + k
                &&& next.retries == 0
                &&& output matches ReadOutput::Send(packets) && packets.len() == state.blocks.len()
                    - state.confirmed - state.acked - k
            } else {
                &&& next.confirmed == state.blocks.len()
                &&& next.acked == 0
                &&& if state.blocks.last().len() < state.session.block_size {
                    output == ReadOutput::Done && next.phase == ReadPhase::Done
                } else if state.session.window_size > 0 {
                    output == ReadOutput::Read(state.room) && next.partial.len() == 0
                } else {
                    output == ReadOutput::Send(Seq::empty())
                }
            }
        }),
{
    let id = block_id(state.confirmed + state.acked + k);
    law_ack_round_trip(id);
    law_ack_names_block(
        state.confirmed + state.acked + 1,
        (state.blocks.len() - state.confirmed - state.acked) as nat,
        id,
        k,
    );
    let (next, output) = state.handled(
        ReadInput::Datagram(state.session.peer, ack_packet(id)),
    );
    law_valid_kept(state, ReadInput::Datagram(state.session.peer, ack_packet(id)));
    if k == state.blocks.len() - state.confirmed - state.acked {
        assert(next.unacked() =~= Seq::empty());
    }
}

/// The ACK of block 0 covers the OACK: then the first window is read on, or
/// sent where its one block is all that it has.
pub proof fn law_ack_covers_oack(state: ReadState)
    requires
        state.valid(),
        state.phase == ReadPhase::AwaitingOack,
    ensures
        ({
            let (next, output) = state.handled(
                ReadInput::Datagram(state.session.peer, ack_packet(0)),
            );
            &&& next.blocks == state.blocks
            &&& next.confirmed == 0
            &&& if state.blocks[0].len() >= state.session.block_size && state.session.window_size
                > 1 {
                output == ReadOutput::Read(state.room)
            } else {
                &&& output == ReadOutput::Send(seq![data_packet(1, state.blocks[0])])
                &&& next.retries == 0
            }
        }),
{
    law_ack_round_trip(0);
    law_ids_count_up(0);
    let (next, output) = state.handled(ReadInput::Datagram(state.session.peer, ack_packet(0)));
    if let ReadOutput::Send(packets) = output {
        assert(packets =~= seq![data_packet(1, state.blocks[0])]);
    }
}

/// The ACK of the client for a packet that is out and not acknowledged: of one
/// of the blocks, or of the OACK, which counts as block 0.
pub open spec fn answers_packet(state: ReadState, from: PeerAddr, datagram: Seq<u8>) -> bool {
    &&& from == state.session.peer
    &&& if state.phase == ReadPhase::AwaitingOack {
        datagram == ack_packet(0)
    } else {
        exists|k: nat|
            1 <= k <= state.blocks.len() - state.confirmed - state.acked && datagram
                == #[trigger] ack_packet(block_id(state.confirmed + state.acked + k))
    }
}

/// Nothing but the ACK of the client for a packet that is out moves a transfer
/// on: all other datagrams change nothing, and the time to wait goes on.
pub proof fn law_only_answers_count(state: ReadState, from: PeerAddr, datagram: Seq<u8>)
    requires
        state.valid(),
        state.expects(ReadInput::Datagram(from, datagram)),
    ensures
        ({
            let (next, output) = state.handled(ReadInput::Datagram(from, datagram));
            if answers_packet(state, from, datagram) {
                output != ReadOutput::KeepReceiving
            } else {
                next == state && output == ReadOutput::KeepReceiving
            }
        }),
{
    let (next, output) = state.handled(ReadInput::Datagram(from, datagram));
    let left = (state.blocks.len() - state.confirmed - state.acked) as nat;
    if state.acknowledged(from, datagram) is Some {
        let n = state.acknowledged(from, datagram).unwrap();
        if let Some(Received::Ack(id)) = decoded(datagram) {
            law_read_from_wire(datagram, id);
            law_ack_on_wire(id);
            assert(datagram =~= ack_packet(id));
            if state.phase == ReadPhase::AwaitingOack {
                law_ids_count_up(0);
                law_ack_names_block(0, 1, id, n);
            } else {
                law_ack_names_block(state.confirmed + state.acked + 1, left, id, n);
                assert(datagram == ack_packet(block_id(state.confirmed + state.acked + n)));
            }
        }
    }
    if answers_packet(state, from, datagram) {
        if state.phase == ReadPhase::AwaitingOack {
            law_ack_covers_oack(state);
        } else {
            let k = choose|k: nat|
                1 <= k <= left && datagram == #[trigger] ack_packet(
                    block_id(state.confirmed + state.acked + k),
                );
            law_ack_covers_up_to_its_block(state, k);
        }
    }
}

/// The count that `ReadRequest::recv_ack` gives is `n` if and only if the
/// datagram comes from the peer and is the ACK of the `n`th of the blocks.
pub proof fn law_ack_of(
    peer: PeerAddr,
    first: nat,
    len: nat,
    from: PeerAddr,
    datagram: Seq<u8>,
    n: nat,
)
    requires
        len <= 65536,
    ensures
        ack_of(peer, block_id(first), len, from, datagram) == Some(n) <==> {
            &&& from == peer
            &&& 1 <= n <= len
            &&& datagram == ack_packet(block_id((first + n - 1) as nat))
        },
{
    if let Some(Received::Ack(id)) = decoded(datagram) {
        law_read_from_wire(datagram, id);
        law_ack_on_wire(id);
        assert(datagram =~= ack_packet(id));
        law_ack_names_block(first, len, id, n);
        law_ack_round_trip(block_id((first + n - 1) as nat));
    }
    if from == peer && 1 <= n <= len && datagram == ack_packet(block_id((first + n - 1) as nat)) {
        law_ack_round_trip(block_id((first + n - 1) as nat));
        law_ack_names_block(first, len, block_id((first + n - 1) as nat), n);
    }
}

/// There is room for more than an ACK while one is awaited, so that nothing that
/// is longer is taken for one.
pub proof fn law_room_beyond_ack(id: u16)
    ensures
        ack_packet(id).len() < ACK_BUFFER_LEN,
{
    law_ack_on_wire(id);
}

/// Without an answer in time the same packets go out again, and one retry more
/// is counted; where all retries are used up, the transfer fails for the first
/// packet that is not acknowledged.
pub proof fn law_timeout_retries_or_gives_up(state: ReadState)
    requires
        state.valid(),
        state.phase == ReadPhase::AwaitingOack || state.phase == ReadPhase::AwaitingAck,
    ensures
        ({
            let (next, output) = state.handled(ReadInput::Failed(IoErrorKind::TimedOut));
            &&& next.blocks == state.blocks
            &&& next.confirmed == state.confirmed
            &&& next.acked == state.acked
            &&& if state.retries < state.session.max_send_retries {
                &&& next.retries == state.retries + 1
                &&& output is Send
                &&& next.phase == if state.phase == ReadPhase::AwaitingOack {
                    ReadPhase::SendingOack
                } else {
                    ReadPhase::SendingWindow
                }
            } else {
                &&& next.phase == ReadPhase::Failed
                &&& output matches ReadOutput::Fail(error, _) && error
                    == Error::MaxSendRetriesReached(
                    state.session.peer,
                    if state.phase == ReadPhase::AwaitingOack {
                        0
                    } else {
                        block_id(state.confirmed + state.acked + 1)
                    },
                )
            }
        }),
{
}

/// An action that fails ends the transfer for that reason, unless it was to
/// wait for an answer and failed for want of one. Nothing else ends it in
/// failure.
pub proof fn law_fails_for_its_reason(state: ReadState, input: ReadInput)
    requires
        state.valid(),
        state.expects(input),
    ensures
        ({
            let (next, output) = state.handled(input);
            let awaiting = state.phase == ReadPhase::AwaitingOack || state.phase
                == ReadPhase::AwaitingAck;
            match input {
                ReadInput::Failed(kind) => kind != IoErrorKind::TimedOut || !awaiting ==> {
                    &&& output == ReadOutput::Fail(
                        Error::Io(kind),
                        error_packet(Error::Io(kind).reported()),
                    )
                    &&& next.phase == ReadPhase::Failed
                },
                _ => !(output is Fail) && next.phase != ReadPhase::Failed,
            }
        }),
        state.handled(input).1 matches ReadOutput::Fail(error, packet) ==> packet == error_packet(
            error.reported(),
        ),
{
}

/// `try_handle` gives what `handle` gives, and an error where that gives the
/// ERROR packet for it.
pub proof fn law_step_and_handled(state: ReadState, input: ReadInput)
    requires
        state.valid(),
        state.expects(input),
    ensures
        match state.step(input) {
            Ok(next) => state.handled(input) == next && !(next.1 is Fail),
            Err(error) => state.handled(input).1 matches ReadOutput::Fail(told, _) && told == error,
        },
{
}

/// A transfer that is done says so, and only such a one.
pub proof fn law_done_is_said(state: ReadState, input: ReadInput)
    requires
        state.valid(),
        state.expects(input),
    ensures
        state.handled(input).1 == ReadOutput::Done <==> state.handled(input).0.phase
            == ReadPhase::Done,
{
}

/// How many timeouts there were since the packets that are out were first sent:
/// since the last bytes of the reader, or the last ACK that moved the transfer
/// on.
pub open spec fn silences(state: ReadState, inputs: Seq<ReadInput>) -> nat
    decreases inputs.len(),
{
    if inputs.len() == 0 {
        0
    } else {
        let before = inputs.drop_last();
        match inputs.last() {
            ReadInput::Failed(IoErrorKind::TimedOut) => silences(state, before) + 1,
            ReadInput::Data(_) => 0,
            ReadInput::Datagram(from, datagram) => if answers_packet(
                run(state, before),
                from,
                datagram,
            ) {
                0
            } else {
                silences(state, before)
            },
            _ => silences(state, before),
        }
    }
}

proof fn lemma_retries_are_silences(session: Session, room: nat, inputs: Seq<ReadInput>)
    requires
        session.valid(),
        room_for(session, room),
        in_turn(ReadState::init(session, room), inputs),
    ensures
        ({
            let state = run(ReadState::init(session, room), inputs);
            state.phase == ReadPhase::SendingOack || state.phase == ReadPhase::AwaitingOack
                || state.phase == ReadPhase::SendingWindow || state.phase == ReadPhase::AwaitingAck
                ==> state.blocks.len() > state.confirmed ==> state.retries == silences(
                ReadState::init(session, room),
                inputs,
            )
        }),
    decreases inputs.len(),
{
    let start = ReadState::init(session, room);
    if inputs.len() > 0 {
        let before = inputs.drop_last();
        let state = run(start, before);
        let input = inputs.last();
        lemma_retries_are_silences(session, room, before);
        law_run(session, room, before);
        law_valid_kept(state, input);
        match input {
            ReadInput::Data(data) => {
                law_block_over_when_full_or_at_end(state, data);
            },
            ReadInput::Datagram(from, datagram) => {
                law_only_answers_count(state, from, datagram);
                if answers_packet(state, from, datagram) && state.phase == ReadPhase::AwaitingAck {
                    let left = (state.blocks.len() - state.confirmed - state.acked) as nat;
                    let k = choose|k: nat|
                        1 <= k <= left && datagram == #[trigger] ack_packet(
                            block_id(state.confirmed + state.acked + k),
                        );
                    law_ack_covers_up_to_its_block(state, k);
                } else if answers_packet(state, from, datagram) {
                    law_ack_covers_oack(state);
                }
            },
            ReadInput::Failed(kind) => {
                if kind == IoErrorKind::TimedOut && (state.phase == ReadPhase::AwaitingOack
                    || state.phase == ReadPhase::AwaitingAck) {
                    law_timeout_retries_or_gives_up(state);
                } else {
                    law_fails_for_its_reason(state, input);
                }
            },
            _ => {},
        }
    }
}

/// A client is given up only after it was silent once more than there are
/// retries, without one ACK of it between that moved the transfer on.
pub proof fn law_given_up_only_when_silent(session: Session, room: nat, inputs: Seq<ReadInput>)
    requires
        session.valid(),
        room_for(session, room),
        inputs.len() > 0,
        in_turn(ReadState::init(session, room), inputs),
        answers(ReadState::init(session, room), inputs).last() matches ReadOutput::Fail(error, _)
            && error is MaxSendRetriesReached,
    ensures
        silences(ReadState::init(session, room), inputs) == session.max_send_retries + 1,
{
    let start = ReadState::init(session, room);
    let before = inputs.drop_last();
    let state = run(start, before);
    law_run(session, room, before);
    lemma_retries_are_silences(session, room, before);
    law_fails_for_its_reason(state, inputs.last());
    if let ReadInput::Failed(_) = inputs.last() {
        law_timeout_retries_or_gives_up(state);
    }
}

} // verus!
