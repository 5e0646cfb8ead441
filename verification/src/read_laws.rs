//! What holds of transfers to the client as a whole.

use crate::blocks::{
    block_id, cut, joined, law_ack_names_block, law_cut_joins, law_cut_unique, law_cut_well,
};
use crate::error::{Error, IoErrorKind};
use crate::packet::{
    ack_packet, data_packet, decoded, error_packet, law_ack_round_trip, oack_packet, Opts, Received,
    RwReq,
};
use crate::read_req::{law_valid_kept, oack_opts, room_for, ReadInput, ReadOutput, ReadPhase, ReadState};
use crate::session::{PeerAddr, ServerConfig, Session};
use vstd::prelude::*;

verus! {

/// The bytes that an event brings from the reader.
pub open spec fn read_of(input: ReadInput) -> Seq<u8> {
    match input {
        ReadInput::Data(data) => data,
        _ => Seq::empty(),
    }
}

/// The state after `inputs`, one after the other.
pub open spec fn run(state: ReadState, inputs: Seq<ReadInput>) -> ReadState
    decreases inputs.len(),
{
    if inputs.len() == 0 {
        state
    } else {
        run(state, inputs.drop_last()).handled(inputs.last()).0
    }
}

/// The actions that answer `inputs`, one for each.
pub open spec fn answers(state: ReadState, inputs: Seq<ReadInput>) -> Seq<ReadOutput>
    decreases inputs.len(),
{
    if inputs.len() == 0 {
        Seq::empty()
    } else {
        answers(state, inputs.drop_last()).push(
            run(state, inputs.drop_last()).handled(inputs.last()).1,
        )
    }
}

/// Each of `inputs` can follow the action before it.
pub open spec fn in_turn(state: ReadState, inputs: Seq<ReadInput>) -> bool
    decreases inputs.len(),
{
    inputs.len() > 0 ==> {
        &&& in_turn(state, inputs.drop_last())
        &&& run(state, inputs.drop_last()).expects(inputs.last())
    }
}

/// All that the reader gave in `inputs`.
pub open spec fn all_read(inputs: Seq<ReadInput>) -> Seq<u8>
    decreases inputs.len(),
{
    if inputs.len() == 0 {
        Seq::empty()
    } else {
        all_read(inputs.drop_last()) + read_of(inputs.last())
    }
}

/// One of `outputs` sends `packet`.
pub open spec fn sent(outputs: Seq<ReadOutput>, packet: Seq<u8>) -> bool {
    exists|i: int|
        0 <= i < outputs.len() && (#[trigger] outputs[i] matches ReadOutput::Send(packets)
            && packets.contains(packet))
}

/// The DATA packet of `blocks[i]`.
pub open spec fn packet_of(blocks: Seq<Seq<u8>>, i: int) -> Seq<u8> {
    data_packet(block_id((i + 1) as nat), blocks[i])
}

/// A transfer is valid before it begins.
pub proof fn law_valid_start(session: Session, room: nat)
    requires
        session.valid(),
        room_for(session, room),
    ensures
        ReadState::init(session, room).valid(),
{
}

/// The content of a transfer is what the reader gave, byte for byte: an event
/// appends what it brings and nothing else changes it.
pub proof fn law_content_grows(state: ReadState, input: ReadInput)
    requires
        state.valid(),
        state.expects(input),
    ensures
        state.handled(input).0.content() == state.content() + read_of(input),
{
    let next = state.handled(input).0;
    match input {
        ReadInput::Data(data) => {
            crate::blocks::lemma_joined_push(state.blocks, state.partial + data);
            assert(next.content() =~= state.content() + data);
        },
        _ => {
            assert(next.content() =~= state.content() + read_of(input));
        },
    }
}

/// A transfer stays valid however it runs, and its content is what the reader
/// gave.
pub proof fn law_run(session: Session, room: nat, inputs: Seq<ReadInput>)
    requires
        session.valid(),
        room_for(session, room),
        in_turn(ReadState::init(session, room), inputs),
    ensures
        run(ReadState::init(session, room), inputs).valid(),
        run(ReadState::init(session, room), inputs).session == session,
        run(ReadState::init(session, room), inputs).room == room,
        run(ReadState::init(session, room), inputs).content() == all_read(inputs),
    decreases inputs.len(),
{
    let start = ReadState::init(session, room);
    if inputs.len() == 0 {
        assert(start.content() =~= all_read(inputs));
    } else {
        law_run(session, room, inputs.drop_last());
        let state = run(start, inputs.drop_last());
        law_valid_kept(state, inputs.last());
        law_content_grows(state, inputs.last());
    }
}

proof fn lemma_sent_kept(outputs: Seq<ReadOutput>, output: ReadOutput, packet: Seq<u8>)
    requires
        sent(outputs, packet) || (output matches ReadOutput::Send(packets) && packets.contains(
            packet,
        )),
    ensures
        sent(outputs.push(output), packet),
{
    let all = outputs.push(output);
    if sent(outputs, packet) {
        let i = choose|i: int|
            0 <= i < outputs.len() && (#[trigger] outputs[i] matches ReadOutput::Send(packets)
                && packets.contains(packet));
        assert(all[i] == outputs[i]);
    } else {
        assert(all[outputs.len() as int] == output);
    }
}

/// How many blocks were sent at least once.
pub open spec fn reached(state: ReadState) -> nat {
    match state.phase {
        ReadPhase::SendingWindow | ReadPhase::AwaitingAck | ReadPhase::Done => state.blocks.len(),
        _ => state.confirmed,
    }
}

/// `packet` is the OACK or the DATA packet of one of the blocks.
pub open spec fn legitimate(state: ReadState, packet: Seq<u8>) -> bool {
    ||| state.session.oack_opts is Some && packet == oack_packet(state.session.oack_opts.unwrap())
    ||| exists|i: int|
        0 <= i < state.blocks.len() && packet == #[trigger] packet_of(state.blocks, i)
}

/// An action sends nothing but the OACK and DATA packets of the blocks that
/// were read, and an action that reaches a block sends it.
proof fn lemma_step_sends(state: ReadState, input: ReadInput)
    requires
        state.valid(),
        state.expects(input),
    ensures
        ({
            let (next, output) = state.handled(input);
            &&& next.session == state.session
            &&& state.blocks.len() <= next.blocks.len()
            &&& forall|i: int|
                0 <= i < state.blocks.len() ==> #[trigger] next.blocks[i] == state.blocks[i]
            &&& output matches ReadOutput::Send(packets) ==> forall|k: int|
                0 <= k < packets.len() ==> legitimate(next, #[trigger] packets[k])
            &&& forall|i: int|
                reached(state) <= i < reached(next) ==> (output matches ReadOutput::Send(packets)
                    && packets.contains(#[trigger] packet_of(next.blocks, i)))
        }),
{
    let (next, output) = state.handled(input);
    if let ReadOutput::Send(packets) = output {
        assert forall|k: int| 0 <= k < packets.len() implies legitimate(
            next,
            #[trigger] packets[k],
        ) by {
            if next.phase == ReadPhase::SendingWindow {
                assert(packets[k] == packet_of(next.blocks, next.confirmed + next.acked + k));
            }
        }
        assert forall|i: int| reached(state) <= i < reached(next) implies packets.contains(
            #[trigger] packet_of(next.blocks, i),
        ) by {
            assert(next.acked == 0);
            assert(packets[i - next.confirmed] == packet_of(next.blocks, i));
        }
    }
}

/// Whatever happens, a transfer sends nothing but the OACK that was agreed and
/// DATA packets, each with the id and the bytes of a block that was read.
pub proof fn law_sends_only_blocks(session: Session, room: nat, inputs: Seq<ReadInput>, packet: Seq<u8>)
    requires
        session.valid(),
        room_for(session, room),
        in_turn(ReadState::init(session, room), inputs),
        sent(answers(ReadState::init(session, room), inputs), packet),
    ensures
        legitimate(run(ReadState::init(session, room), inputs), packet),
    decreases inputs.len(),
{
    let start = ReadState::init(session, room);
    let outputs = answers(start, inputs);
    let i = choose|i: int|
        0 <= i < outputs.len() && (#[trigger] outputs[i] matches ReadOutput::Send(packets)
            && packets.contains(packet));
    let before = answers(start, inputs.drop_last());
    let state = run(start, inputs.drop_last());
    let next = run(start, inputs);
    law_run(session, room, inputs.drop_last());
    lemma_step_sends(state, inputs.last());
    if i < before.len() {
        assert(before[i] == outputs[i]);
        law_sends_only_blocks(session, room, inputs.drop_last(), packet);
        if !(session.oack_opts is Some && packet == oack_packet(session.oack_opts.unwrap())) {
            let k = choose|k: int|
                0 <= k < state.blocks.len() && packet == #[trigger] packet_of(state.blocks, k);
            assert(next.blocks[k] == state.blocks[k]);
            assert(packet == packet_of(next.blocks, k));
        }
    }
}

proof fn lemma_reached_sent(session: Session, room: nat, inputs: Seq<ReadInput>, i: int)
    requires
        session.valid(),
        room_for(session, room),
        in_turn(ReadState::init(session, room), inputs),
        0 <= i < reached(run(ReadState::init(session, room), inputs)),
    ensures
        sent(
            answers(ReadState::init(session, room), inputs),
            packet_of(run(ReadState::init(session, room), inputs).blocks, i),
        ),
    decreases inputs.len(),
{
    let start = ReadState::init(session, room);
    if inputs.len() > 0 {
        let before = answers(start, inputs.drop_last());
        let state = run(start, inputs.drop_last());
        let (next, output) = state.handled(inputs.last());
        law_run(session, room, inputs.drop_last());
        lemma_step_sends(state, inputs.last());
        if i < reached(state) {
            lemma_reached_sent(session, room, inputs.drop_last(), i);
            assert(next.blocks[i] == state.blocks[i]);
            assert(packet_of(next.blocks, i) == packet_of(state.blocks, i));
        }
        lemma_sent_kept(before, output, packet_of(next.blocks, i));
    }
}

/// A transfer that is done has served the whole content: the blocks of all
/// that the reader gave were sent, each under its number, and acknowledged.
pub proof fn law_done_served_all(session: Session, room: nat, inputs: Seq<ReadInput>)
    requires
        session.valid(),
        room_for(session, room),
        in_turn(ReadState::init(session, room), inputs),
        run(ReadState::init(session, room), inputs).phase == ReadPhase::Done,
    ensures
        ({
            let blocks = cut(all_read(inputs), session.block_size as nat);
            &&& run(ReadState::init(session, room), inputs).blocks == blocks
            &&& run(ReadState::init(session, room), inputs).confirmed == blocks.len()
            &&& forall|i: int|
                0 <= i < blocks.len() ==> sent(
                    answers(ReadState::init(session, room), inputs),
                    #[trigger] packet_of(blocks, i),
                )
        }),
{
    let state = run(ReadState::init(session, room), inputs);
    law_run(session, room, inputs);
    assert(state.content() =~= joined(state.blocks));
    law_cut_unique(state.blocks, session.block_size as nat);
    assert forall|i: int| 0 <= i < state.blocks.len() implies sent(
        answers(ReadState::init(session, room), inputs),
        #[trigger] packet_of(state.blocks, i),
    ) by {
        lemma_reached_sent(session, room, inputs, i);
    }
}

/// The number of the first packet outstanding; the OACK counts as block 0.
pub open spec fn outstanding_first(state: ReadState) -> nat {
    if state.phase == ReadPhase::SendingOack || state.phase == ReadPhase::AwaitingOack {
        0
    } else {
        state.confirmed + state.acked + 1
    }
}

/// The id of the `k`th packet outstanding, from 0 on.
pub open spec fn outstanding_id(state: ReadState, k: nat) -> u16 {
    block_id(outstanding_first(state) + k)
}

/// What comes from another address than the client's, is no ACK, or is an ACK
/// for none of the packets outstanding changes nothing; the time to wait for
/// an answer goes on.
pub proof fn law_strangers_ignored(state: ReadState, from: PeerAddr, datagram: Seq<u8>)
    requires
        state.valid(),
        state.expects(ReadInput::Datagram(from, datagram)),
        ({
            ||| from != state.session.peer
            ||| !(decoded(datagram) matches Some(Received::Ack(_)))
            ||| decoded(datagram) matches Some(Received::Ack(id)) && forall|k: nat|
                k < state.outstanding().len() ==> id != #[trigger] outstanding_id(state, k)
        }),
    ensures
        state.handled(ReadInput::Datagram(from, datagram)) == (state, ReadOutput::KeepReceiving),
{
    if let Some(n) = state.acknowledged(from, datagram) {
        if let Some(Received::Ack(id)) = decoded(datagram) {
            crate::blocks::lemma_id_ahead(0, 0);
            law_ack_names_block(outstanding_first(state), state.outstanding().len(), id, n);
            assert(id == outstanding_id(state, (n - 1) as nat));
        }
    }
}

/// An answer of the client is awaited.
pub open spec fn awaiting(state: ReadState) -> bool {
    state.phase == ReadPhase::AwaitingOack || state.phase == ReadPhase::AwaitingAck
}

/// Only what is not acknowledged is sent again: a timeout that does not end the
/// transfer repeats what is outstanding and changes nothing but the count of
/// retries.
pub proof fn law_timeout_resends(state: ReadState)
    requires
        state.valid(),
        awaiting(state),
        state.retries < state.session.max_send_retries,
    ensures
        ({
            let (next, output) = state.handled(ReadInput::Failed(IoErrorKind::TimedOut));
            &&& output == ReadOutput::Send(state.outstanding())
            &&& next.handled(ReadInput::Sent) == (
                ReadState { retries: state.retries + 1, ..state },
                ReadOutput::Receive,
            )
        }),
{
}

/// At most a window of packets is sent before an answer is awaited; the first
/// block goes out whatever the window size.
pub proof fn law_window_bounded(state: ReadState, input: ReadInput)
    requires
        state.valid(),
        state.expects(input),
    ensures
        state.handled(input).1 matches ReadOutput::Send(packets) ==> packets.len()
            <= state.session.window_size || packets.len() == 1,
{
    law_valid_kept(state, input);
}

/// The state after `n` timeouts in a row, what is outstanding being sent again
/// after each, or why the transfer fails.
pub open spec fn after_timeouts(state: ReadState, n: nat) -> Result<ReadState, Error>
    decreases n,
{
    if n == 0 {
        Ok(state)
    } else {
        match after_timeouts(state, (n - 1) as nat) {
            Ok(state) => match state.step(ReadInput::Failed(IoErrorKind::TimedOut)) {
                Ok((next, _)) => Ok(next.handled(ReadInput::Sent).0),
                Err(error) => Err(error),
            },
            Err(error) => Err(error),
        }
    }
}

/// A client that falls silent is reminded as often as the server is set up to,
/// and no more: with the next timeout the transfer fails for the first packet
/// that is not acknowledged.
pub proof fn law_retries_bounded(state: ReadState, n: nat)
    requires
        state.valid(),
        awaiting(state),
    ensures
        after_timeouts(state, n) == if state.retries + n <= state.session.max_send_retries {
            Ok(ReadState { retries: state.retries + n, ..state })
        } else {
            Err(Error::MaxSendRetriesReached(state.session.peer, state.ack_base()))
        },
    decreases n,
{
    if n > 0 {
        law_retries_bounded(state, (n - 1) as nat);
    }
}

/// An ACK for some of the packets outstanding leaves the others outstanding:
/// they are sent again, and the count of retries starts over.
pub proof fn law_partial_ack(state: ReadState, from: PeerAddr, datagram: Seq<u8>, n: nat)
    requires
        state.valid(),
        state.expects(ReadInput::Datagram(from, datagram)),
        state.acknowledged(from, datagram) == Some(n),
        n < state.outstanding().len(),
    ensures
        ({
            let (next, output) = state.handled(ReadInput::Datagram(from, datagram));
            &&& output == ReadOutput::Send(state.outstanding().skip(n as int))
            &&& next.outstanding() == state.outstanding().skip(n as int)
            &&& next.retries == 0
            &&& next.blocks == state.blocks
            &&& next.confirmed == state.confirmed
        }),
{
    let next = state.handled(ReadInput::Datagram(from, datagram)).0;
    assert(next.unacked() =~= state.unacked().skip(n as int));
}

/// The window is being sent, or an ACK of it is awaited.
pub open spec fn in_window(state: ReadState) -> bool {
    state.phase == ReadPhase::SendingWindow || state.phase == ReadPhase::AwaitingAck
}

/// A window is first sent as a whole.
pub proof fn law_window_starts_whole(state: ReadState, input: ReadInput)
    requires
        state.valid(),
        state.expects(input),
        !in_window(state),
        in_window(state.handled(input).0),
    ensures
        ({
            let (next, output) = state.handled(input);
            &&& next.acked == 0
            &&& output == ReadOutput::Send(next.unacked())
        }),
{
}

/// As long as a window is not over, it keeps its blocks, what is acknowledged
/// of it stays acknowledged, and what is sent is exactly the rest.
pub proof fn law_round(state: ReadState, input: ReadInput)
    requires
        state.valid(),
        state.expects(input),
        in_window(state),
        state.handled(input).0.confirmed == state.confirmed,
    ensures
        ({
            let (next, output) = state.handled(input);
            &&& in_window(next) || next.phase == ReadPhase::Failed
            &&& next.blocks == state.blocks
            &&& state.acked <= next.acked
            &&& output matches ReadOutput::Send(packets) ==> packets == next.unacked()
        }),
{
    let (next, output) = state.handled(input);
    if let ReadOutput::Send(packets) = output {
        assert(packets =~= next.unacked());
    }
}

/// The packets of the window of `state` from the one after the first `acked` on.
pub open spec fn window_from(state: ReadState, acked: nat) -> Seq<Seq<u8>> {
    ReadState { acked, ..state }.unacked()
}

proof fn lemma_confirmed_kept(state: ReadState, inputs: Seq<ReadInput>)
    requires
        state.valid(),
        in_turn(state, inputs),
    ensures
        run(state, inputs).valid(),
        run(state, inputs).session == state.session,
        state.confirmed <= run(state, inputs).confirmed,
    decreases inputs.len(),
{
    if inputs.len() > 0 {
        lemma_confirmed_kept(state, inputs.drop_last());
        law_valid_kept(run(state, inputs.drop_last()), inputs.last());
    }
}

/// A window goes out in rounds. Whatever happens until it is over, each round
/// is exactly the window from the packets acknowledged by then on, in order,
/// and how many are acknowledged never decreases: nothing outside the window is
/// sent, and nothing that an ACK has covered is sent again.
pub proof fn law_rounds(state: ReadState, inputs: Seq<ReadInput>, i: int)
    requires
        state.valid(),
        in_window(state),
        in_turn(state, inputs),
        run(state, inputs).confirmed == state.confirmed,
        0 <= i < inputs.len(),
    ensures
        ({
            let before = run(state, inputs.take(i));
            let after = run(state, inputs.take(i + 1));
            &&& state.acked <= before.acked <= after.acked <= run(state, inputs).acked
            &&& after.acked <= state.window_len()
            &&& answers(state, inputs)[i] matches ReadOutput::Send(packets) ==> packets
                == window_from(state, after.acked)
        }),
    decreases inputs.len(),
{
    let earlier = inputs.drop_last();
    let last = run(state, earlier);
    lemma_confirmed_kept(state, earlier);
    lemma_answers_len(state, earlier);
    lemma_rounds_keep(state, earlier);
    law_valid_kept(last, inputs.last());
    law_round(last, inputs.last());
    let next = last.handled(inputs.last()).0;
    assert(inputs.take(inputs.len() as int) =~= inputs);
    assert(inputs.take(inputs.len() - 1) =~= earlier);
    if i < earlier.len() {
        law_rounds(state, earlier, i);
        assert(earlier.take(i) =~= inputs.take(i));
        assert(earlier.take(i + 1) =~= inputs.take(i + 1));
    } else {
        assert(next.unacked() =~= window_from(state, next.acked));
    }
}

proof fn lemma_answers_len(state: ReadState, inputs: Seq<ReadInput>)
    ensures
        answers(state, inputs).len() == inputs.len(),
    decreases inputs.len(),
{
    if inputs.len() > 0 {
        lemma_answers_len(state, inputs.drop_last());
    }
}

proof fn lemma_rounds_keep(state: ReadState, inputs: Seq<ReadInput>)
    requires
        state.valid(),
        in_window(state),
        in_turn(state, inputs),
        run(state, inputs).confirmed == state.confirmed,
    ensures
        ({
            let next = run(state, inputs);
            &&& next.valid()
            &&& in_window(next) || next.phase == ReadPhase::Failed
            &&& next.blocks == state.blocks
            &&& next.session == state.session
            &&& state.acked <= next.acked
        }),
    decreases inputs.len(),
{
    if inputs.len() > 0 {
        let earlier = inputs.drop_last();
        lemma_confirmed_kept(state, earlier);
        lemma_confirmed_kept(state, inputs);
        let last = run(state, earlier);
        assert(last.confirmed <= run(state, inputs).confirmed);
        lemma_rounds_keep(state, earlier);
        law_valid_kept(last, inputs.last());
        law_round(last, inputs.last());
    }
}

/// An ACK for the last packet outstanding acknowledges the whole window: it is
/// over only with all of its blocks. Where it was the last, the transfer is
/// done.
pub proof fn law_last_ack_confirms(state: ReadState)
    requires
        state.valid(),
        state.phase == ReadPhase::AwaitingAck,
    ensures
        ({
            let ack = ack_packet(block_id(state.blocks.len()));
            let next = state.handled(ReadInput::Datagram(state.session.peer, ack)).0;
            &&& next.confirmed == next.blocks.len()
            &&& next.blocks == state.blocks
            &&& next.phase == ReadPhase::Done <==> state.ended()
        }),
{
    let id = block_id(state.blocks.len());
    law_ack_round_trip(id);
    law_ack_names_block(
        outstanding_first(state),
        state.outstanding().len(),
        id,
        state.outstanding().len(),
    );
}

/// A window ends only as a whole: blocks are confirmed all at once, by an ACK
/// of the client for the last of them.
pub proof fn law_window_confirmed_whole(state: ReadState, input: ReadInput)
    requires
        state.valid(),
        state.expects(input),
        state.handled(input).0.confirmed != state.confirmed,
    ensures
        state.handled(input).0.confirmed == state.blocks.len(),
        input matches ReadInput::Datagram(from, datagram) && from == state.session.peer && decoded(
            datagram,
        ) == Some(Received::Ack(block_id(state.blocks.len()))),
{
    if let ReadInput::Datagram(from, datagram) = input {
        if let Some(Received::Ack(id)) = decoded(datagram) {
            law_ack_names_block(
                outstanding_first(state),
                state.outstanding().len(),
                id,
                state.outstanding().len(),
            );
        }
    }
}

/// Where options were agreed, the client has to acknowledge them before it gets
/// data: until then nothing but the OACK is sent.
pub proof fn law_oack_first(state: ReadState, input: ReadInput)
    requires
        state.valid(),
        state.expects(input),
        state.session.oack_opts is Some,
        state.blocks.len() == 0 || state.phase == ReadPhase::SendingOack || state.phase
            == ReadPhase::AwaitingOack,
    ensures
        ({
            let (next, output) = state.handled(input);
            let oack = oack_packet(state.session.oack_opts.unwrap());
            ||| input matches ReadInput::Datagram(from, datagram) && from == state.session.peer
                && decoded(datagram) == Some(Received::Ack(0)) && state.phase
                == ReadPhase::AwaitingOack
            ||| next.phase == ReadPhase::Failed
            ||| {
                &&& next.blocks.len() == 0 || next.phase == ReadPhase::SendingOack || next.phase
                    == ReadPhase::AwaitingOack
                &&& output matches ReadOutput::Send(packets) ==> packets == seq![oack]
            }
        }),
{
}

/// The state after the reader gave `block`, and then nothing if it had less
/// than a full block.
pub open spec fn read_whole(state: ReadState, block: Seq<u8>) -> ReadState {
    let next = state.handled(ReadInput::Data(block)).0;
    if 0 < block.len() < state.session.block_size {
        next.handled(ReadInput::Data(Seq::empty())).0
    } else {
        next
    }
}

/// The state after the client acknowledged all that is to be sent.
pub open spec fn acknowledge_all(state: ReadState) -> ReadState {
    let id = if state.phase == ReadPhase::SendingOack {
        0
    } else {
        block_id(state.blocks.len())
    };
    if state.phase == ReadPhase::SendingOack || state.phase == ReadPhase::SendingWindow {
        state.handled(ReadInput::Sent).0.handled(
            ReadInput::Datagram(state.session.peer, ack_packet(id)),
        ).0
    } else {
        state
    }
}

/// The state after `blocks` were read and all that was sent for them, the OACK
/// and the window, was acknowledged.
pub open spec fn serve(state: ReadState, blocks: Seq<Seq<u8>>) -> ReadState
    decreases blocks.len(),
{
    if blocks.len() == 0 {
        state
    } else {
        acknowledge_all(
            acknowledge_all(read_whole(serve(state, blocks.drop_last()), blocks.last())),
        )
    }
}

proof fn lemma_serve_block(state: ReadState, block: Seq<u8>)
    requires
        state.valid(),
        state.phase == ReadPhase::Reading,
        state.partial.len() == 0,
        block.len() <= state.session.block_size,
        0 < state.session.block_size,
        0 < state.session.window_size,
    ensures
        ({
            let next = acknowledge_all(acknowledge_all(read_whole(state, block)));
            &&& next.valid()
            &&& next.session == state.session
            &&& next.blocks == state.blocks.push(block)
            &&& next.partial.len() == 0
            &&& next.phase == if block.len() < state.session.block_size {
                ReadPhase::Done
            } else {
                ReadPhase::Reading
            }
        }),
{
    let first = state.handled(ReadInput::Data(block)).0;
    law_valid_kept(state, ReadInput::Data(block));
    assert(state.partial + block =~= block);
    assert(block + Seq::<u8>::empty() =~= block);
    let whole = read_whole(state, block);
    if 0 < block.len() < state.session.block_size {
        law_valid_kept(first, ReadInput::Data(Seq::empty()));
    }
    assert(whole.valid() && whole.blocks == state.blocks.push(block));
    lemma_acknowledge_all(whole);
    lemma_acknowledge_all(acknowledge_all(whole));
}

proof fn lemma_acknowledge_all(state: ReadState)
    requires
        state.valid(),
        0 < state.session.window_size,
        state.phase == ReadPhase::SendingOack || state.phase == ReadPhase::SendingWindow
            || state.phase == ReadPhase::Done || state.phase == ReadPhase::Reading
            && state.partial.len() == 0,
    ensures
        ({
            let next = acknowledge_all(state);
            &&& next.valid()
            &&& next.session == state.session
            &&& next.blocks == state.blocks
            &&& next.partial.len() == 0
            &&& state.phase == ReadPhase::SendingOack ==> next == state.next_window().0
            &&& state.phase == ReadPhase::SendingWindow ==> next.phase == if state.ended() {
                ReadPhase::Done
            } else {
                ReadPhase::Reading
            }
            &&& state.phase == ReadPhase::Done || state.phase == ReadPhase::Reading ==> next
                == state
        }),
{
    if state.phase == ReadPhase::SendingOack || state.phase == ReadPhase::SendingWindow {
        let waiting = state.handled(ReadInput::Sent).0;
        law_valid_kept(state, ReadInput::Sent);
        let id = if state.phase == ReadPhase::SendingOack {
            0
        } else {
            block_id(state.blocks.len())
        };
        law_ack_round_trip(id);
        law_valid_kept(waiting, ReadInput::Datagram(state.session.peer, ack_packet(id)));
        if state.phase == ReadPhase::SendingWindow {
            law_last_ack_confirms(waiting);
        }
    }
}

/// A client that acknowledges what it gets is served the whole file: for any
/// content, any block size and any window size but zero, the transfer ends, and
/// the blocks sent are those of the content.
pub proof fn law_serves_any_content(session: Session, content: Seq<u8>)
    requires
        session.valid(),
        0 < session.block_size,
        0 < session.window_size,
    ensures
        ({
            let blocks = cut(content, session.block_size as nat);
            let end = serve(ReadState::init(session, session.block_size as nat).handled(ReadInput::Start).0, blocks);
            &&& end.phase == ReadPhase::Done
            &&& end.blocks == blocks
            &&& end.content() == content
        }),
{
    let bs = session.block_size as nat;
    let blocks = cut(content, bs);
    law_cut_well(content, bs);
    law_cut_joins(content, bs);
    let start = ReadState::init(session, session.block_size as nat).handled(ReadInput::Start).0;
    lemma_serve_full(session, blocks.drop_last());
    lemma_serve_block(serve(start, blocks.drop_last()), blocks.last());
    assert(blocks.drop_last().push(blocks.last()) =~= blocks);
    assert(serve(start, blocks).content() =~= content);
}

proof fn lemma_serve_full(session: Session, blocks: Seq<Seq<u8>>)
    requires
        session.valid(),
        0 < session.block_size,
        0 < session.window_size,
        forall|i: int| 0 <= i < blocks.len() ==> (#[trigger] blocks[i]).len() == session.block_size,
    ensures
        ({
            let state = serve(ReadState::init(session, session.block_size as nat).handled(ReadInput::Start).0, blocks);
            &&& state.valid()
            &&& state.session == session
            &&& state.phase == ReadPhase::Reading
            &&& state.partial.len() == 0
            &&& state.blocks == blocks
        }),
    decreases blocks.len(),
{
    let start = ReadState::init(session, session.block_size as nat).handled(ReadInput::Start).0;
    if blocks.len() == 0 {
        law_valid_kept(ReadState::init(session, session.block_size as nat), ReadInput::Start);
        assert(start.blocks =~= blocks);
    } else {
        lemma_serve_full(session, blocks.drop_last());
        lemma_serve_block(serve(start, blocks.drop_last()), blocks.last());
        assert(blocks.drop_last().push(blocks.last()) =~= blocks);
    }
}

/// A transfer that fails tells the client why, by one ERROR packet, and that is
/// the end: nothing can follow, so the packet is never sent again.
pub proof fn law_failure_reported_once(state: ReadState, input: ReadInput, error: Error)
    requires
        state.valid(),
        state.expects(input),
        state.step(input) == Err::<(ReadState, ReadOutput), Error>(error),
    ensures
        ({
            let (next, output) = state.handled(input);
            &&& output == ReadOutput::Fail(error, error_packet(error.reported()))
            &&& next.phase == ReadPhase::Failed
            &&& forall|later: ReadInput| !#[trigger] next.expects(later)
        }),
{
}

/// A transfer that is done stays done.
pub proof fn law_done_is_final(state: ReadState, later: ReadInput)
    requires
        state.phase == ReadPhase::Done,
    ensures
        !state.expects(later),
{
}

/// Only what the client asked for is acknowledged, and only what the server
/// does not turn down, within its limits; where that is nothing, there is no
/// OACK.
pub proof fn law_oack_is_asked_for(config: ServerConfig, req: RwReq, file_size: Option<u64>)
    ensures
        oack_opts(config, req, file_size) matches Some(opts) ==> {
            &&& opts != Opts::none()
            &&& opts.block_size is Some <==> req.opts.block_size is Some
                && !config.ignore_client_block_size
            &&& opts.block_size matches Some(size) ==> {
                &&& size <= req.opts.block_size.unwrap()
                &&& size == req.opts.block_size.unwrap() || Some(size) == config.block_size_limit
                &&& config.block_size_limit is Some ==> size <= config.block_size_limit.unwrap()
            }
            &&& opts.window_size is Some <==> req.opts.window_size is Some
                && !config.ignore_client_window_size
            &&& opts.window_size matches Some(size) ==> {
                &&& size <= req.opts.window_size.unwrap()
                &&& size == req.opts.window_size.unwrap() || Some(size) == config.window_size_limit
                &&& config.window_size_limit is Some ==> size
                    <= config.window_size_limit.unwrap()
            }
            &&& opts.timeout == if config.ignore_client_timeout {
                None
            } else {
                req.opts.timeout
            }
            &&& opts.transfer_size is Some <==> req.opts.transfer_size == Some(0u64)
                && file_size is Some
            &&& opts.transfer_size is Some ==> opts.transfer_size == file_size
        },
        oack_opts(config, req, file_size) is None <==> {
            &&& req.opts.block_size is None || config.ignore_client_block_size
            &&& req.opts.timeout is None || config.ignore_client_timeout
            &&& req.opts.transfer_size != Some(0u64) || file_size is None
            &&& req.opts.window_size is None || config.ignore_client_window_size
        },
{
}

/// Without options a transfer runs on the terms of RFC 1350: blocks of 512
/// bytes, each acknowledged, with the timeout of the server.
pub proof fn law_plain_request(peer: PeerAddr, config: ServerConfig, req: RwReq, file_size: Option<u64>)
    requires
        req.opts == Opts::none(),
    ensures
        oack_opts(config, req, file_size) is None,
        ({
            let session = Session::spec_new(peer, config, oack_opts(config, req, file_size));
            &&& session.block_size == 512
            &&& session.window_size == 1
            &&& session.timeout == config.timeout
        }),
{
}

} // verus!
