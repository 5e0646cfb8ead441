//! What each action of a transfer from the client is for.

use crate::blocks::block_id;
use crate::buffer::{buffered, frozen};
use crate::error::{Error, IoErrorKind};
use crate::packet::{
    ack_packet, data_packet, error_packet, law_data_round_trip, oack_packet,
};
use crate::packet_laws::{law_data_on_wire, law_read_from_wire};
use crate::session::{PeerAddr, Session};
use crate::write_laws::{in_turn, law_run, run};
use crate::write_req::{
    law_valid_kept, WriteAction, WriteEvent, WriteInput, WriteOutput, WritePhase, WriteState,
};
use bytes::{Bytes, BytesMut};
use vstd::prelude::*;

verus! {

/// An event or an action stands for its bytes as they are.
pub proof fn law_views(
    buf: BytesMut,
    payload: Bytes,
    error: Error,
    from: PeerAddr,
    len: usize,
    kind: IoErrorKind,
)
    ensures
        WriteAction::SendAck@ == WriteOutput::SendAck,
        WriteAction::Receive(buf)@ == WriteOutput::Receive(buffered(buf)),
        WriteAction::KeepReceiving(buf)@ == WriteOutput::KeepReceiving(buffered(buf)),
        WriteAction::Write(payload)@ == WriteOutput::Write(frozen(payload)),
        WriteAction::Flush@ == WriteOutput::Flush,
        WriteAction::Close@ == WriteOutput::Close,
        WriteAction::Done@ == WriteOutput::Done,
        WriteAction::Fail(error, payload)@ == WriteOutput::Fail(error, frozen(payload)),
        WriteEvent::Start@ == WriteInput::Start,
        WriteEvent::Sent@ == WriteInput::Sent,
        WriteEvent::Datagram(from, buf, len)@ == WriteInput::Datagram(
            from,
            buffered(buf),
            len as nat,
        ),
        WriteEvent::Written@ == WriteInput::Written,
        WriteEvent::Flushed@ == WriteInput::Flushed,
        WriteEvent::Closed@ == WriteInput::Closed,
        WriteEvent::Failed(kind)@ == WriteInput::Failed(kind),
{
}

/// A transfer begins with `Start` and nothing else, with nothing written; the
/// client is told first what was agreed, or, without options, that block 0 is
/// there.
pub proof fn law_begins_by_telling(session: Session, input: WriteInput)
    requires
        session.valid(),
    ensures
        WriteState::init(session).expects(input) <==> input == WriteInput::Start,
        ({
            let (next, output) = WriteState::init(session).handled(WriteInput::Start);
            &&& output == WriteOutput::SendAck
            &&& next.phase == WritePhase::Opening
            &&& next.session == session
            &&& next.blocks.len() == 0
            &&& next.in_window == 0
            &&& next.timeouts == 0
            &&& session.oack_opts matches Some(opts) ==> next.ack == oack_packet(opts)
            &&& session.oack_opts is None ==> next.ack == ack_packet(0)
        }),
{
}

/// What can follow an action is its outcome: that the ACK is out, the bytes are
/// written, the writer is flushed or closed; while a block is awaited, any
/// datagram that the buffer holds; and a failure, as long as the transfer runs.
pub proof fn law_outcomes_follow_actions(state: WriteState, input: WriteInput, later: WriteInput)
    requires
        state.valid(),
        state.expects(input),
    ensures
        ({
            let (next, output) = state.handled(input);
            next.expects(later) <==> match output {
                WriteOutput::SendAck => later is Sent || later is Failed,
                WriteOutput::Receive(buf) | WriteOutput::KeepReceiving(buf) => {
                    ||| later matches WriteInput::Datagram(_, filled, len) && len <= filled.len()
                        && filled.len() == buf.len()
                    ||| later is Failed
                },
                WriteOutput::Write(_) => later is Written || later is Failed,
                WriteOutput::Flush => later is Flushed || later is Failed,
                WriteOutput::Close => later is Closed || later is Failed,
                WriteOutput::Done | WriteOutput::Fail(_, _) => false,
            }
        }),
{
    law_valid_kept(state, input);
}

/// There is room to receive a full block with its header, and no more.
pub proof fn law_receives_one_block(state: WriteState, input: WriteInput, i: int)
    requires
        state.valid(),
        state.expects(input),
    ensures
        state.handled(input).1 matches WriteOutput::Receive(buf) ==> {
            &&& buf.len() == 4 + state.session.block_size
            &&& 0 <= i < buf.len() ==> buf[i] == 0
        },
        state.handled(input).1 matches WriteOutput::KeepReceiving(buf) ==> buf.len() == 4
            + state.session.block_size,
{
}

/// The payload that `WriteRequest::recv_data_block` gives of a datagram is
/// `payload` if and only if the datagram comes from the client and is the DATA
/// packet of that payload with the id of the block after the last one.
pub proof fn law_payload(state: WriteState, from: PeerAddr, datagram: Seq<u8>, payload: Seq<u8>)
    requires
        state.valid(),
        state.phase == WritePhase::Receiving,
    ensures
        state.payload(from, datagram) == Some(payload) <==> {
            &&& from == state.session.peer
            &&& datagram == data_packet(block_id(state.blocks.len() + 1), payload)
        },
{
    let id = block_id(state.blocks.len() + 1);
    law_data_round_trip(id, payload);
    law_data_on_wire(id, payload);
    if state.payload(from, datagram) == Some(payload) {
        law_read_from_wire(datagram, id);
        assert(datagram =~= data_packet(id, payload));
    }
}

/// The block after the last one, from the client, is given to the writer as it
/// came, and is the next of the blocks. All other datagrams change nothing, and
/// the time to wait goes on, with the buffer as it was.
pub proof fn law_takes_only_next_block(
    state: WriteState,
    from: PeerAddr,
    buf: Seq<u8>,
    len: nat,
    payload: Seq<u8>,
)
    requires
        state.valid(),
        state.expects(WriteInput::Datagram(from, buf, len)),
    ensures
        ({
            let (next, output) = state.handled(WriteInput::Datagram(from, buf, len));
            let packet = data_packet(block_id(state.blocks.len() + 1), payload);
            &&& from == state.session.peer && buf.take(len as int) == packet ==> {
                &&& output == WriteOutput::Write(payload)
                &&& next.blocks == state.blocks.push(payload)
                &&& next.in_window == state.in_window
                &&& next.ack == state.ack
            }
            &&& output == WriteOutput::Write(payload) ==> from == state.session.peer && buf.take(
                len as int,
            ) == packet
            &&& output is Write || (next == state && output == WriteOutput::KeepReceiving(buf))
        }),
{
    law_payload(state, from, buf.take(len as int), payload);
}

/// Only a datagram of the client gives the writer anything or makes a block.
pub proof fn law_only_datagrams_make_blocks(state: WriteState, input: WriteInput)
    requires
        state.valid(),
        state.expects(input),
        !(input is Datagram),
    ensures
        state.handled(input).0.blocks == state.blocks,
        !(state.handled(input).1 is Write),
{
}

/// A written block counts toward its window. Where the window has now as many
/// blocks as were agreed, or the block is not full, the window is over and its
/// last block is acknowledged; else the next block is awaited, with no timeout
/// counted, and the client is told nothing.
pub proof fn law_written(state: WriteState)
    requires
        state.valid(),
        state.expects(WriteInput::Written),
    ensures
        ({
            let (next, output) = state.handled(WriteInput::Written);
            &&& next.blocks == state.blocks
            &&& next.in_window == state.in_window + 1
            &&& if next.in_window >= state.session.window_size || state.blocks.last().len()
                < state.session.block_size {
                &&& output == WriteOutput::SendAck
                &&& next.phase == WritePhase::SendingAck
                &&& next.ack == ack_packet(block_id(state.blocks.len()))
            } else {
                &&& output is Receive
                &&& next.phase == WritePhase::Receiving
                &&& next.ack == state.ack
                &&& next.timeouts == 0
            }
        }),
{
}

/// Once the ACK of a window is out, the first block of the next one is awaited,
/// with no timeout counted. After the block that is not full there is no next
/// window, and the writer is flushed.
pub proof fn law_window_over(state: WriteState)
    requires
        state.valid(),
        state.phase == WritePhase::SendingAck,
    ensures
        ({
            let (next, output) = state.handled(WriteInput::Sent);
            &&& next.blocks == state.blocks
            &&& next.ack == state.ack
            &&& if state.blocks.last().len() < state.session.block_size {
                output == WriteOutput::Flush && next.phase == WritePhase::Flushing
            } else {
                &&& output is Receive
                &&& next.phase == WritePhase::Receiving
                &&& next.in_window == 0
                &&& next.timeouts == 0
            }
        }),
{
}

/// Once the client is told that the transfer begins, the first block is
/// awaited, whatever the sizes, with no timeout counted.
pub proof fn law_first_block_awaited(state: WriteState)
    requires
        state.valid(),
        state.phase == WritePhase::Opening,
    ensures
        ({
            let (next, output) = state.handled(WriteInput::Sent);
            &&& output is Receive
            &&& next.phase == WritePhase::Receiving
            &&& next.blocks.len() == 0
            &&& next.in_window == 0
            &&& next.timeouts == 0
            &&& next.ack == state.ack
        }),
{
}

/// Without a block in time the client is sent once more what it was told last,
/// and one timeout more is counted. Then the block is awaited again; or, where
/// there were more timeouts than retries, the transfer fails for that block.
pub proof fn law_timeout_reminds_or_gives_up(state: WriteState)
    requires
        state.valid(),
        state.phase == WritePhase::Receiving,
    ensures
        ({
            let (told, output) = state.handled(WriteInput::Failed(IoErrorKind::TimedOut));
            let (next, then) = told.handled(WriteInput::Sent);
            &&& output == WriteOutput::SendAck
            &&& told.phase == WritePhase::Resending
            &&& told.ack == state.ack
            &&& told.blocks == state.blocks
            &&& told.in_window == state.in_window
            &&& told.timeouts == state.timeouts + 1
            &&& next.ack == state.ack
            &&& next.blocks == state.blocks
            &&& next.in_window == state.in_window
            &&& if state.timeouts < state.session.max_send_retries {
                &&& then is Receive
                &&& next.phase == WritePhase::Receiving
                &&& next.timeouts == state.timeouts + 1
            } else {
                &&& next.phase == WritePhase::Failed
                &&& then matches WriteOutput::Fail(error, _) && error
                    == Error::MaxSendRetriesReached(
                    state.session.peer,
                    block_id(state.blocks.len() + 1),
                )
            }
        }),
{
}

/// The reminder is out: the block is awaited again, with what was counted, as
/// long as there were no more timeouts than retries.
pub proof fn law_reminded(state: WriteState)
    requires
        state.valid(),
        state.phase == WritePhase::Resending,
    ensures
        ({
            let (next, output) = state.handled(WriteInput::Sent);
            &&& next.ack == state.ack
            &&& next.blocks == state.blocks
            &&& next.in_window == state.in_window
            &&& if state.timeouts <= state.session.max_send_retries {
                &&& output is Receive
                &&& next.phase == WritePhase::Receiving
                &&& next.timeouts == state.timeouts
            } else {
                &&& next.phase == WritePhase::Failed
                &&& output matches WriteOutput::Fail(error, _) && error
                    == Error::MaxSendRetriesReached(
                    state.session.peer,
                    block_id(state.blocks.len() + 1),
                )
            }
        }),
{
}

/// The writer is flushed, then closed, and then the transfer is done; nothing
/// else ends it well.
pub proof fn law_flushed_then_closed(state: WriteState, input: WriteInput)
    requires
        state.valid(),
        state.expects(input),
    ensures
        state.handled(input).1 == WriteOutput::Close <==> input == WriteInput::Flushed,
        state.handled(input).1 == WriteOutput::Done <==> input == WriteInput::Closed,
        state.handled(input).0.phase == WritePhase::Done <==> input == WriteInput::Closed,
        input == WriteInput::Flushed || input == WriteInput::Closed ==> state.handled(input).0.blocks
            == state.blocks && state.handled(input).0.ack == state.ack,
{
}

/// An action that fails ends the transfer for that reason, unless it was to
/// wait for a block and failed for want of one. Nothing else ends it in
/// failure but a client that was reminded often enough.
pub proof fn law_fails_for_its_reason(state: WriteState, input: WriteInput)
    requires
        state.valid(),
        state.expects(input),
    ensures
        ({
            let (next, output) = state.handled(input);
            match input {
                WriteInput::Failed(kind) => kind != IoErrorKind::TimedOut || state.phase
                    != WritePhase::Receiving ==> {
                    &&& output == WriteOutput::Fail(
                        Error::Io(kind),
                        error_packet(Error::Io(kind).reported()),
                    )
                    &&& next.phase == WritePhase::Failed
                },
                _ => output is Fail || next.phase == WritePhase::Failed ==> {
                    &&& input == WriteInput::Sent
                    &&& state.phase == WritePhase::Resending
                    &&& state.timeouts > state.session.max_send_retries
                },
            }
        }),
        state.handled(input).1 matches WriteOutput::Fail(error, packet) ==> packet == error_packet(
            error.reported(),
        ),
{
}

/// `try_handle` gives what `handle` gives, and an error where that gives the
/// ERROR packet for it.
pub proof fn law_step_and_handled(state: WriteState, input: WriteInput)
    requires
        state.valid(),
        state.expects(input),
    ensures
        match state.step(input) {
            Ok(next) => state.handled(input) == next && !(next.1 is Fail),
            Err(error) => state.handled(input).1 matches WriteOutput::Fail(told, _) && told
                == error,
        },
{
}

/// How many timeouts there were since the last block was written.
pub open spec fn silences(inputs: Seq<WriteInput>) -> nat
    decreases inputs.len(),
{
    if inputs.len() == 0 {
        0
    } else {
        match inputs.last() {
            WriteInput::Failed(IoErrorKind::TimedOut) => silences(inputs.drop_last()) + 1,
            WriteInput::Written => 0,
            _ => silences(inputs.drop_last()),
        }
    }
}

/// While a block is awaited, the timeouts that are counted are those since the
/// block before it was written.
pub proof fn law_counts_silences(session: Session, inputs: Seq<WriteInput>)
    requires
        session.valid(),
        in_turn(WriteState::init(session), inputs),
    ensures
        ({
            let state = run(WriteState::init(session), inputs);
            &&& state.phase == WritePhase::Receiving || state.phase == WritePhase::Resending
                ==> state.timeouts == silences(inputs)
            &&& state.phase == WritePhase::Ready || state.phase == WritePhase::Opening
                || state.phase == WritePhase::SendingAck ==> silences(inputs) == 0
        }),
    decreases inputs.len(),
{
    let start = WriteState::init(session);
    if inputs.len() > 0 {
        let before = inputs.drop_last();
        let state = run(start, before);
        let input = inputs.last();
        law_counts_silences(session, before);
        law_run(session, before);
        match input {
            WriteInput::Datagram(from, buf, len) => law_takes_only_next_block(
                state,
                from,
                buf,
                len,
                Seq::empty(),
            ),
            WriteInput::Failed(kind) => {
                if kind == IoErrorKind::TimedOut && state.phase == WritePhase::Receiving {
                    law_timeout_reminds_or_gives_up(state);
                } else {
                    law_fails_for_its_reason(state, input);
                }
            },
            WriteInput::Written => law_written(state),
            _ => {},
        }
    }
}

/// A client is given up only after it was silent once more than there are
/// retries, all of it while one and the same block was awaited.
pub proof fn law_given_up_only_when_silent(
    session: Session,
    inputs: Seq<WriteInput>,
    input: WriteInput,
)
    requires
        session.valid(),
        in_turn(WriteState::init(session), inputs.push(input)),
        run(WriteState::init(session), inputs).handled(input).1 matches WriteOutput::Fail(error, _)
            && error is MaxSendRetriesReached,
    ensures
        silences(inputs) == session.max_send_retries + 1,
{
    let all = inputs.push(input);
    let state = run(WriteState::init(session), inputs);
    assert(all.drop_last() =~= inputs);
    law_run(session, inputs);
    law_counts_silences(session, inputs);
    law_fails_for_its_reason(state, input);
}

} // verus!
