//! What holds of transfers from the client as a whole.

use crate::blocks::{
    block_id, cut, joined, law_cut_joins, law_cut_unique, law_cut_well, lemma_joined_push,
};
use crate::error::{Error, IoErrorKind};
use crate::packet::{
    ack_packet, data_packet, decoded, error_packet, law_data_round_trip, oack_packet, Opts, Received, RwReq,
};
use crate::read_laws::packet_of;
use crate::session::{PeerAddr, ServerConfig, Session};
use crate::write_req::{
    law_valid_kept, oack_opts, WriteInput, WriteOutput, WritePhase, WriteState,
};
use vstd::prelude::*;

verus! {

/// The bytes that an action gives to the writer.
pub open spec fn write_of(output: WriteOutput) -> Seq<u8> {
    match output {
        WriteOutput::Write(payload) => payload,
        _ => Seq::empty(),
    }
}

/// The state after `inputs`, one after the other.
pub open spec fn run(state: WriteState, inputs: Seq<WriteInput>) -> WriteState
    decreases inputs.len(),
{
    if inputs.len() == 0 {
        state
    } else {
        run(state, inputs.drop_last()).handled(inputs.last()).0
    }
}

/// All that the writer is given on `inputs`.
pub open spec fn all_written(state: WriteState, inputs: Seq<WriteInput>) -> Seq<u8>
    decreases inputs.len(),
{
    if inputs.len() == 0 {
        Seq::empty()
    } else {
        all_written(state, inputs.drop_last()) + write_of(
            run(state, inputs.drop_last()).handled(inputs.last()).1,
        )
    }
}

/// Each of `inputs` can follow the action before it.
pub open spec fn in_turn(state: WriteState, inputs: Seq<WriteInput>) -> bool
    decreases inputs.len(),
{
    inputs.len() > 0 ==> {
        &&& in_turn(state, inputs.drop_last())
        &&& run(state, inputs.drop_last()).expects(inputs.last())
    }
}

/// A transfer is valid before it begins.
pub proof fn law_valid_start(session: Session)
    requires
        session.valid(),
    ensures
        WriteState::init(session).valid(),
{
}

/// The content of a transfer is what the writer was given, byte for byte.
pub proof fn law_content_grows(state: WriteState, input: WriteInput)
    requires
        state.valid(),
        state.expects(input),
    ensures
        state.handled(input).0.content() == state.content() + write_of(state.handled(input).1),
{
    let (next, output) = state.handled(input);
    if let WriteOutput::Write(payload) = output {
        lemma_joined_push(state.blocks, payload);
    }
    assert(next.content() =~= state.content() + write_of(output));
}

/// A transfer stays valid however it runs, and its content is what the writer
/// was given.
pub proof fn law_run(session: Session, inputs: Seq<WriteInput>)
    requires
        session.valid(),
        in_turn(WriteState::init(session), inputs),
    ensures
        run(WriteState::init(session), inputs).valid(),
        run(WriteState::init(session), inputs).session == session,
        run(WriteState::init(session), inputs).content() == all_written(
            WriteState::init(session),
            inputs,
        ),
    decreases inputs.len(),
{
    let start = WriteState::init(session);
    if inputs.len() == 0 {
        assert(start.content() =~= all_written(start, inputs));
    } else {
        law_run(session, inputs.drop_last());
        let state = run(start, inputs.drop_last());
        law_valid_kept(state, inputs.last());
        law_content_grows(state, inputs.last());
    }
}

/// Where a datagram is the block awaited, it is that block of `file`.
pub open spec fn honest(state: WriteState, input: WriteInput, file: Seq<u8>) -> bool {
    let blocks = cut(file, state.session.block_size as nat);
    input matches WriteInput::Datagram(from, buf, len) ==> (state.payload(
        from,
        buf.take(len as int),
    ) matches Some(payload) ==> {
        &&& state.expected() <= blocks.len()
        &&& payload == blocks[state.expected() - 1]
    })
}

/// All blocks that are taken in on `inputs` are those of `file`.
pub open spec fn all_honest(state: WriteState, inputs: Seq<WriteInput>, file: Seq<u8>) -> bool
    decreases inputs.len(),
{
    inputs.len() > 0 ==> {
        &&& all_honest(state, inputs.drop_last(), file)
        &&& honest(run(state, inputs.drop_last()), inputs.last(), file)
    }
}

proof fn lemma_prefix_of_file(session: Session, inputs: Seq<WriteInput>, file: Seq<u8>)
    requires
        session.valid(),
        in_turn(WriteState::init(session), inputs),
        all_honest(WriteState::init(session), inputs, file),
    ensures
        ({
            let blocks = cut(file, session.block_size as nat);
            let state = run(WriteState::init(session), inputs);
            &&& state.blocks.len() <= blocks.len()
            &&& state.blocks == blocks.take(state.blocks.len() as int)
        }),
    decreases inputs.len(),
{
    let start = WriteState::init(session);
    let blocks = cut(file, session.block_size as nat);
    if inputs.len() == 0 {
        assert(start.blocks =~= blocks.take(0));
    } else {
        lemma_prefix_of_file(session, inputs.drop_last(), file);
        law_run(session, inputs.drop_last());
        let state = run(start, inputs.drop_last());
        let next = run(start, inputs);
        assert(next.blocks =~= blocks.take(next.blocks.len() as int));
    }
}

/// A transfer that is done has written the whole file: whatever was lost,
/// repeated or came late, where the blocks taken in are those of `file`, the
/// writer was given `file`.
pub proof fn law_done_wrote_file(session: Session, inputs: Seq<WriteInput>, file: Seq<u8>)
    requires
        session.valid(),
        in_turn(WriteState::init(session), inputs),
        all_honest(WriteState::init(session), inputs, file),
        run(WriteState::init(session), inputs).phase == WritePhase::Done,
    ensures
        all_written(WriteState::init(session), inputs) == file,
        run(WriteState::init(session), inputs).blocks == cut(file, session.block_size as nat),
{
    let bs = session.block_size as nat;
    let blocks = cut(file, bs);
    let state = run(WriteState::init(session), inputs);
    law_run(session, inputs);
    lemma_prefix_of_file(session, inputs, file);
    law_cut_well(file, bs);
    law_cut_joins(file, bs);
    if state.blocks.len() < blocks.len() {
        assert(state.blocks.last() == blocks[state.blocks.len() - 1]);
        assert(false);
    }
    assert(state.blocks =~= blocks);
}

/// A transfer that is done has written and acknowledged blocks that are full
/// but for the last: the blocks of what the writer was given.
pub proof fn law_done_blocks(session: Session, inputs: Seq<WriteInput>)
    requires
        session.valid(),
        in_turn(WriteState::init(session), inputs),
        run(WriteState::init(session), inputs).phase == WritePhase::Done,
    ensures
        ({
            let state = run(WriteState::init(session), inputs);
            &&& state.blocks == cut(
                all_written(WriteState::init(session), inputs),
                session.block_size as nat,
            )
            &&& state.ack == ack_packet(block_id(state.blocks.len()))
        }),
{
    law_run(session, inputs);
    law_cut_unique(run(WriteState::init(session), inputs).blocks, session.block_size as nat);
}

/// `datagram` is the DATA packet of one of `blocks`.
pub open spec fn is_packet_of(datagram: Seq<u8>, blocks: Seq<Seq<u8>>) -> bool {
    exists|k: int| 0 <= k < blocks.len() && datagram == #[trigger] packet_of(blocks, k)
}

/// Whatever DATA the client sends is the packet of a block of `file`.
pub open spec fn sends_file(session: Session, inputs: Seq<WriteInput>, file: Seq<u8>) -> bool {
    forall|i: int|
        0 <= i < inputs.len() ==> (#[trigger] inputs[i] matches WriteInput::Datagram(from, buf, len)
            ==> (from == session.peer && (decoded(buf.take(len as int)) matches Some(
            Received::Data(_),
        )) ==> is_packet_of(buf.take(len as int), cut(file, session.block_size as nat))))
}

/// A client may send the blocks of a file in any order and as often as it
/// likes: where the file has so few blocks that their ids differ, a transfer
/// that is done has written the file.
pub proof fn law_any_order(session: Session, inputs: Seq<WriteInput>, file: Seq<u8>)
    requires
        session.valid(),
        in_turn(WriteState::init(session), inputs),
        cut(file, session.block_size as nat).len() <= 65536,
        sends_file(session, inputs, file),
        run(WriteState::init(session), inputs).phase == WritePhase::Done,
    ensures
        all_written(WriteState::init(session), inputs) == file,
{
    lemma_sends_honestly(session, inputs, file);
    law_done_wrote_file(session, inputs, file);
}

proof fn lemma_ids_differ(m: nat, n: nat)
    requires
        0 < m <= 65536,
        0 < n <= 65536,
        block_id(m) == block_id(n),
    ensures
        m == n,
{
}

proof fn lemma_expected_block(
    state: WriteState,
    blocks: Seq<Seq<u8>>,
    from: PeerAddr,
    datagram: Seq<u8>,
)
    requires
        blocks.len() <= 65536,
        0 < state.expected() <= 65536,
        state.payload(from, datagram) is Some,
        is_packet_of(datagram, blocks),
    ensures
        state.expected() <= blocks.len(),
        state.payload(from, datagram) == Some(blocks[state.expected() - 1]),
{
    let k = choose|k: int| 0 <= k < blocks.len() && datagram == #[trigger] packet_of(blocks, k);
    law_data_round_trip(block_id((k + 1) as nat), blocks[k]);
    lemma_ids_differ((k + 1) as nat, state.expected());
}

proof fn lemma_sends_honestly(session: Session, inputs: Seq<WriteInput>, file: Seq<u8>)
    requires
        session.valid(),
        in_turn(WriteState::init(session), inputs),
        cut(file, session.block_size as nat).len() <= 65536,
        sends_file(session, inputs, file),
    ensures
        all_honest(WriteState::init(session), inputs, file),
    decreases inputs.len(),
{
    if inputs.len() > 0 {
        let blocks = cut(file, session.block_size as nat);
        let before = inputs.drop_last();
        assert(sends_file(session, before, file)) by {
            assert forall|i: int| 0 <= i < before.len() implies #[trigger] before[i]
                == inputs[i] by {}
        }
        lemma_sends_honestly(session, before, file);
        law_run(session, before);
        lemma_prefix_of_file(session, before, file);
        let state = run(WriteState::init(session), before);
        if let WriteInput::Datagram(from, buf, len) = inputs.last() {
            let datagram = buf.take(len as int);
            assert(inputs[inputs.len() - 1] == inputs.last());
            if state.payload(from, datagram) is Some {
                if session.block_size > 0 {
                    // Where all blocks are in, no further one is awaited.
                    law_cut_well(file, session.block_size as nat);
                    assert(blocks.take(blocks.len() as int) =~= blocks);
                }
                lemma_expected_block(state, blocks, from, datagram);
            }
        }
    }
}

/// What comes from another address than the client's, is no DATA, or is DATA
/// with another id than that of the block awaited changes nothing; the time to
/// wait for the block goes on, with the buffer as it was.
pub proof fn law_strangers_ignored(state: WriteState, from: PeerAddr, buf: Seq<u8>, len: nat)
    requires
        state.valid(),
        state.expects(WriteInput::Datagram(from, buf, len)),
        from != state.session.peer || decoded(buf.take(len as int)) != Some(
            Received::Data(block_id(state.blocks.len() + 1)),
        ),
    ensures
        state.handled(WriteInput::Datagram(from, buf, len)) == (
            state,
            WriteOutput::KeepReceiving(buf),
        ),
{
}

/// The block after the last one, from the client, is given to the writer as it
/// came.
pub proof fn law_next_block_written(state: WriteState, buf: Seq<u8>, len: nat, payload: Seq<u8>)
    requires
        state.valid(),
        state.expects(WriteInput::Datagram(state.session.peer, buf, len)),
        buf.take(len as int) == data_packet(block_id(state.blocks.len() + 1), payload),
    ensures
        ({
            let (next, output) = state.handled(
                WriteInput::Datagram(state.session.peer, buf, len),
            );
            &&& output == WriteOutput::Write(payload)
            &&& next.blocks == state.blocks.push(payload)
        }),
{
    law_data_round_trip(block_id(state.blocks.len() + 1), payload);
}

/// The client is told first what was agreed, or, without options, that block 0
/// is there.
pub proof fn law_opening(session: Session)
    requires
        session.valid(),
    ensures
        ({
            let (next, output) = WriteState::init(session).handled(WriteInput::Start);
            &&& output == WriteOutput::SendAck
            &&& session.oack_opts is Some ==> next.ack == oack_packet(session.oack_opts.unwrap())
            &&& session.oack_opts is None ==> next.ack == ack_packet(0)
        }),
{
}

/// A window is acknowledged by its last block, when that is written and the
/// window is complete or the content has ended, and not before: whatever the
/// window size, no block is acknowledged that did not come. Between windows the client hears nothing
/// but what it was told last.
pub proof fn law_ack_closes_window(state: WriteState, input: WriteInput)
    requires
        state.valid(),
        state.expects(input),
        state.phase != WritePhase::Ready,
        state.handled(input).0.ack != state.ack,
    ensures
        ({
            let (next, output) = state.handled(input);
            &&& output == WriteOutput::SendAck
            &&& next.ack == ack_packet(block_id(next.blocks.len()))
            &&& next.blocks == state.blocks
            &&& 0 < next.in_window
            &&& next.in_window >= next.session.window_size || next.ended()
            &&& input == WriteInput::Written
        }),
{
}

/// A block that did not come is never acknowledged: however a transfer runs,
/// and whatever the window size, the packet that it sends as its ACK is the one
/// that opened it or the ACK of a block that was given to the writer.
pub proof fn law_acks_only_written(session: Session, inputs: Seq<WriteInput>)
    requires
        session.valid(),
        in_turn(WriteState::init(session), inputs),
        inputs.len() > 0,
    ensures
        ({
            let state = run(WriteState::init(session), inputs);
            ||| state.ack == opening(session)
            ||| exists|n: nat|
                1 <= n <= state.blocks.len() && state.ack == #[trigger] ack_packet(block_id(n))
        }),
    decreases inputs.len(),
{
    let start = WriteState::init(session);
    let before = inputs.drop_last();
    let state = run(start, before);
    let next = run(start, inputs);
    law_run(session, before);
    if before.len() == 0 {
        assert(state == start);
    } else {
        law_acks_only_written(session, before);
        lemma_started(session, before);
        if next.ack != state.ack {
            law_ack_closes_window(state, inputs.last());
            law_valid_kept(state, inputs.last());
            assert(next.ack == ack_packet(block_id(next.blocks.len())));
        } else if state.ack != opening(session) {
            let n = choose|n: nat|
                1 <= n <= state.blocks.len() && state.ack == #[trigger] ack_packet(block_id(n));
            assert(1 <= n <= next.blocks.len() && next.ack == ack_packet(block_id(n)));
        }
    }
}

/// The packet that opens a transfer: the OACK, or, without options, the ACK of
/// block 0.
pub open spec fn opening(session: Session) -> Seq<u8> {
    match session.oack_opts {
        Some(opts) => oack_packet(opts),
        None => ack_packet(0),
    }
}

proof fn lemma_started(session: Session, inputs: Seq<WriteInput>)
    requires
        session.valid(),
        in_turn(WriteState::init(session), inputs),
        inputs.len() > 0,
    ensures
        run(WriteState::init(session), inputs).phase != WritePhase::Ready,
    decreases inputs.len(),
{
    law_run(session, inputs.drop_last());
}

/// The state after `n` timeouts in a row, the last ACK being sent again after
/// each, or why the transfer fails.
pub open spec fn after_timeouts(state: WriteState, n: nat) -> Result<WriteState, Error>
    decreases n,
{
    if n == 0 {
        Ok(state)
    } else {
        match after_timeouts(state, (n - 1) as nat) {
            Ok(state) => match state.handled(WriteInput::Failed(IoErrorKind::TimedOut)).0.step(
                WriteInput::Sent,
            ) {
                Ok((next, _)) => Ok(next),
                Err(error) => Err(error),
            },
            Err(error) => Err(error),
        }
    }
}

/// A client that falls silent is reminded as often as the server is set up to,
/// and once more; then the transfer fails for the block awaited.
pub proof fn law_retries_bounded(state: WriteState, n: nat)
    requires
        state.valid(),
        state.phase == WritePhase::Receiving,
    ensures
        after_timeouts(state, n) == if state.timeouts + n <= state.session.max_send_retries {
            Ok(WriteState { timeouts: state.timeouts + n, ..state })
        } else {
            Err(
                Error::MaxSendRetriesReached(
                    state.session.peer,
                    block_id(state.blocks.len() + 1),
                ),
            )
        },
    decreases n,
{
    if n > 0 {
        law_retries_bounded(state, (n - 1) as nat);
    }
}

/// A timeout sends the last ACK again, and nothing else changes but the count
/// of timeouts.
pub proof fn law_timeout_resends(state: WriteState)
    requires
        state.valid(),
        state.phase == WritePhase::Receiving,
    ensures
        state.handled(WriteInput::Failed(IoErrorKind::TimedOut)) == (
            WriteState {
                phase: WritePhase::Resending,
                timeouts: state.timeouts + 1,
                ..state
            },
            WriteOutput::SendAck,
        ),
{
}

/// The state after the client sent `block` as the next one, the block was
/// written and, where the window is over, acknowledged.
pub open spec fn deliver(state: WriteState, block: Seq<u8>) -> WriteState {
    let packet = data_packet(block_id(state.expected()), block);
    let buf = packet + Seq::new((state.buffer_len() - packet.len()) as nat, |i: int| 0u8);
    let written = state.handled(
        WriteInput::Datagram(state.session.peer, buf, packet.len()),
    ).0.handled(WriteInput::Written).0;
    if written.phase == WritePhase::SendingAck {
        written.handled(WriteInput::Sent).0
    } else {
        written
    }
}

/// The state after the client sent `blocks`, one after the other.
pub open spec fn store(state: WriteState, blocks: Seq<Seq<u8>>) -> WriteState
    decreases blocks.len(),
{
    if blocks.len() == 0 {
        state
    } else {
        deliver(store(state, blocks.drop_last()), blocks.last())
    }
}

/// The state in which the first block is awaited.
pub open spec fn opened(session: Session) -> WriteState {
    WriteState::init(session).handled(WriteInput::Start).0.handled(WriteInput::Sent).0
}

proof fn lemma_deliver(state: WriteState, block: Seq<u8>)
    requires
        state.valid(),
        state.phase == WritePhase::Receiving,
        block.len() <= state.session.block_size,
    ensures
        ({
            let next = deliver(state, block);
            &&& next.valid()
            &&& next.session == state.session
            &&& next.blocks == state.blocks.push(block)
            &&& next.phase == if block.len() < state.session.block_size {
                WritePhase::Flushing
            } else {
                WritePhase::Receiving
            }
        }),
{
    let packet = data_packet(block_id(state.expected()), block);
    law_data_round_trip(block_id(state.expected()), block);
    let buf = packet + Seq::new((state.buffer_len() - packet.len()) as nat, |i: int| 0u8);
    assert(buf.take(packet.len() as int) =~= packet);
    let input = WriteInput::Datagram(state.session.peer, buf, packet.len());
    law_valid_kept(state, input);
    let writing = state.handled(input).0;
    law_valid_kept(writing, WriteInput::Written);
    let written = writing.handled(WriteInput::Written).0;
    if written.phase == WritePhase::SendingAck {
        law_valid_kept(written, WriteInput::Sent);
    }
}

proof fn lemma_store_full(session: Session, blocks: Seq<Seq<u8>>)
    requires
        session.valid(),
        forall|i: int| 0 <= i < blocks.len() ==> (#[trigger] blocks[i]).len() == session.block_size,
    ensures
        ({
            let state = store(opened(session), blocks);
            &&& state.valid()
            &&& state.session == session
            &&& state.phase == WritePhase::Receiving
            &&& state.blocks == blocks
        }),
    decreases blocks.len(),
{
    if blocks.len() == 0 {
        let start = WriteState::init(session);
        law_valid_kept(start, WriteInput::Start);
        law_valid_kept(start.handled(WriteInput::Start).0, WriteInput::Sent);
        assert(opened(session).blocks =~= blocks);
    } else {
        lemma_store_full(session, blocks.drop_last());
        lemma_deliver(store(opened(session), blocks.drop_last()), blocks.last());
        assert(blocks.drop_last().push(blocks.last()) =~= blocks);
    }
}

/// A client can store any file: for any content, any window size and any block
/// size but zero, when the client has sent the blocks of the file, the transfer
/// ends with the file written.
pub proof fn law_stores_any_content(session: Session, file: Seq<u8>)
    requires
        session.valid(),
        0 < session.block_size,
    ensures
        ({
            let blocks = cut(file, session.block_size as nat);
            let stored = store(opened(session), blocks);
            let closing = stored.handled(WriteInput::Flushed);
            let end = closing.0.handled(WriteInput::Closed);
            &&& stored.phase == WritePhase::Flushing
            &&& closing.1 == WriteOutput::Close
            &&& end.1 == WriteOutput::Done
            &&& end.0.phase == WritePhase::Done
            &&& end.0.content() == file
        }),
{
    let bs = session.block_size as nat;
    let blocks = cut(file, bs);
    law_cut_well(file, bs);
    law_cut_joins(file, bs);
    lemma_store_full(session, blocks.drop_last());
    lemma_deliver(store(opened(session), blocks.drop_last()), blocks.last());
    assert(blocks.drop_last().push(blocks.last()) =~= blocks);
}

/// A transfer that fails tells the client why, by one ERROR packet, and that is
/// the end: nothing can follow, so the packet is never sent again.
pub proof fn law_failure_reported_once(state: WriteState, input: WriteInput, error: Error)
    requires
        state.valid(),
        state.expects(input),
        state.step(input) == Err::<(WriteState, WriteOutput), Error>(error),
    ensures
        ({
            let (next, output) = state.handled(input);
            &&& output == WriteOutput::Fail(error, error_packet(error.reported()))
            &&& next.phase == WritePhase::Failed
            &&& forall|later: WriteInput| !#[trigger] next.expects(later)
        }),
{
}

/// A transfer that is done stays done.
pub proof fn law_done_is_final(state: WriteState, later: WriteInput)
    requires
        state.phase == WritePhase::Done,
    ensures
        !state.expects(later),
{
}

/// Only what the client asked for is acknowledged, and only what the server
/// does not turn down, within its limits; where that is nothing, there is no
/// OACK.
pub proof fn law_oack_is_asked_for(config: ServerConfig, req: RwReq)
    ensures
        oack_opts(config, req) matches Some(opts) ==> {
            &&& opts != Opts::none()
            &&& opts.block_size is Some <==> req.opts.block_size is Some
                && !config.ignore_client_block_size
            &&& opts.block_size matches Some(size) ==> {
                &&& size <= req.opts.block_size.unwrap()
                &&& size == req.opts.block_size.unwrap() || Some(size) == config.block_size_limit
                &&& config.block_size_limit is Some ==> size <= config.block_size_limit.unwrap()
            }
            &&& opts.window_size is Some <==> req.opts.window_size is Some
                && !config.ignore_client_window_size
            &&& opts.window_size matches Some(size) ==> {
                &&& size <= req.opts.window_size.unwrap()
                &&& size == req.opts.window_size.unwrap() || Some(size) == config.window_size_limit
                &&& config.window_size_limit is Some ==> size
                    <= config.window_size_limit.unwrap()
            }
            &&& opts.timeout == if config.ignore_client_timeout {
                None
            } else {
                req.opts.timeout
            }
            &&& opts.transfer_size == req.opts.transfer_size
        },
        oack_opts(config, req) is None <==> {
            &&& req.opts.block_size is None || config.ignore_client_block_size
            &&& req.opts.timeout is None || config.ignore_client_timeout
            &&& req.opts.transfer_size is None
            &&& req.opts.window_size is None || config.ignore_client_window_size
        },
{
}

/// Without options a transfer runs on the terms of RFC 1350: blocks of 512
/// bytes, each acknowledged, with the timeout of the server.
pub proof fn law_plain_request(peer: PeerAddr, config: ServerConfig, req: RwReq)
    requires
        req.opts == Opts::none(),
    ensures
        oack_opts(config, req) is None,
        ({
            let session = Session::spec_new(peer, config, oack_opts(config, req));
            &&& session.block_size == 512
            &&& session.window_size == 1
            &&& session.timeout == config.timeout
        }),
{
}

} // verus!
