//! What holds between the two directions.

use crate::blocks::cut;
use crate::packet::{decoded, law_other_packets_say_nothing, PacketError, Received};
use crate::read_laws;
use crate::read_laws::packet_of;
use crate::read_req::{room_for, ReadInput, ReadPhase, ReadState};
use crate::session::Session;
use crate::write_laws;
use crate::write_laws::is_packet_of;
use crate::write_req::{WriteInput, WritePhase, WriteState};
use vstd::prelude::*;

verus! {

/// Whatever DATA the writing side takes for its client's was sent by the
/// reading side.
pub open spec fn relayed(
    reading: Session,
    room: nat,
    read_inputs: Seq<ReadInput>,
    writing: Session,
    write_inputs: Seq<WriteInput>,
) -> bool {
    forall|i: int|
        0 <= i < write_inputs.len() ==> (#[trigger] write_inputs[i] matches WriteInput::Datagram(
            from,
            buf,
            len,
        ) ==> (from == writing.peer && (decoded(buf.take(len as int)) matches Some(
            Received::Data(_),
        )) ==> read_laws::sent(
            read_laws::answers(ReadState::init(reading, room), read_inputs),
            buf.take(len as int),
        )))
}

/// What one transfer serves, another can store: where the DATA of a transfer
/// that is done is passed on, in any order, some of it lost and some repeated,
/// to a transfer from a client with the same block size, and that transfer is
/// done too, then it has written what the other one read. The content has to
/// have so few blocks that their ids differ.
pub proof fn law_relay(
    reading: Session,
    room: nat,
    read_inputs: Seq<ReadInput>,
    writing: Session,
    write_inputs: Seq<WriteInput>,
)
    requires
        reading.valid(),
        room_for(reading, room),
        writing.valid(),
        reading.block_size == writing.block_size,
        read_laws::in_turn(ReadState::init(reading, room), read_inputs),
        write_laws::in_turn(WriteState::init(writing), write_inputs),
        read_laws::run(ReadState::init(reading, room), read_inputs).phase == ReadPhase::Done,
        write_laws::run(WriteState::init(writing), write_inputs).phase == WritePhase::Done,
        cut(read_laws::all_read(read_inputs), reading.block_size as nat).len() <= 65536,
        relayed(reading, room, read_inputs, writing, write_inputs),
    ensures
        write_laws::all_written(WriteState::init(writing), write_inputs) == read_laws::all_read(
            read_inputs,
        ),
{
    let file = read_laws::all_read(read_inputs);
    let blocks = cut(file, reading.block_size as nat);
    let state = read_laws::run(ReadState::init(reading, room), read_inputs);
    read_laws::law_run(reading, room, read_inputs);
    read_laws::law_done_served_all(reading, room, read_inputs);
    assert forall|i: int| 0 <= i < write_inputs.len() implies (#[trigger] write_inputs[i] matches
        WriteInput::Datagram(from, buf, len) ==> (from == writing.peer && (decoded(
        buf.take(len as int),
    ) matches Some(Received::Data(_))) ==> is_packet_of(buf.take(len as int), blocks))) by {
        if let WriteInput::Datagram(from, buf, len) = write_inputs[i] {
            let datagram = buf.take(len as int);
            if from == writing.peer && (decoded(datagram) matches Some(Received::Data(_))) {
                read_laws::law_sends_only_blocks(reading, room, read_inputs, datagram);
                if let Some(opts) = reading.oack_opts {
                    law_other_packets_say_nothing(opts, PacketError::UnknownError);
                }
                let k = choose|k: int|
                    0 <= k < state.blocks.len() && datagram == #[trigger] packet_of(
                        state.blocks,
                        k,
                    );
                assert(datagram == packet_of(blocks, k));
            }
        }
    }
    write_laws::law_any_order(writing, write_inputs, file);
}

} // verus!
