//! Serving a write request: numbered blocks of the client go to a writer, in
//! order, and every window of them is acknowledged.

use crate::blocks::{block_id, ended, joined, lemma_id_ahead, well_cut};
use crate::buffer;
use crate::buffer::{buffered, frozen};
use crate::error::{Error, IoErrorKind};
use crate::packet;
use crate::packet::{
    ack_packet, decoded, error_packet, oack_packet, Opts, Received, RwReq, PACKET_DATA_HEADER_LEN,
};
use crate::session::{agree_size, agreed_size, unless_none, PeerAddr, ServerConfig, Session};
use bytes::{Bytes, BytesMut};
use vstd::prelude::*;

verus! {

/// The options of a write request to acknowledge: the sizes up to their limits
/// and the timeout, unless turned down, and the size of the file as the client
/// gives it.
pub open spec fn oack_opts(config: ServerConfig, req: RwReq) -> Option<Opts> {
    unless_none(
        Opts {
            block_size: agreed_size(
                config.ignore_client_block_size,
                req.opts.block_size,
                config.block_size_limit,
            ),
            timeout: if config.ignore_client_timeout {
                None
            } else {
                req.opts.timeout
            },
            transfer_size: req.opts.transfer_size,
            window_size: agreed_size(
                config.ignore_client_window_size,
                req.opts.window_size,
                config.window_size_limit,
            ),
        },
    )
}

/// Decides which options of a write request to acknowledge.
pub fn build_oack_opts(config: &ServerConfig, req: &RwReq) -> (opts: Option<Opts>)
    ensures
        opts == oack_opts(*config, *req),
{
    let mut opts = Opts::default();

    opts.block_size = agree_size(
        config.ignore_client_block_size,
        req.opts.block_size,
        config.block_size_limit,
    );

    if !config.ignore_client_timeout {
        opts.timeout = req.opts.timeout;
    }
    opts.transfer_size = req.opts.transfer_size;
    opts.window_size = agree_size(
        config.ignore_client_window_size,
        req.opts.window_size,
        config.window_size_limit,
    );

    if opts == Opts::default() {
        None
    } else {
        Some(opts)
    }
}

/// Where a transfer stands.
#[derive(Clone, Copy, Debug, PartialEq, Eq, Structural)]
pub enum WritePhase {
    /// Nothing was done yet.
    Ready,
    /// The first ACK, or the OACK, is being sent.
    Opening,
    /// A block is awaited.
    Receiving,
    /// The last ACK is being sent again, as no block came in time.
    Resending,
    /// A block is being written.
    Writing,
    /// The ACK of a window is being sent.
    SendingAck,
    /// The writer is being flushed.
    Flushing,
    /// The writer is being closed.
    Closing,
    /// All was written and acknowledged.
    Done,
    /// The transfer was given up.
    Failed,
}

/// The outcome of the last action.
pub enum WriteEvent {
    /// The transfer begins.
    Start,
    /// The ACK was sent.
    Sent,
    /// A datagram of this length came into the buffer.
    Datagram(PeerAddr, BytesMut, usize),
    /// The payload was written.
    Written,
    /// The writer was flushed.
    Flushed,
    /// The writer was closed.
    Closed,
    /// The action failed; waiting for a datagram fails by `TimedOut` too.
    Failed(IoErrorKind),
}

/// What to do next.
pub enum WriteAction {
    /// Send the packet that `WriteRequest::ack` gives to the peer.
    SendAck,
    /// Wait for a datagram to put into the buffer, for the whole of the
    /// timeout.
    Receive(BytesMut),
    /// Go on waiting, for what is left of the timeout.
    KeepReceiving(BytesMut),
    /// Write this payload.
    Write(Bytes),
    /// Flush the writer.
    Flush,
    /// Close the writer.
    Close,
    /// The transfer is over.
    Done,
    /// The transfer failed for this reason: send the ERROR packet once, and
    /// do not mind whether that works.
    Fail(Error, Bytes),
}

/// A `WriteEvent`, in bytes; a datagram stands with the buffer that it is in.
pub enum WriteInput {
    Start,
    Sent,
    Datagram(PeerAddr, Seq<u8>, nat),
    Written,
    Flushed,
    Closed,
    Failed(IoErrorKind),
}

/// A `WriteAction`, in bytes.
#[verifier::ext_equal]
pub enum WriteOutput {
    SendAck,
    Receive(Seq<u8>),
    KeepReceiving(Seq<u8>),
    Write(Seq<u8>),
    Flush,
    Close,
    Done,
    Fail(Error, Seq<u8>),
}

impl View for WriteEvent {
    type V = WriteInput;

    open spec fn view(&self) -> WriteInput {
        match *self {
            WriteEvent::Start => WriteInput::Start,
            WriteEvent::Sent => WriteInput::Sent,
            WriteEvent::Datagram(from, buf, len) => WriteInput::Datagram(
                from,
                buffered(buf),
                len as nat,
            ),
            WriteEvent::Written => WriteInput::Written,
            WriteEvent::Flushed => WriteInput::Flushed,
            WriteEvent::Closed => WriteInput::Closed,
            WriteEvent::Failed(kind) => WriteInput::Failed(kind),
        }
    }
}

impl View for WriteAction {
    type V = WriteOutput;

    open spec fn view(&self) -> WriteOutput {
        match *self {
            WriteAction::SendAck => WriteOutput::SendAck,
            WriteAction::Receive(buf) => WriteOutput::Receive(buffered(buf)),
            WriteAction::KeepReceiving(buf) => WriteOutput::KeepReceiving(buffered(buf)),
            WriteAction::Write(payload) => WriteOutput::Write(frozen(payload)),
            WriteAction::Flush => WriteOutput::Flush,
            WriteAction::Close => WriteOutput::Close,
            WriteAction::Done => WriteOutput::Done,
            WriteAction::Fail(error, packet) => WriteOutput::Fail(error, frozen(packet)),
        }
    }
}

/// A transfer from the client, as a mathematical object.
#[verifier::ext_equal]
pub struct WriteState {
    pub session: Session,
    pub phase: WritePhase,
    /// The blocks that were given to the writer so far; `blocks[i]` is block
    /// number `i + 1`.
    pub blocks: Seq<Seq<u8>>,
    /// The number of the first block of the window.
    pub window_base: nat,
    /// How many blocks of the window were written.
    pub in_window: nat,
    /// How often no block came in time since the last one.
    pub timeouts: nat,
    /// The packet that acknowledges what came so far.
    pub ack: Seq<u8>,
}

impl WriteState {
    /// A transfer that has not begun.
    pub open spec fn init(session: Session) -> WriteState {
        WriteState {
            session,
            phase: WritePhase::Ready,
            blocks: Seq::empty(),
            window_base: 1,
            in_window: 0,
            timeouts: 0,
            ack: Seq::empty(),
        }
    }

    /// All bytes that were given to the writer.
    pub open spec fn content(self) -> Seq<u8> {
        joined(self.blocks)
    }

    /// The client has no more: the last block is not full.
    pub open spec fn ended(self) -> bool {
        ended(self.blocks, self.session.block_size as nat)
    }

    /// The number of the block that is awaited.
    pub open spec fn expected(self) -> nat {
        self.window_base + self.in_window
    }

    /// The size of the largest datagram to be received.
    pub open spec fn buffer_len(self) -> nat {
        (PACKET_DATA_HEADER_LEN + self.session.block_size) as nat
    }

    /// The events that can follow the last action.
    pub open spec fn expects(self, input: WriteInput) -> bool {
        match input {
            WriteInput::Start => self.phase == WritePhase::Ready,
            WriteInput::Sent => {
                ||| self.phase == WritePhase::Opening
                ||| self.phase == WritePhase::Resending
                ||| self.phase == WritePhase::SendingAck
            },
            WriteInput::Datagram(_, buf, len) => {
                &&& self.phase == WritePhase::Receiving
                &&& len <= buf.len() == self.buffer_len()
            },
            WriteInput::Written => self.phase == WritePhase::Writing,
            WriteInput::Flushed => self.phase == WritePhase::Flushing,
            WriteInput::Closed => self.phase == WritePhase::Closing,
            WriteInput::Failed(_) => {
                &&& self.phase != WritePhase::Ready
                &&& self.phase != WritePhase::Done
                &&& self.phase != WritePhase::Failed
            },
        }
    }

    /// The OACK opens the transfer, or, without options, the ACK of block 0.
    pub open spec fn after_start(self) -> (WriteState, WriteOutput) {
        (
            WriteState {
                phase: WritePhase::Opening,
                ack: match self.session.oack_opts {
                    Some(opts) => oack_packet(opts),
                    None => ack_packet(0),
                },
                ..self
            },
            WriteOutput::SendAck,
        )
    }

    /// The window takes one block more. It takes one at least, so that there
    /// is a block to acknowledge.
    pub open spec fn window_open(self) -> bool {
        self.in_window == 0 || self.in_window < self.session.window_size
    }

    /// Waits for the next block of the window; where the window is complete,
    /// acknowledges its last block.
    pub open spec fn next_block(self) -> (WriteState, WriteOutput) {
        if self.window_open() && !self.ended() {
            (
                WriteState { phase: WritePhase::Receiving, timeouts: 0, ..self },
                WriteOutput::Receive(Seq::new(self.buffer_len(), |i: int| 0u8)),
            )
        } else {
            (
                WriteState {
                    phase: WritePhase::SendingAck,
                    ack: ack_packet(block_id(self.last_of_window())),
                    ..self
                },
                WriteOutput::SendAck,
            )
        }
    }

    /// The number of the last block of the window that was written.
    pub open spec fn last_of_window(self) -> nat {
        (self.window_base + self.in_window - 1) as nat
    }

    /// The payload of a datagram that is the block awaited: DATA of the peer
    /// with the id of that block.
    pub open spec fn payload(self, from: PeerAddr, datagram: Seq<u8>) -> Option<Seq<u8>> {
        if from == self.session.peer && decoded(datagram) == Some(
            Received::Data(block_id(self.expected())),
        ) {
            Some(datagram.skip(PACKET_DATA_HEADER_LEN as int))
        } else {
            None
        }
    }

    /// A datagram came in. The block awaited is written, anything else is
    /// ignored.
    pub open spec fn after_datagram(self, from: PeerAddr, buf: Seq<u8>, len: nat) -> (
        WriteState,
        WriteOutput,
    ) {
        match self.payload(from, buf.take(len as int)) {
            Some(payload) => (
                WriteState {
                    phase: WritePhase::Writing,
                    blocks: self.blocks.push(payload),
                    ..self
                },
                WriteOutput::Write(payload),
            ),
            None => (self, WriteOutput::KeepReceiving(buf)),
        }
    }

    /// The ACK is sent. After the last block the writer is flushed. After too
    /// many timeouts the transfer fails.
    pub open spec fn after_sent(self) -> Result<(WriteState, WriteOutput), Error> {
        if self.phase == WritePhase::Opening {
            Ok(self.next_block())
        } else if self.phase == WritePhase::Resending {
            if self.timeouts > self.session.max_send_retries {
                Err(Error::MaxSendRetriesReached(self.session.peer, block_id(self.expected())))
            } else {
                Ok(
                    (
                        WriteState { phase: WritePhase::Receiving, ..self },
                        WriteOutput::Receive(Seq::new(self.buffer_len(), |i: int| 0u8)),
                    ),
                )
            }
        } else if self.ended() {
            Ok((WriteState { phase: WritePhase::Flushing, ..self }, WriteOutput::Flush))
        } else {
            Ok(
                WriteState {
                    window_base: self.last_of_window() + 1,
                    in_window: 0,
                    ..self
                }.next_block(),
            )
        }
    }

    /// The next state and the next action, or why the transfer fails.
    pub open spec fn step(self, input: WriteInput) -> Result<(WriteState, WriteOutput), Error> {
        match input {
            WriteInput::Start => Ok(self.after_start()),
            WriteInput::Sent => self.after_sent(),
            WriteInput::Datagram(from, buf, len) => Ok(self.after_datagram(from, buf, len)),
            WriteInput::Written => Ok(
                WriteState { in_window: self.in_window + 1, ..self }.next_block(),
            ),
            WriteInput::Flushed => Ok(
                (WriteState { phase: WritePhase::Closing, ..self }, WriteOutput::Close),
            ),
            WriteInput::Closed => Ok(
                (WriteState { phase: WritePhase::Done, ..self }, WriteOutput::Done),
            ),
            WriteInput::Failed(kind) => {
                if kind == IoErrorKind::TimedOut && self.phase == WritePhase::Receiving {
                    Ok(
                        (
                            WriteState {
                                phase: WritePhase::Resending,
                                timeouts: self.timeouts + 1,
                                ..self
                            },
                            WriteOutput::SendAck,
                        ),
                    )
                } else {
                    Err(Error::Io(kind))
                }
            },
        }
    }

    /// As `step`; a transfer that fails ends with an ERROR packet.
    pub open spec fn handled(self, input: WriteInput) -> (WriteState, WriteOutput) {
        match self.step(input) {
            Ok(next) => next,
            Err(error) => (
                WriteState { phase: WritePhase::Failed, ..self },
                WriteOutput::Fail(error, error_packet(error.reported())),
            ),
        }
    }

    /// What holds of a transfer at any time.
    pub open spec fn valid(self) -> bool {
        &&& self.session.valid()
        &&& well_cut(self.blocks, self.session.block_size as nat)
        &&& 1 <= self.window_base
        &&& self.in_window <= self.session.window_size || self.in_window == 1
        &&& self.timeouts <= self.session.max_send_retries + 1
        &&& match self.phase {
            WritePhase::Ready => self == WriteState::init(self.session),
            WritePhase::Opening => {
                &&& self.window_base == 1
                &&& self.in_window == 0
                &&& self.blocks.len() == 0
                &&& self.ack == match self.session.oack_opts {
                    Some(opts) => oack_packet(opts),
                    None => ack_packet(0),
                }
            },
            WritePhase::Receiving | WritePhase::Resending => {
                &&& !self.ended()
                &&& self.window_open()
                &&& self.expected() == self.blocks.len() + 1
                &&& self.phase == WritePhase::Receiving ==> self.timeouts
                    <= self.session.max_send_retries
            },
            WritePhase::Writing => {
                &&& self.window_open()
                &&& self.expected() == self.blocks.len()
            },
            // The ACK is for the last block written, which completes the
            // window or ends the content.
            WritePhase::SendingAck => {
                &&& self.ack == ack_packet(block_id(self.last_of_window()))
                &&& self.last_of_window() == self.blocks.len()
                &&& 0 < self.in_window
                &&& self.in_window >= self.session.window_size || self.ended()
            },
            // The last block is written and acknowledged.
            WritePhase::Flushing | WritePhase::Closing | WritePhase::Done => {
                &&& self.ended()
                &&& self.ack == ack_packet(block_id(self.blocks.len()))
            },
            WritePhase::Failed => true,
        }
    }
}

/// A transfer from the client.
pub struct WriteRequest {
    session: Session,
    phase: WritePhase,
    /// Where the buffers to receive into are split off.
    buffer: BytesMut,
    /// The last ACK or OACK.
    ack: BytesMut,
    /// The id of the first block of the window.
    window_base: u16,
    blocks_in_window: u16,
    /// The last block is not full.
    is_last_block: bool,
    timeouts: u64,
    blocks: Ghost<Seq<Seq<u8>>>,
    base: Ghost<nat>,
}

impl View for WriteRequest {
    type V = WriteState;

    closed spec fn view(&self) -> WriteState {
        WriteState {
            session: self.session,
            phase: self.phase,
            blocks: self.blocks@,
            window_base: self.base@,
            in_window: self.blocks_in_window as nat,
            timeouts: self.timeouts as nat,
            ack: buffered(self.ack),
        }
    }
}

impl WriteRequest {
    /// The fields agree with each other.
    spec fn fields_agree(self) -> bool {
        &&& buffered(self.buffer).len() == 0
        &&& self.window_base == block_id(self.base@)
        &&& self.is_last_block == self@.ended()
    }

    /// The transfer is valid and its fields agree with each other.
    pub closed spec fn wf(self) -> bool {
        self@.valid() && self.fields_agree()
    }

    /// A well-formed request stands for a valid transfer.
    pub proof fn lemma_valid(self)
        requires
            self.wf(),
        ensures
            self@.valid(),
    {
    }

    /// A transfer of a file from `peer`, which asks for it by `req`.
    pub fn init(peer: PeerAddr, req: &RwReq, config: &ServerConfig) -> (request: WriteRequest)
        ensures
            request.wf(),
            request@.valid(),
            request@ == WriteState::init(
                Session::spec_new(peer, *config, oack_opts(*config, *req)),
            ),
    {
        proof {
            lemma_id_ahead(1, 0);
        }
        let oack_opts = build_oack_opts(config, req);
        let session = Session::new(peer, config, oack_opts);
        WriteRequest {
            session,
            phase: WritePhase::Ready,
            buffer: buffer::new(),
            ack: buffer::new(),
            window_base: 1,
            blocks_in_window: 0,
            is_last_block: false,
            timeouts: 0,
            blocks: Ghost(Seq::empty()),
            base: Ghost(1),
        }
    }

    /// The terms of the transfer.
    pub fn session(&self) -> (session: &Session)
        ensures
            *session == self@.session,
    {
        &self.session
    }

    /// The packet that acknowledges what came so far.
    pub fn ack(&self) -> (packet: &[u8])
        ensures
            packet@ == self@.ack,
    {
        buffer::as_slice(&self.ack)
    }

    /// Takes the outcome of the last action and decides on the next one. A
    /// transfer that fails ends with an ERROR packet.
    pub fn handle(&mut self, event: WriteEvent) -> (action: WriteAction)
        requires
            old(self).wf(),
            old(self)@.expects(event@),
        ensures
            final(self).wf(),
            final(self)@.valid(),
            (final(self)@, action@) == old(self)@.handled(event@),
    {
        match self.try_handle(event) {
            Ok(action) => action,
            Err(error) => {
                self.phase = WritePhase::Failed;
                packet::encode_error(error.report(), &mut self.buffer);
                let buf = buffer::freeze(buffer::split(&mut self.buffer));
                assert(frozen(buf) =~= error_packet(error.reported()));
                WriteAction::Fail(error, buf)
            },
        }
    }

    /// Takes the outcome of the last action and decides on the next one, or
    /// why the transfer fails.
    pub fn try_handle(&mut self, event: WriteEvent) -> (action: Result<WriteAction, Error>)
        requires
            old(self).wf(),
            old(self)@.expects(event@),
        ensures
            final(self).wf(),
            final(self)@.valid(),
            match action {
                Ok(action) => old(self)@.step(event@) == Ok::<_, Error>((final(self)@, action@)),
                Err(error) => {
                    &&& old(self)@.step(event@) == Err::<(WriteState, WriteOutput), _>(error)
                    &&& final(self)@ == old(self)@
                },
            },
    {
        proof {
            law_valid_kept(self@, event@);
        }
        match event {
            WriteEvent::Start => {
                match self.session.oack_opts {
                    Some(opts) => packet::encode_oack(opts, &mut self.ack),
                    None => packet::encode_ack(0, &mut self.ack),
                }
                self.phase = WritePhase::Opening;
                assert(self@ =~= old(self)@.after_start().0);
                Ok(WriteAction::SendAck)
            },
            WriteEvent::Sent => {
                if self.phase == WritePhase::Opening {
                    Ok(self.recv_window())
                } else if self.phase == WritePhase::Resending {
                    self.recv_data_block_retry()
                } else if self.is_last_block {
                    self.phase = WritePhase::Flushing;
                    Ok(WriteAction::Flush)
                } else {
                    self.advance_window();
                    Ok(self.recv_window())
                }
            },
            WriteEvent::Datagram(from, buf, len) => match self.recv_data_block(from, buf, len) {
                Ok(payload) => {
                    self.is_last_block = buffer::len(&payload) < self.session.block_size;
                    self.blocks = Ghost(self.blocks@.push(frozen(payload)));
                    self.phase = WritePhase::Writing;
                    Ok(WriteAction::Write(payload))
                },
                Err(buf) => Ok(WriteAction::KeepReceiving(buf)),
            },
            WriteEvent::Written => {
                self.blocks_in_window = self.blocks_in_window + 1;
                Ok(self.recv_window())
            },
            WriteEvent::Flushed => {
                self.phase = WritePhase::Closing;
                Ok(WriteAction::Close)
            },
            WriteEvent::Closed => {
                self.phase = WritePhase::Done;
                Ok(WriteAction::Done)
            },
            WriteEvent::Failed(kind) => {
                if kind == IoErrorKind::TimedOut && self.phase == WritePhase::Receiving {
                    // The client is reminded of what came so far.
                    self.timeouts = self.timeouts + 1;
                    self.phase = WritePhase::Resending;
                    Ok(WriteAction::SendAck)
                } else {
                    Err(Error::Io(kind))
                }
            },
        }
    }

    /// The id of the last block of the window.
    fn last_block_id(&self) -> (id: u16)
        requires
            self.window_base == block_id(self.base@),
            self.blocks_in_window > 0,
        ensures
            id == block_id(self@.last_of_window()),
    {
        proof {
            lemma_id_ahead(self.base@, (self.blocks_in_window - 1) as u16);
        }
        self.window_base.wrapping_add(self.blocks_in_window - 1)
    }

    /// Starts the next window after the block that was acknowledged.
    fn advance_window(&mut self)
        requires
            old(self).fields_agree(),
            old(self)@.in_window > 0,
        ensures
            final(self).fields_agree(),
            final(self)@ == (WriteState {
                window_base: old(self)@.last_of_window() + 1,
                in_window: 0,
                ..old(self)@
            }),
    {
        let last_block_id = self.last_block_id();
        proof {
            lemma_id_ahead(self@.last_of_window(), 1);
        }
        self.base = Ghost(self@.last_of_window() + 1);
        self.window_base = last_block_id.wrapping_add(1);
        self.blocks_in_window = 0;
    }

    /// A buffer to receive into.
    fn recv_buffer(&mut self) -> (buf: BytesMut)
        requires
            old(self).fields_agree(),
            old(self)@.session.valid(),
        ensures
            final(self).fields_agree(),
            final(self)@ == old(self)@,
            buffered(buf) == Seq::new(old(self)@.buffer_len(), |i: int| 0u8),
    {
        buffer::resize(&mut self.buffer, PACKET_DATA_HEADER_LEN + self.session.block_size, 0);
        let buf = buffer::split(&mut self.buffer);
        assert(buffered(buf) =~= Seq::new(self@.buffer_len(), |i: int| 0u8));
        buf
    }

    /// Waits for the next block of the window; where the window is complete,
    /// acknowledges its last block.
    fn recv_window(&mut self) -> (action: WriteAction)
        requires
            old(self).fields_agree(),
            old(self)@.session.valid(),
            old(self)@.in_window == 0 ==> !old(self)@.ended(),
        ensures
            final(self).fields_agree(),
            (final(self)@, action@) == old(self)@.next_block(),
    {
        if (self.blocks_in_window == 0 || (self.blocks_in_window as usize)
            < self.session.window_size) && !self.is_last_block {
            self.timeouts = 0;
            self.phase = WritePhase::Receiving;
            WriteAction::Receive(self.recv_buffer())
        } else {
            let last_block_id = self.last_block_id();
            buffer::clear(&mut self.ack);
            packet::encode_ack(last_block_id, &mut self.ack);
            self.phase = WritePhase::SendingAck;
            assert(self@ =~= old(self)@.next_block().0);
            WriteAction::SendAck
        }
    }

    /// The ACK was sent again as no block came in time: waits once more,
    /// unless that was done often enough.
    fn recv_data_block_retry(&mut self) -> (action: Result<WriteAction, Error>)
        requires
            old(self).fields_agree(),
            old(self)@.session.valid(),
            old(self)@.phase == WritePhase::Resending,
        ensures
            final(self).fields_agree(),
            match action {
                Ok(action) => old(self)@.after_sent() == Ok::<_, Error>((final(self)@, action@)),
                Err(error) => {
                    &&& old(self)@.after_sent() == Err::<(WriteState, WriteOutput), _>(error)
                    &&& final(self)@ == old(self)@
                },
            },
    {
        if self.timeouts > self.session.max_send_retries as u64 {
            proof {
                lemma_id_ahead(self.base@, self.blocks_in_window);
            }
            let expected: u16 = self.window_base.wrapping_add(self.blocks_in_window);
            return Err(Error::MaxSendRetriesReached(self.session.peer, expected));
        }
        self.phase = WritePhase::Receiving;
        Ok(WriteAction::Receive(self.recv_buffer()))
    }

    /// The payload of a datagram of `len` bytes in `buf` where it is the block
    /// awaited, else the buffer as it was.
    pub fn recv_data_block(&self, from: PeerAddr, buf: BytesMut, len: usize) -> (payload: Result<
        Bytes,
        BytesMut,
    >)
        requires
            self.wf(),
            len <= buffered(buf).len(),
        ensures
            match payload {
                Ok(payload) => self@.payload(from, buffered(buf).take(len as int)) == Some(
                    frozen(payload),
                ),
                Err(same) => {
                    &&& self@.payload(from, buffered(buf).take(len as int)) is None
                    &&& buffered(same) == buffered(buf)
                },
            },
    {
        if from != self.session.peer {
            return Err(buf);
        }
        let datagram = vstd::slice::slice_subrange(buffer::as_slice(&buf), 0, len);
        assert(datagram@ =~= buffered(buf).take(len as int));
        proof {
            lemma_id_ahead(self.base@, self.blocks_in_window);
        }
        let expected: u16 = self.window_base.wrapping_add(self.blocks_in_window);
        if let Some(Received::Data(block_id)) = packet::decode(datagram) {
            if block_id == expected {
                let mut buf = buf;
                buffer::truncate(&mut buf, len);
                buffer::advance(&mut buf, PACKET_DATA_HEADER_LEN);
                return Ok(buffer::freeze(buf));
            }
        }
        Err(buf)
    }
}

/// Every action leaves a transfer valid.
pub proof fn law_valid_kept(state: WriteState, input: WriteInput)
    requires
        state.valid(),
        state.expects(input),
    ensures
        state.handled(input).0.valid(),
        state.handled(input).0.session == state.session,
        state.step(input) matches Ok(next) ==> next.0.valid(),
{
}

} // verus!
