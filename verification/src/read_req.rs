//! Serving a read request: the content of a reader goes to the client in
//! numbered blocks, a window of them at a time.

use crate::blocks::{acked_count, block_id, ended, joined, lemma_id_ahead, well_cut};
use crate::buffer;
use crate::buffer::{buffered, frozen};
use crate::error::{Error, IoErrorKind};
use crate::packet;
use crate::packet::{
    data_packet, decoded, error_packet, oack_packet, Opts, Received, RwReq, PACKET_DATA_HEADER_LEN,
};
use crate::session::{
    agree_size, agreed_size, unless_none, PeerAddr, ServerConfig, Session, DEFAULT_BLOCK_SIZE,
};
use bytes::{Bytes, BytesMut};
use std::collections::VecDeque;
use vstd::prelude::*;

verus! {

/// Room for a datagram while an ACK is awaited.
pub const ACK_BUFFER_LEN: usize = 1024;

/// The most bytes that are read for a block; no datagram carries more.
pub const MAX_ROOM: usize = 65536;

/// How many bytes are read for a block at most: the block size. A block of no
/// size still has the room that its buffer has behind the header.
pub open spec fn room_for(session: Session, room: nat) -> bool {
    if session.block_size > 0 {
        room == session.block_size
    } else {
        0 < room <= MAX_ROOM
    }
}

/// The options of a read request to acknowledge: the sizes up to their limits
/// and the timeout, unless turned down, and the size of the file where the
/// client asks for it by a zero and it is known.
pub open spec fn oack_opts(config: ServerConfig, req: RwReq, file_size: Option<u64>) -> Option<
    Opts,
> {
    unless_none(
        Opts {
            block_size: agreed_size(
                config.ignore_client_block_size,
                req.opts.block_size,
                config.block_size_limit,
            ),
            timeout: if config.ignore_client_timeout {
                None
            } else {
                req.opts.timeout
            },
            transfer_size: if req.opts.transfer_size == Some(0u64) {
                file_size
            } else {
                None
            },
            window_size: agreed_size(
                config.ignore_client_window_size,
                req.opts.window_size,
                config.window_size_limit,
            ),
        },
    )
}

/// Decides which options of a read request to acknowledge.
pub fn build_oack_opts(config: &ServerConfig, req: &RwReq, file_size: Option<u64>) -> (opts: Option<
    Opts,
>)
    ensures
        opts == oack_opts(*config, *req, file_size),
{
    let mut opts = Opts::default();

    opts.block_size = agree_size(
        config.ignore_client_block_size,
        req.opts.block_size,
        config.block_size_limit,
    );

    if !config.ignore_client_timeout {
        opts.timeout = req.opts.timeout;
    }
    if let (Some(0), Some(file_size)) = (req.opts.transfer_size, file_size) {
        opts.transfer_size = Some(file_size);
    }
    opts.window_size = agree_size(
        config.ignore_client_window_size,
        req.opts.window_size,
        config.window_size_limit,
    );

    if opts == Opts::default() {
        None
    } else {
        Some(opts)
    }
}

/// How many of the `window_len` blocks from the one with id `window_base` on a
/// datagram acknowledges: it has to be an ACK of the peer for one of them.
pub open spec fn ack_of(
    peer: PeerAddr,
    window_base: u16,
    window_len: nat,
    from: PeerAddr,
    datagram: Seq<u8>,
) -> Option<nat> {
    match decoded(datagram) {
        Some(Received::Ack(id)) if from == peer => acked_count(window_base, window_len, id),
        _ => None,
    }
}

/// Where a transfer stands.
#[derive(Clone, Copy, Debug, PartialEq, Eq, Structural)]
pub enum ReadPhase {
    /// Nothing was done yet.
    Ready,
    /// A block is being read.
    Reading,
    /// The OACK is being sent.
    SendingOack,
    /// The ACK of the OACK is awaited.
    AwaitingOack,
    /// What is not acknowledged of the window is being sent.
    SendingWindow,
    /// An ACK of the window is awaited.
    AwaitingAck,
    /// All was sent and acknowledged.
    Done,
    /// The transfer was given up.
    Failed,
}

/// The outcome of the last action.
pub enum ReadEvent<'a> {
    /// The transfer begins.
    Start,
    /// The reader gave these bytes; none mean that it has no more.
    Data(&'a [u8]),
    /// All packets were sent.
    Sent,
    /// A datagram came in.
    Datagram(PeerAddr, &'a [u8]),
    /// The action failed; waiting for a datagram fails by `TimedOut` too.
    Failed(IoErrorKind),
}

/// What to do next.
pub enum ReadAction {
    /// Read up to this many bytes.
    Read(usize),
    /// Send these packets to the peer, in order.
    Send(Vec<Bytes>),
    /// Wait for a datagram, for the whole of the timeout.
    Receive,
    /// Go on waiting, for what is left of the timeout.
    KeepReceiving,
    /// The transfer is over.
    Done,
    /// The transfer failed for this reason: send the ERROR packet once, and
    /// do not mind whether that works.
    Fail(Error, Bytes),
}

/// A `ReadEvent`, in bytes.
pub enum ReadInput {
    Start,
    Data(Seq<u8>),
    Sent,
    Datagram(PeerAddr, Seq<u8>),
    Failed(IoErrorKind),
}

/// A `ReadAction`, in bytes.
#[verifier::ext_equal]
pub enum ReadOutput {
    Read(nat),
    Send(Seq<Seq<u8>>),
    Receive,
    KeepReceiving,
    Done,
    Fail(Error, Seq<u8>),
}

impl<'a> View for ReadEvent<'a> {
    type V = ReadInput;

    open spec fn view(&self) -> ReadInput {
        match *self {
            ReadEvent::Start => ReadInput::Start,
            ReadEvent::Data(data) => ReadInput::Data(data@),
            ReadEvent::Sent => ReadInput::Sent,
            ReadEvent::Datagram(from, datagram) => ReadInput::Datagram(from, datagram@),
            ReadEvent::Failed(kind) => ReadInput::Failed(kind),
        }
    }
}

impl View for ReadAction {
    type V = ReadOutput;

    open spec fn view(&self) -> ReadOutput {
        match *self {
            ReadAction::Read(len) => ReadOutput::Read(len as nat),
            ReadAction::Send(packets) => ReadOutput::Send(
                packets@.map_values(|packet: Bytes| frozen(packet)),
            ),
            ReadAction::Receive => ReadOutput::Receive,
            ReadAction::KeepReceiving => ReadOutput::KeepReceiving,
            ReadAction::Done => ReadOutput::Done,
            ReadAction::Fail(error, packet) => ReadOutput::Fail(error, frozen(packet)),
        }
    }
}

/// A transfer to the client, as a mathematical object.
#[verifier::ext_equal]
pub struct ReadState {
    pub session: Session,
    /// How many bytes are read for a block at most.
    pub room: nat,
    pub phase: ReadPhase,
    /// The blocks read so far; `blocks[i]` is block number `i + 1`.
    pub blocks: Seq<Seq<u8>>,
    /// What was read of the next block.
    pub partial: Seq<u8>,
    /// How many blocks were acknowledged with their whole window; the blocks
    /// after them are the window.
    pub confirmed: nat,
    /// How many blocks of the window are acknowledged.
    pub acked: nat,
    /// How often in a row no answer came in time.
    pub retries: nat,
}

impl ReadState {
    /// What holds of a transfer at any time.
    pub open spec fn valid(self) -> bool {
        &&& self.session.valid()
        &&& room_for(self.session, self.room)
        &&& self.session.block_size > 0 ==> well_cut(
            self.blocks,
            self.session.block_size as nat,
        )
        &&& forall|i: int|
            0 <= i < self.blocks.len() ==> (#[trigger] self.blocks[i]).len() <= self.room
        &&& self.partial.len() <= self.room
        &&& self.confirmed <= self.blocks.len()
        &&& self.acked <= self.window_len()
        // No more blocks than agreed are outstanding.
        &&& self.window_len() <= self.session.window_size || self.window_len() == 1
        &&& self.retries <= self.session.max_send_retries
        &&& match self.phase {
            ReadPhase::Ready => self == ReadState::init(self.session, self.room),
            ReadPhase::Reading => {
                &&& !self.ended()
                &&& self.partial.len() < self.room
                &&& self.acked == 0
                &&& self.window_len() < self.session.window_size || self.blocks.len() == 0
            },
            ReadPhase::SendingOack | ReadPhase::AwaitingOack => {
                &&& self.session.oack_opts is Some
                &&& self.blocks.len() == 1
                &&& self.partial.len() == 0
                &&& self.confirmed == 0
                &&& self.acked == 0
            },
            ReadPhase::SendingWindow => {
                &&& self.blocks.len() > 0
                &&& self.partial.len() == 0
                &&& self.acked < self.window_len() || (self.window_len() == 0 && !self.ended()
                    && self.session.window_size == 0)
            },
            ReadPhase::AwaitingAck => {
                &&& self.partial.len() == 0
                &&& self.acked < self.window_len()
            },
            // All that the reader gave is acknowledged.
            ReadPhase::Done => {
                &&& self.ended()
                &&& self.partial.len() == 0
                &&& self.confirmed == self.blocks.len()
            },
            ReadPhase::Failed => true,
        }
    }

    /// A transfer that has not begun.
    pub open spec fn init(session: Session, room: nat) -> ReadState {
        ReadState {
            session,
            room,
            phase: ReadPhase::Ready,
            blocks: Seq::empty(),
            partial: Seq::empty(),
            confirmed: 0,
            acked: 0,
            retries: 0,
        }
    }

    /// All bytes that the reader gave.
    pub open spec fn content(self) -> Seq<u8> {
        joined(self.blocks) + self.partial
    }

    /// The reader has no more: the last block read is not full.
    pub open spec fn ended(self) -> bool {
        ended(self.blocks, self.session.block_size as nat)
    }

    /// How many blocks the window has.
    pub open spec fn window_len(self) -> nat {
        (self.blocks.len() - self.confirmed) as nat
    }

    /// The DATA packets of the window that are not acknowledged.
    pub open spec fn unacked(self) -> Seq<Seq<u8>> {
        Seq::new(
            (self.window_len() - self.acked) as nat,
            |i: int|
                data_packet(
                    block_id((self.confirmed + self.acked + i + 1) as nat),
                    self.blocks[self.confirmed + self.acked + i],
                ),
        )
    }

    /// What is being sent or was sent last: the OACK, or what is not
    /// acknowledged of the window.
    pub open spec fn outstanding(self) -> Seq<Seq<u8>> {
        if self.phase == ReadPhase::SendingOack || self.phase == ReadPhase::AwaitingOack {
            seq![oack_packet(self.session.oack_opts.unwrap())]
        } else {
            self.unacked()
        }
    }

    /// The id of the first packet outstanding; the OACK counts as block 0.
    pub open spec fn ack_base(self) -> u16 {
        if self.phase == ReadPhase::SendingOack || self.phase == ReadPhase::AwaitingOack {
            0
        } else {
            block_id(self.confirmed + self.acked + 1)
        }
    }

    /// The events that can follow the last action.
    pub open spec fn expects(self, input: ReadInput) -> bool {
        match input {
            ReadInput::Start => self.phase == ReadPhase::Ready,
            ReadInput::Data(data) => {
                &&& self.phase == ReadPhase::Reading
                &&& self.partial.len() + data.len() <= self.room
            },
            ReadInput::Sent => {
                ||| self.phase == ReadPhase::SendingOack
                ||| self.phase == ReadPhase::SendingWindow
            },
            ReadInput::Datagram(_, _) => {
                ||| self.phase == ReadPhase::AwaitingOack
                ||| self.phase == ReadPhase::AwaitingAck
            },
            ReadInput::Failed(_) => {
                &&& self.phase != ReadPhase::Ready
                &&& self.phase != ReadPhase::Done
                &&& self.phase != ReadPhase::Failed
            },
        }
    }

    /// The first block is read whatever the window size.
    pub open spec fn after_start(self) -> (ReadState, ReadOutput) {
        (
            ReadState { phase: ReadPhase::Reading, ..self },
            ReadOutput::Read(self.room),
        )
    }

    /// Reads one block more where there is more and the window has room, else
    /// sends the window.
    pub open spec fn next_window(self) -> (ReadState, ReadOutput) {
        if !self.ended() && self.window_len() < self.session.window_size {
            (
                ReadState { phase: ReadPhase::Reading, ..self },
                ReadOutput::Read(self.room),
            )
        } else {
            let next = ReadState { phase: ReadPhase::SendingWindow, acked: 0, retries: 0, ..self };
            (next, ReadOutput::Send(next.unacked()))
        }
    }

    /// The reader gave `data`. A block ends where there is no more room for it
    /// or where the reader has no more. The OACK goes out after the first block.
    pub open spec fn after_data(self, data: Seq<u8>) -> (ReadState, ReadOutput) {
        let partial = self.partial + data;
        if data.len() > 0 && partial.len() < self.room {
            (
                ReadState { partial, ..self },
                ReadOutput::Read((self.room - partial.len()) as nat),
            )
        } else {
            let next = ReadState {
                blocks: self.blocks.push(partial),
                partial: Seq::empty(),
                ..self
            };
            if next.blocks.len() == 1 && self.session.oack_opts is Some {
                let oack = ReadState { phase: ReadPhase::SendingOack, retries: 0, ..next };
                (oack, ReadOutput::Send(oack.outstanding()))
            } else {
                next.next_window()
            }
        }
    }

    /// What was outstanding is sent. An empty window needs no answer.
    pub open spec fn after_sent(self) -> (ReadState, ReadOutput) {
        if self.phase == ReadPhase::SendingOack {
            (ReadState { phase: ReadPhase::AwaitingOack, ..self }, ReadOutput::Receive)
        } else if self.window_len() == 0 {
            self.next_window()
        } else {
            (ReadState { phase: ReadPhase::AwaitingAck, ..self }, ReadOutput::Receive)
        }
    }

    /// How many packets outstanding a datagram acknowledges.
    pub open spec fn acknowledged(self, from: PeerAddr, datagram: Seq<u8>) -> Option<nat> {
        ack_of(
            self.session.peer,
            self.ack_base(),
            self.outstanding().len(),
            from,
            datagram,
        )
    }

    /// A datagram came in. What acknowledges nothing is ignored. What
    /// acknowledges all ends the window, else the rest is sent again.
    pub open spec fn after_datagram(self, from: PeerAddr, datagram: Seq<u8>) -> (
        ReadState,
        ReadOutput,
    ) {
        match self.acknowledged(from, datagram) {
            None => (self, ReadOutput::KeepReceiving),
            Some(n) => {
                if self.phase == ReadPhase::AwaitingOack {
                    self.next_window()
                } else if n == self.outstanding().len() {
                    let next = ReadState { confirmed: self.blocks.len(), acked: 0, ..self };
                    if next.ended() {
                        (ReadState { phase: ReadPhase::Done, ..next }, ReadOutput::Done)
                    } else {
                        next.next_window()
                    }
                } else {
                    let next = ReadState {
                        phase: ReadPhase::SendingWindow,
                        acked: self.acked + n,
                        retries: 0,
                        ..self
                    };
                    (next, ReadOutput::Send(next.unacked()))
                }
            },
        }
    }

    /// No answer came in time: what is outstanding is sent again, unless that
    /// was done often enough.
    pub open spec fn after_timeout(self) -> Result<(ReadState, ReadOutput), Error> {
        if self.retries >= self.session.max_send_retries {
            Err(Error::MaxSendRetriesReached(self.session.peer, self.ack_base()))
        } else {
            let phase = if self.phase == ReadPhase::AwaitingOack {
                ReadPhase::SendingOack
            } else {
                ReadPhase::SendingWindow
            };
            Ok(
                (
                    ReadState { phase, retries: self.retries + 1, ..self },
                    ReadOutput::Send(self.outstanding()),
                ),
            )
        }
    }

    /// The next state and the next action, or why the transfer fails.
    pub open spec fn step(self, input: ReadInput) -> Result<(ReadState, ReadOutput), Error> {
        match input {
            ReadInput::Start => Ok(self.after_start()),
            ReadInput::Data(data) => Ok(self.after_data(data)),
            ReadInput::Sent => Ok(self.after_sent()),
            ReadInput::Datagram(from, datagram) => Ok(self.after_datagram(from, datagram)),
            ReadInput::Failed(kind) => {
                if kind == IoErrorKind::TimedOut && (self.phase == ReadPhase::AwaitingOack
                    || self.phase == ReadPhase::AwaitingAck) {
                    self.after_timeout()
                } else {
                    Err(Error::Io(kind))
                }
            },
        }
    }

    /// As `step`; a transfer that fails ends with an ERROR packet.
    pub open spec fn handled(self, input: ReadInput) -> (ReadState, ReadOutput) {
        match self.step(input) {
            Ok(next) => next,
            Err(error) => (
                ReadState { phase: ReadPhase::Failed, ..self },
                ReadOutput::Fail(error, error_packet(error.reported())),
            ),
        }
    }
}

/// A transfer to the client.
pub struct ReadRequest {
    session: Session,
    /// How many bytes are read for a block at most.
    room: usize,
    phase: ReadPhase,
    /// The DATA packet that is being filled.
    buffer: BytesMut,
    /// How many bytes of payload `buffer` has.
    filled: usize,
    /// The DATA packets of the window.
    window: VecDeque<Bytes>,
    /// The id of the first block of the window.
    window_base: u16,
    /// The last block read is not full.
    is_last_block: bool,
    /// How many leading blocks of the window are acknowledged; only the
    /// others are sent again.
    acked: u16,
    timeout_retries: u32,
    /// There is an OACK, and it has not been sent yet.
    oack_pending: bool,
    blocks: Ghost<Seq<Seq<u8>>>,
    partial: Ghost<Seq<u8>>,
    confirmed: Ghost<nat>,
}

impl View for ReadRequest {
    type V = ReadState;

    closed spec fn view(&self) -> ReadState {
        ReadState {
            session: self.session,
            room: self.room as nat,
            phase: self.phase,
            blocks: self.blocks@,
            partial: self.partial@,
            confirmed: self.confirmed@,
            acked: self.acked as nat,
            retries: self.timeout_retries as nat,
        }
    }
}

impl ReadRequest {
    /// The fields other than the buffer agree with each other.
    spec fn fields_agree(self) -> bool {
        &&& self.window@.len() == self@.window_len()
        &&& forall|i: int|
            0 <= i < self.window@.len() ==> frozen(#[trigger] self.window@[i]) == data_packet(
                block_id((self.confirmed@ + i + 1) as nat),
                self.blocks@[self.confirmed@ + i],
            )
        &&& self.window_base == block_id(self.confirmed@ + 1)
        &&& self.is_last_block == self@.ended()
        &&& self.filled == self.partial@.len()
        &&& self.oack_pending <==> self.session.oack_opts is Some && self.blocks@.len() == 0
    }

    /// While a block is read, the buffer holds what there is of its packet.
    spec fn buffer_agrees(self) -> bool {
        self.phase == ReadPhase::Reading ==> buffered(self.buffer) == data_packet(
            block_id(self.blocks@.len() + 1),
            self.partial@,
        )
    }

    /// The transfer is valid and its fields agree with each other.
    pub closed spec fn wf(self) -> bool {
        self@.valid() && self.fields_agree() && self.buffer_agrees()
    }

    /// A well-formed request stands for a valid transfer.
    pub proof fn lemma_valid(self)
        requires
            self.wf(),
        ensures
            self@.valid(),
    {
    }

    /// A transfer of a file to `peer`, which asks for it by `req`. For blocks of
    /// no size it is up to the allocator how much is read for a block.
    pub fn init(
        file_size: Option<u64>,
        peer: PeerAddr,
        req: &RwReq,
        config: &ServerConfig,
    ) -> (request: ReadRequest)
        ensures
            request.wf(),
            request@.valid(),
            request@ == ReadState::init(
                Session::spec_new(peer, *config, oack_opts(*config, *req, file_size)),
                request@.room,
            ),
            room_for(request@.session, request@.room),
    {
        let oack_opts = build_oack_opts(config, req, file_size);
        let session = Session::new(peer, config, oack_opts);
        let room: usize = if session.block_size > 0 {
            session.block_size
        } else {
            let mut buf = buffer::with_capacity(PACKET_DATA_HEADER_LEN);
            packet::encode_data_head(1, &mut buf);
            let spare: usize = buffer::spare_room(&mut buf);
            if spare < MAX_ROOM {
                spare
            } else {
                MAX_ROOM
            }
        };
        ReadRequest::with_room(session, room)
    }

    /// A transfer on the terms of `session` that reads up to `room` bytes for a
    /// block.
    pub fn with_room(session: Session, room: usize) -> (request: ReadRequest)
        requires
            session.valid(),
            room_for(session, room as nat),
        ensures
            request.wf(),
            request@.valid(),
            request@ == ReadState::init(session, room as nat),
    {
        proof {
            lemma_id_ahead(1, 0);
        }
        ReadRequest {
            session,
            room,
            phase: ReadPhase::Ready,
            buffer: buffer::new(),
            filled: 0,
            window: VecDeque::with_capacity(session.window_size),
            window_base: 1,
            is_last_block: false,
            acked: 0,
            timeout_retries: 0,
            oack_pending: session.oack_opts.is_some(),
            blocks: Ghost(Seq::empty()),
            partial: Ghost(Seq::empty()),
            confirmed: Ghost(0),
        }
    }

    /// The terms of the transfer.
    pub fn session(&self) -> (session: &Session)
        ensures
            *session == self@.session,
    {
        &self.session
    }

    /// Takes the outcome of the last action and decides on the next one. A
    /// transfer that fails ends with an ERROR packet.
    pub fn handle(&mut self, event: ReadEvent) -> (action: ReadAction)
        requires
            old(self).wf(),
            old(self)@.expects(event@),
        ensures
            final(self).wf(),
            final(self)@.valid(),
            (final(self)@, action@) == old(self)@.handled(event@),
    {
        match self.try_handle(event) {
            Ok(action) => action,
            Err(error) => {
                self.phase = ReadPhase::Failed;
                let mut buf = buffer::with_capacity(DEFAULT_BLOCK_SIZE);
                packet::encode_error(error.report(), &mut buf);
                let buf = buffer::freeze(buffer::split(&mut buf));
                assert(frozen(buf) =~= error_packet(error.reported()));
                ReadAction::Fail(error, buf)
            },
        }
    }

    /// Takes the outcome of the last action and decides on the next one, or
    /// why the transfer fails.
    pub fn try_handle(&mut self, event: ReadEvent) -> (action: Result<ReadAction, Error>)
        requires
            old(self).wf(),
            old(self)@.expects(event@),
        ensures
            final(self).wf(),
            final(self)@.valid(),
            match action {
                Ok(action) => old(self)@.step(event@) == Ok::<_, Error>((final(self)@, action@)),
                Err(error) => {
                    &&& old(self)@.step(event@) == Err::<(ReadState, ReadOutput), _>(error)
                    &&& final(self)@ == old(self)@
                },
            },
    {
        proof {
            law_valid_kept(self@, event@);
        }
        match event {
            ReadEvent::Start => Ok(self.begin_block()),
            ReadEvent::Data(data) => {
                if !self.read_block(data) {
                    return Ok(ReadAction::Read(self.room - self.filled));
                }
                if self.fill_data_block() {
                    self.timeout_retries = 0;
                    self.phase = ReadPhase::SendingOack;
                    Ok(ReadAction::Send(self.send_window()))
                } else {
                    Ok(self.next_window())
                }
            },
            ReadEvent::Sent => {
                if self.phase == ReadPhase::SendingOack {
                    self.phase = ReadPhase::AwaitingOack;
                    Ok(ReadAction::Receive)
                } else if self.window.len() == 0 {
                    Ok(self.next_window())
                } else {
                    self.phase = ReadPhase::AwaitingAck;
                    Ok(ReadAction::Receive)
                }
            },
            ReadEvent::Datagram(from, datagram) => Ok(self.acknowledge(from, datagram)),
            ReadEvent::Failed(kind) => {
                if kind == IoErrorKind::TimedOut && (self.phase == ReadPhase::AwaitingOack
                    || self.phase == ReadPhase::AwaitingAck) {
                    self.retry()
                } else {
                    Err(Error::Io(kind))
                }
            },
        }
    }

    /// Starts the packet of the next block.
    fn begin_block(&mut self) -> (action: ReadAction)
        requires
            old(self).fields_agree(),
            room_for(old(self)@.session, old(self)@.room),
            old(self)@.session.valid(),
            old(self)@.confirmed <= old(self)@.blocks.len(),
            old(self)@.window_len() <= u16::MAX,
            old(self)@.partial.len() == 0,
        ensures
            final(self).fields_agree(),
            final(self).buffer_agrees(),
            final(self)@ == (ReadState { phase: ReadPhase::Reading, ..old(self)@ }),
            action@ == ReadOutput::Read(old(self)@.room),
    {
        proof {
            lemma_id_ahead(self.confirmed@ + 1, self.window.len() as u16);
        }
        let block_id: u16 = self.window_base.wrapping_add(self.window.len() as u16);
        self.buffer = buffer::with_capacity(PACKET_DATA_HEADER_LEN + self.room);
        packet::encode_data_head(block_id, &mut self.buffer);
        self.phase = ReadPhase::Reading;
        assert(buffered(self.buffer) =~= data_packet(
            crate::blocks::block_id(self.blocks@.len() + 1),
            self.partial@,
        ));
        ReadAction::Read(self.room)
    }

    /// Takes what the reader gave of a block; tells whether the block is over.
    fn read_block(&mut self, data: &[u8]) -> (over: bool)
        requires
            old(self).fields_agree(),
            old(self).buffer_agrees(),
            room_for(old(self)@.session, old(self)@.room),
            old(self)@.session.valid(),
            old(self)@.phase == ReadPhase::Reading,
            old(self)@.partial.len() + data@.len() <= old(self)@.room,
        ensures
            final(self).fields_agree(),
            final(self).buffer_agrees(),
            final(self)@ == (ReadState { partial: old(self)@.partial + data@, ..old(self)@ }),
            over == !(data@.len() > 0 && final(self)@.partial.len() < old(self)@.room),
    {
        buffer::put_slice(&mut self.buffer, data);
        self.filled = self.filled + data.len();
        self.partial = Ghost(self.partial@ + data@);
        assert(buffered(self.buffer) =~= data_packet(
            block_id(self.blocks@.len() + 1),
            self.partial@,
        ));
        data.len() == 0 || self.filled >= self.room
    }

    /// Moves the packet of a block that is over to the window; tells whether
    /// the OACK is to be sent now.
    fn fill_data_block(&mut self) -> (oack: bool)
        requires
            old(self).fields_agree(),
            old(self).buffer_agrees(),
            old(self)@.confirmed <= old(self)@.blocks.len(),
            old(self)@.phase == ReadPhase::Reading,
        ensures
            final(self).fields_agree(),
            final(self)@ == (ReadState {
                blocks: old(self)@.blocks.push(old(self)@.partial),
                partial: Seq::empty(),
                ..old(self)@
            }),
            oack == (final(self)@.blocks.len() == 1 && old(self)@.session.oack_opts is Some),
    {
        let packet = buffer::freeze(buffer::split(&mut self.buffer));
        self.window.push_back(packet);
        self.is_last_block = self.filled < self.session.block_size;
        self.filled = 0;
        self.blocks = Ghost(self.blocks@.push(self.partial@));
        self.partial = Ghost(Seq::empty());
        let oack = self.oack_pending;
        self.oack_pending = false;
        oack
    }

    /// Reads one block more where there is more and the window has room, else
    /// sends the window.
    fn next_window(&mut self) -> (action: ReadAction)
        requires
            old(self).fields_agree(),
            room_for(old(self)@.session, old(self)@.room),
            old(self)@.session.valid(),
            old(self)@.confirmed <= old(self)@.blocks.len(),
            old(self)@.partial.len() == 0,
        ensures
            final(self).fields_agree(),
            final(self).buffer_agrees(),
            (final(self)@, action@) == old(self)@.next_window(),
    {
        if !self.is_last_block && self.window.len() < self.session.window_size {
            self.begin_block()
        } else {
            self.acked = 0;
            self.timeout_retries = 0;
            self.phase = ReadPhase::SendingWindow;
            ReadAction::Send(self.send_window())
        }
    }

    /// The packets to send: the OACK, or what is not acknowledged of the
    /// window.
    fn send_window(&self) -> (packets: Vec<Bytes>)
        requires
            self.fields_agree(),
            self@.confirmed <= self@.blocks.len(),
            self@.acked <= self@.window_len(),
            self@.phase == ReadPhase::SendingOack ==> self@.session.oack_opts is Some,
            self@.phase != ReadPhase::AwaitingOack,
        ensures
            packets@.map_values(|packet: Bytes| frozen(packet)) == self@.outstanding(),
    {
        let mut packets: Vec<Bytes> = Vec::new();
        if self.phase == ReadPhase::SendingOack {
            if let Some(opts) = self.session.oack_opts {
                let mut buf = buffer::with_capacity(PACKET_DATA_HEADER_LEN + 64);
                packet::encode_oack(opts, &mut buf);
                assert(buffered(buf) =~= oack_packet(opts));
                packets.push(buffer::freeze(buf));
            }
        } else {
            let mut i: usize = self.acked as usize;
            while i < self.window.len()
                invariant
                    self.fields_agree(),
                    self@.confirmed <= self@.blocks.len(),
                    self@.acked <= i <= self.window@.len(),
                    packets@.len() == i - self@.acked,
                    forall|j: int|
                        0 <= j < packets@.len() ==> frozen(#[trigger] packets@[j])
                            == self@.unacked()[j],
                decreases self.window.len() - i,
            {
                packets.push(buffer::share(&self.window[i]));
                i += 1;
            }
        }
        assert(packets@.map_values(|packet: Bytes| frozen(packet)) =~= self@.outstanding());
        packets
    }

    /// How many of the `window_len` blocks from the one with id `window_base`
    /// on a datagram acknowledges.
    pub fn recv_ack(
        &self,
        window_base: u16,
        window_len: u16,
        from: PeerAddr,
        datagram: &[u8],
    ) -> (blocks: Option<u16>)
        ensures
            ack_of(self@.session.peer, window_base, window_len as nat, from, datagram@) == (
            match blocks {
                Some(n) => Some(n as nat),
                None => None,
            }),
            blocks matches Some(n) ==> 1 <= n <= window_len,
    {
        // No ACK covers an empty window, and what does not come from the
        // client that is served is ignored.
        if window_len == 0 || from != self.session.peer {
            return None;
        }
        if let Some(Received::Ack(block_id)) = packet::decode(datagram) {
            let window_end: u16 = window_base.wrapping_add(window_len);
            if window_end > window_base {
                // The ids of the window do not start over.
                if block_id >= window_base && block_id < window_end {
                    return Some(block_id - window_base + 1);
                }
            } else if block_id >= window_base {
                return Some(1 + (block_id - window_base));
            } else if block_id < window_end {
                return Some(1 + block_id + (window_len - window_end));
            }
        }
        None
    }

    /// Drops the window, all of which is acknowledged.
    fn clear_window(&mut self)
        requires
            old(self).fields_agree(),
            old(self)@.confirmed <= old(self)@.blocks.len(),
            old(self)@.window_len() <= u16::MAX,
            old(self).phase != ReadPhase::Reading,
        ensures
            final(self).fields_agree(),
            final(self).buffer_agrees(),
            final(self)@ == (ReadState {
                confirmed: old(self)@.blocks.len(),
                acked: 0,
                ..old(self)@
            }),
    {
        proof {
            lemma_id_ahead(self.confirmed@ + 1, self.window.len() as u16);
        }
        self.window_base = self.window_base.wrapping_add(self.window.len() as u16);
        self.window.clear();
        self.acked = 0;
        self.confirmed = Ghost(self.blocks@.len());
    }

    /// Takes a datagram while an ACK is awaited.
    fn acknowledge(&mut self, from: PeerAddr, datagram: &[u8]) -> (action: ReadAction)
        requires
            old(self).wf(),
            old(self)@.phase == ReadPhase::AwaitingOack || old(self)@.phase
                == ReadPhase::AwaitingAck,
        ensures
            final(self).fields_agree(),
            final(self).buffer_agrees(),
            (final(self)@, action@) == old(self)@.after_datagram(from, datagram@),
    {
        if self.phase == ReadPhase::AwaitingOack {
            return match self.recv_ack(0, 1, from, datagram) {
                None => ReadAction::KeepReceiving,
                Some(_) => self.next_window(),
            };
        }
        let remaining: u16 = self.window.len() as u16 - self.acked;
        let ack_base: u16 = self.window_base.wrapping_add(self.acked);
        proof {
            lemma_id_ahead(self.confirmed@ + 1, self.acked);
        }
        assert(ack_base == self@.ack_base());
        assert(remaining == self@.outstanding().len());
        match self.recv_ack(ack_base, remaining, from, datagram) {
            None => ReadAction::KeepReceiving,
            Some(n) => {
                if n == remaining {
                    self.clear_window();
                    if self.is_last_block {
                        self.phase = ReadPhase::Done;
                        ReadAction::Done
                    } else {
                        self.next_window()
                    }
                } else {
                    // Only the rest is sent again, and the retries start over.
                    self.acked = self.acked + n;
                    self.timeout_retries = 0;
                    self.phase = ReadPhase::SendingWindow;
                    ReadAction::Send(self.send_window())
                }
            },
        }
    }

    /// Sends again what was not acknowledged in time, unless that was done
    /// often enough.
    fn retry(&mut self) -> (action: Result<ReadAction, Error>)
        requires
            old(self).wf(),
            old(self)@.phase == ReadPhase::AwaitingOack || old(self)@.phase
                == ReadPhase::AwaitingAck,
        ensures
            final(self).fields_agree(),
            final(self).buffer_agrees(),
            match action {
                Ok(action) => old(self)@.after_timeout() == Ok::<_, Error>(
                    (final(self)@, action@),
                ),
                Err(error) => {
                    &&& old(self)@.after_timeout() == Err::<(ReadState, ReadOutput), _>(error)
                    &&& final(self)@ == old(self)@
                },
            },
    {
        proof {
            lemma_id_ahead(self.confirmed@ + 1, self.acked);
        }
        let oack = self.phase == ReadPhase::AwaitingOack;
        if self.timeout_retries >= self.session.max_send_retries {
            let ack_base: u16 = if oack {
                0
            } else {
                self.window_base.wrapping_add(self.acked)
            };
            return Err(Error::MaxSendRetriesReached(self.session.peer, ack_base));
        }
        self.timeout_retries = self.timeout_retries + 1;
        self.phase = if oack {
            ReadPhase::SendingOack
        } else {
            ReadPhase::SendingWindow
        };
        Ok(ReadAction::Send(self.send_window()))
    }
}

/// Every action leaves a transfer valid.
pub proof fn law_valid_kept(state: ReadState, input: ReadInput)
    requires
        state.valid(),
        state.expects(input),
    ensures
        state.handled(input).0.valid(),
        state.handled(input).0.session == state.session,
        state.handled(input).0.room == state.room,
        state.step(input) matches Ok(next) ==> next.0.valid(),
{
}

} // verus!
