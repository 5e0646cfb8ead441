//! The packets that a transfer exchanges, on the wire.

use crate::buffer;
use crate::buffer::{be16, buffered, fits};
use bytes::BytesMut;
use vstd::prelude::*;
use vstd::string::*;

verus! {

broadcast use vstd::string::is_ascii_spec_bytes;

/// Bytes of a DATA packet before its payload.
pub const PACKET_DATA_HEADER_LEN: usize = 4;

/// Opcode of a DATA packet.
pub const OPCODE_DATA: u16 = 3;

/// Opcode of an ACK packet.
pub const OPCODE_ACK: u16 = 4;

/// Opcode of an ERROR packet.
pub const OPCODE_ERROR: u16 = 5;

/// Opcode of an OACK packet.
pub const OPCODE_OACK: u16 = 6;

/// The options of RFC 2348, 2349 and 7440, each where it was given.
#[derive(Clone, Copy, Debug, PartialEq, Eq, Structural)]
pub struct Opts {
    /// Bytes of payload in a full DATA packet.
    pub block_size: Option<u16>,
    /// Seconds to wait before a retransmission.
    pub timeout: Option<u8>,
    /// Bytes to be transferred.
    pub transfer_size: Option<u64>,
    /// DATA packets for each ACK.
    pub window_size: Option<u16>,
}

impl Opts {
    /// No option at all.
    pub open spec fn none() -> Opts {
        Opts { block_size: None, timeout: None, transfer_size: None, window_size: None }
    }
}

impl Default for Opts {
    fn default() -> (opts: Opts)
        ensures
            opts == Opts::none(),
    {
        Opts { block_size: None, timeout: None, transfer_size: None, window_size: None }
    }
}

/// The part of a read or write request that a transfer looks at.
#[derive(Clone, Copy, Debug, PartialEq, Eq, Structural)]
pub struct RwReq {
    /// The options that the client asks for.
    pub opts: Opts,
}

/// What an ERROR packet reports.
#[derive(Clone, Copy, Debug, PartialEq, Eq, Structural)]
pub enum PacketError {
    UnknownError,
    MaxRetriesReached,
    FileNotFound,
    PermissionDenied,
    DiskFull,
    FileAlreadyExists,
}

impl PacketError {
    /// The error code of RFC 1350.
    pub open spec fn spec_code(self) -> u16 {
        match self {
            PacketError::UnknownError => 0,
            PacketError::MaxRetriesReached => 0,
            PacketError::FileNotFound => 1,
            PacketError::PermissionDenied => 2,
            PacketError::DiskFull => 3,
            PacketError::FileAlreadyExists => 6,
        }
    }

    /// The text for the user.
    pub open spec fn spec_message(self) -> Seq<u8> {
        match self {
            PacketError::UnknownError => "Unknown error".spec_bytes(),
            PacketError::MaxRetriesReached => "Max retries reached".spec_bytes(),
            PacketError::FileNotFound => "File not found".spec_bytes(),
            PacketError::PermissionDenied => "Permission denied".spec_bytes(),
            PacketError::DiskFull => "Disk is full".spec_bytes(),
            PacketError::FileAlreadyExists => "File already exists".spec_bytes(),
        }
    }

    /// The error code of RFC 1350.
    pub fn code(&self) -> (code: u16)
        ensures
            code == self.spec_code(),
    {
        match self {
            PacketError::UnknownError => 0,
            PacketError::MaxRetriesReached => 0,
            PacketError::FileNotFound => 1,
            PacketError::PermissionDenied => 2,
            PacketError::DiskFull => 3,
            PacketError::FileAlreadyExists => 6,
        }
    }

    /// The text for the user.
    pub fn message(&self) -> (message: &'static [u8])
        ensures
            message@ == self.spec_message(),
            message@.len() < 32,
    {
        proof {
            reveal_strlit("Unknown error");
            reveal_strlit("Max retries reached");
            reveal_strlit("File not found");
            reveal_strlit("Permission denied");
            reveal_strlit("Disk is full");
            reveal_strlit("File already exists");
            assert("Unknown error".is_ascii());
            assert("Max retries reached".is_ascii());
            assert("File not found".is_ascii());
            assert("Permission denied".is_ascii());
            assert("Disk is full".is_ascii());
            assert("File already exists".is_ascii());
        }
        match self {
            PacketError::UnknownError => "Unknown error".as_bytes(),
            PacketError::MaxRetriesReached => "Max retries reached".as_bytes(),
            PacketError::FileNotFound => "File not found".as_bytes(),
            PacketError::PermissionDenied => "Permission denied".as_bytes(),
            PacketError::DiskFull => "Disk is full".as_bytes(),
            PacketError::FileAlreadyExists => "File already exists".as_bytes(),
        }
    }
}

/// The ASCII decimal digits of `n`.
pub open spec fn decimal(n: nat) -> Seq<u8>
    decreases n,
{
    if n < 10 {
        seq![(48 + n) as u8]
    } else {
        decimal(n / 10).push((48 + n % 10) as u8)
    }
}

/// An option with its value, each ended by a zero byte; nothing where the
/// option was not given.
pub open spec fn option_bytes(name: Seq<u8>, value: Option<nat>) -> Seq<u8> {
    match value {
        Some(v) => name.push(0) + decimal(v).push(0),
        None => Seq::empty(),
    }
}

/// The options of an OACK packet.
pub open spec fn opts_bytes(opts: Opts) -> Seq<u8> {
    option_bytes(
        "blksize".spec_bytes(),
        match opts.block_size {
            Some(v) => Some(v as nat),
            None => None,
        },
    ) + option_bytes(
        "timeout".spec_bytes(),
        match opts.timeout {
            Some(v) => Some(v as nat),
            None => None,
        },
    ) + option_bytes(
        "tsize".spec_bytes(),
        match opts.transfer_size {
            Some(v) => Some(v as nat),
            None => None,
        },
    ) + option_bytes(
        "windowsize".spec_bytes(),
        match opts.window_size {
            Some(v) => Some(v as nat),
            None => None,
        },
    )
}

/// The header of DATA packet `block_id`.
pub open spec fn data_head(block_id: u16) -> Seq<u8> {
    be16(OPCODE_DATA) + be16(block_id)
}

/// The DATA packet `block_id` that carries `payload`.
pub open spec fn data_packet(block_id: u16, payload: Seq<u8>) -> Seq<u8> {
    data_head(block_id) + payload
}

/// The packet that acknowledges the blocks up to `block_id`.
pub open spec fn ack_packet(block_id: u16) -> Seq<u8> {
    be16(OPCODE_ACK) + be16(block_id)
}

/// The packet that acknowledges `opts`.
pub open spec fn oack_packet(opts: Opts) -> Seq<u8> {
    be16(OPCODE_OACK) + opts_bytes(opts)
}

/// The packet that reports `error`.
pub open spec fn error_packet(error: PacketError) -> Seq<u8> {
    (be16(OPCODE_ERROR) + be16(error.spec_code()) + error.spec_message()).push(0)
}

/// A packet that moves a transfer on.
#[derive(Clone, Copy, Debug, PartialEq, Eq, Structural)]
pub enum Received {
    /// DATA with its block id; the payload follows the header.
    Data(u16),
    /// ACK with its block id.
    Ack(u16),
}

/// The number whose big-endian bytes are `hi` and `lo`.
pub open spec fn from_be16(hi: u8, lo: u8) -> u16 {
    (hi * 256 + lo) as u16
}

/// What `datagram` says to a transfer: a DATA packet has a header at least,
/// an ACK packet has nothing but its block id. Anything else says nothing.
pub open spec fn decoded(datagram: Seq<u8>) -> Option<Received> {
    if datagram.len() < PACKET_DATA_HEADER_LEN {
        None
    } else if from_be16(datagram[0], datagram[1]) == OPCODE_DATA {
        Some(Received::Data(from_be16(datagram[2], datagram[3])))
    } else if from_be16(datagram[0], datagram[1]) == OPCODE_ACK && datagram.len()
        == PACKET_DATA_HEADER_LEN {
        Some(Received::Ack(from_be16(datagram[2], datagram[3])))
    } else {
        None
    }
}

/// Ten to the power of `k`.
spec fn power_of_ten(k: nat) -> nat
    decreases k,
{
    if k == 0 {
        1
    } else {
        10 * power_of_ten((k - 1) as nat)
    }
}

proof fn lemma_decimal_len(n: nat, k: nat)
    requires
        0 < k,
        n < power_of_ten(k),
    ensures
        0 < decimal(n).len() <= k,
    decreases k,
{
    if n >= 10 {
        assert(power_of_ten(0) == 1);
        assert(power_of_ten(1) == 10 * power_of_ten(0));
        lemma_decimal_len(n / 10, (k - 1) as nat);
    }
}

/// Reads a packet that moves a transfer on.
pub fn decode(datagram: &[u8]) -> (packet: Option<Received>)
    ensures
        packet == decoded(datagram@),
{
    if datagram.len() < PACKET_DATA_HEADER_LEN {
        return None;
    }
    let opcode: u16 = datagram[0] as u16 * 256 + datagram[1] as u16;
    let block_id: u16 = datagram[2] as u16 * 256 + datagram[3] as u16;
    if opcode == OPCODE_DATA {
        Some(Received::Data(block_id))
    } else if opcode == OPCODE_ACK && datagram.len() == PACKET_DATA_HEADER_LEN {
        Some(Received::Ack(block_id))
    } else {
        None
    }
}

/// Appends the header of DATA packet `block_id`.
pub(crate) fn encode_data_head(block_id: u16, buf: &mut BytesMut)
    requires
        fits(buffered(*old(buf)).len() + 4),
    ensures
        buffered(*final(buf)) == buffered(*old(buf)) + data_head(block_id),
{
    buffer::put_u16(buf, OPCODE_DATA);
    buffer::put_u16(buf, block_id);
    assert(buffered(*buf) =~= buffered(*old(buf)) + data_head(block_id));
}

/// Appends the ACK packet for `block_id`.
pub(crate) fn encode_ack(block_id: u16, buf: &mut BytesMut)
    requires
        fits(buffered(*old(buf)).len() + 4),
    ensures
        buffered(*final(buf)) == buffered(*old(buf)) + ack_packet(block_id),
{
    buffer::put_u16(buf, OPCODE_ACK);
    buffer::put_u16(buf, block_id);
    assert(buffered(*buf) =~= buffered(*old(buf)) + ack_packet(block_id));
}

/// Appends the ERROR packet for `error`.
pub(crate) fn encode_error(error: PacketError, buf: &mut BytesMut)
    requires
        fits(buffered(*old(buf)).len() + 64),
    ensures
        buffered(*final(buf)) == buffered(*old(buf)) + error_packet(error),
{
    buffer::put_u16(buf, OPCODE_ERROR);
    buffer::put_u16(buf, error.code());
    buffer::put_slice(buf, error.message());
    buffer::put_u8(buf, 0);
    assert(buffered(*buf) =~= buffered(*old(buf)) + error_packet(error));
}

fn put_decimal(buf: &mut BytesMut, n: u64)
    requires
        fits(buffered(*old(buf)).len() + decimal(n as nat).len()),
    ensures
        buffered(*final(buf)) == buffered(*old(buf)) + decimal(n as nat),
    decreases n,
{
    if n >= 10 {
        put_decimal(buf, n / 10);
    }
    buffer::put_u8(buf, 48 + (n % 10) as u8);
    assert(buffered(*buf) =~= buffered(*old(buf)) + decimal(n as nat));
}

fn put_option(buf: &mut BytesMut, name: &str, value: u64)
    requires
        name.spec_bytes().len() <= 16,
        fits(buffered(*old(buf)).len() + 48),
    ensures
        buffered(*final(buf)) == buffered(*old(buf)) + option_bytes(
            name.spec_bytes(),
            Some(value as nat),
        ),
        buffered(*final(buf)).len() <= buffered(*old(buf)).len() + 48,
{
    proof {
        reveal_with_fuel(power_of_ten, 21);
        lemma_decimal_len(value as nat, 20);
    }
    buffer::put_slice(buf, name.as_bytes());
    buffer::put_u8(buf, 0);
    put_decimal(buf, value);
    buffer::put_u8(buf, 0);
    assert(buffered(*buf) =~= buffered(*old(buf)) + option_bytes(
        name.spec_bytes(),
        Some(value as nat),
    ));
}

proof fn lemma_name_lens()
    ensures
        "blksize".spec_bytes().len() == 7,
        "timeout".spec_bytes().len() == 7,
        "tsize".spec_bytes().len() == 5,
        "windowsize".spec_bytes().len() == 10,
{
    reveal_strlit("blksize");
    reveal_strlit("timeout");
    reveal_strlit("tsize");
    reveal_strlit("windowsize");
    assert("blksize".is_ascii());
    assert("timeout".is_ascii());
    assert("tsize".is_ascii());
    assert("windowsize".is_ascii());
}

proof fn lemma_appended(
    head: Seq<u8>,
    opcode: Seq<u8>,
    a: Seq<u8>,
    b: Seq<u8>,
    c: Seq<u8>,
    d: Seq<u8>,
)
    ensures
        head + opcode + a + b + c + d == head + (opcode + (a + b + c + d)),
{
    assert(head + opcode + a + b + c + d =~= head + (opcode + (a + b + c + d)));
}

/// Appends the OACK packet for `opts`.
pub(crate) fn encode_oack(opts: Opts, buf: &mut BytesMut)
    requires
        fits(buffered(*old(buf)).len() + 256),
    ensures
        buffered(*final(buf)) == buffered(*old(buf)) + oack_packet(opts),
{
    proof {
        lemma_name_lens();
    }
    buffer::put_u16(buf, OPCODE_OACK);
    let ghost before_blksize = buffered(*buf);
    if let Some(v) = opts.block_size {
        put_option(buf, "blksize", v as u64);
    }
    let ghost blksize = option_bytes(
        "blksize".spec_bytes(),
        match opts.block_size {
            Some(v) => Some(v as nat),
            None => None,
        },
    );
    assert(buffered(*buf) =~= before_blksize + blksize);
    let ghost before_timeout = buffered(*buf);
    if let Some(v) = opts.timeout {
        put_option(buf, "timeout", v as u64);
    }
    let ghost timeout = option_bytes(
        "timeout".spec_bytes(),
        match opts.timeout {
            Some(v) => Some(v as nat),
            None => None,
        },
    );
    assert(buffered(*buf) =~= before_timeout + timeout);
    let ghost before_tsize = buffered(*buf);
    if let Some(v) = opts.transfer_size {
        put_option(buf, "tsize", v);
    }
    let ghost tsize = option_bytes(
        "tsize".spec_bytes(),
        match opts.transfer_size {
            Some(v) => Some(v as nat),
            None => None,
        },
    );
    assert(buffered(*buf) =~= before_tsize + tsize);
    let ghost before_windowsize = buffered(*buf);
    if let Some(v) = opts.window_size {
        put_option(buf, "windowsize", v as u64);
    }
    let ghost windowsize = option_bytes(
        "windowsize".spec_bytes(),
        match opts.window_size {
            Some(v) => Some(v as nat),
            None => None,
        },
    );
    assert(buffered(*buf) =~= before_windowsize + windowsize);
    proof {
        lemma_appended(
            buffered(*old(buf)),
            be16(OPCODE_OACK),
            blksize,
            timeout,
            tsize,
            windowsize,
        );
    }
}

/// A DATA packet is read back as the block that it carries, and its payload
/// stands behind the header.
pub proof fn law_data_round_trip(block_id: u16, payload: Seq<u8>)
    ensures
        decoded(data_packet(block_id, payload)) == Some(Received::Data(block_id)),
        data_packet(block_id, payload).skip(PACKET_DATA_HEADER_LEN as int) == payload,
        data_packet(block_id, payload).len() == PACKET_DATA_HEADER_LEN + payload.len(),
{
    assert(data_packet(block_id, payload).skip(PACKET_DATA_HEADER_LEN as int) =~= payload);
}

/// An ACK packet is read back as the acknowledgement that it is.
pub proof fn law_ack_round_trip(block_id: u16)
    ensures
        decoded(ack_packet(block_id)) == Some(Received::Ack(block_id)),
{
}

/// Neither an OACK nor an ERROR packet moves a transfer on.
pub proof fn law_other_packets_say_nothing(opts: Opts, error: PacketError)
    ensures
        decoded(oack_packet(opts)) is None,
        decoded(error_packet(error)) is None,
{
    assert(oack_packet(opts)[0] == 0 && oack_packet(opts)[1] == 6);
    assert(error_packet(error)[0] == 0 && error_packet(error)[1] == 5);
}

} // verus!
