//! What the bytes on the wire say.

use crate::buffer::be16;
use crate::error::{Error, IoErrorKind};
use crate::packet::{
    ack_packet, data_packet, decimal, decoded, error_packet, from_be16, oack_packet, option_bytes,
    opts_bytes, Opts, PacketError, Received, OPCODE_OACK,
};
use crate::session::PeerAddr;
use vstd::prelude::*;
use vstd::string::*;

verus! {

broadcast use vstd::string::is_ascii_spec_bytes;

/// Numbers go out with the high byte first, and are read back as they were.
pub proof fn law_numbers_big_endian(n: u16, hi: u8, lo: u8)
    ensures
        be16(n).len() == 2,
        be16(n)[0] * 256 + be16(n)[1] == n,
        from_be16(hi, lo) == hi * 256 + lo,
        from_be16(be16(n)[0], be16(n)[1]) == n,
{
}

/// A DATA packet is the bytes 0 and 3, the id with its high byte first, and the
/// payload.
pub proof fn law_data_on_wire(id: u16, payload: Seq<u8>)
    ensures
        ({
            let packet = data_packet(id, payload);
            &&& packet.len() == 4 + payload.len()
            &&& packet[0] == 0 && packet[1] == 3
            &&& packet[2] * 256 + packet[3] == id
            &&& packet.skip(4) == payload
        }),
{
    assert(data_packet(id, payload).skip(4) =~= payload);
}

/// An ACK packet is the bytes 0 and 4 and the id with its high byte first.
pub proof fn law_ack_on_wire(id: u16)
    ensures
        ({
            let packet = ack_packet(id);
            &&& packet.len() == 4
            &&& packet[0] == 0 && packet[1] == 4
            &&& packet[2] * 256 + packet[3] == id
        }),
{
}

/// A datagram is read as DATA `id` if and only if it has a header, which begins
/// with the bytes 0 and 3 and ends with the id. It is read as ACK `id` if and
/// only if it is the bytes 0 and 4 and the id, and no more.
pub proof fn law_read_from_wire(datagram: Seq<u8>, id: u16)
    ensures
        decoded(datagram) == Some(Received::Data(id)) <==> {
            &&& datagram.len() >= 4
            &&& datagram[0] == 0 && datagram[1] == 3
            &&& datagram[2] * 256 + datagram[3] == id
        },
        decoded(datagram) == Some(Received::Ack(id)) <==> {
            &&& datagram.len() == 4
            &&& datagram[0] == 0 && datagram[1] == 4
            &&& datagram[2] * 256 + datagram[3] == id
        },
{
}

/// An ERROR packet is the bytes 0 and 5, the code with its high byte first, and
/// the text, which a zero byte ends.
pub proof fn law_error_on_wire(error: PacketError)
    ensures
        ({
            let packet = error_packet(error);
            &&& packet.len() == 5 + error.spec_message().len()
            &&& packet[0] == 0 && packet[1] == 5
            &&& packet[2] * 256 + packet[3] == error.spec_code()
            &&& packet.subrange(4, packet.len() - 1) == error.spec_message()
            &&& packet.last() == 0
            &&& !error.spec_message().contains(0)
            &&& error.spec_message().len() > 0
        }),
{
    let packet = error_packet(error);
    assert(packet.subrange(4, packet.len() - 1) =~= error.spec_message());
    reveal_strlit("Unknown error");
    reveal_strlit("Max retries reached");
    reveal_strlit("File not found");
    reveal_strlit("Permission denied");
    reveal_strlit("Disk is full");
    reveal_strlit("File already exists");
    assert("Unknown error".is_ascii());
    assert("Max retries reached".is_ascii());
    assert("File not found".is_ascii());
    assert("Permission denied".is_ascii());
    assert("Disk is full".is_ascii());
    assert("File already exists".is_ascii());
}

/// Each kind of I/O error is reported by the code that RFC 1350 has for it, and
/// by code 0 where it has none.
pub proof fn law_reported_codes(kind: IoErrorKind)
    ensures
        Error::Io(kind).reported().spec_code() == 1 <==> kind == IoErrorKind::NotFound,
        Error::Io(kind).reported().spec_code() == 2 <==> kind == IoErrorKind::PermissionDenied,
        Error::Io(kind).reported().spec_code() == 3 <==> kind == IoErrorKind::StorageFull,
        Error::Io(kind).reported().spec_code() == 6 <==> kind == IoErrorKind::AlreadyExists,
        Error::Io(kind).reported().spec_code() == 0 <==> kind == IoErrorKind::TimedOut || kind
            == IoErrorKind::Other,
{
}

/// The text of an ERROR packet goes with its code, and where the code is 0, it
/// tells whether the client was too slow.
pub proof fn law_reported_texts(kind: IoErrorKind, peer: PeerAddr, id: u16)
    ensures
        ({
            let told = Error::Io(kind).reported();
            &&& told.spec_code() == 0 <==> told.spec_message() == "Unknown error".spec_bytes()
            &&& told.spec_code() == 1 <==> told.spec_message() == "File not found".spec_bytes()
            &&& told.spec_code() == 2 <==> told.spec_message() == "Permission denied".spec_bytes()
            &&& told.spec_code() == 3 <==> told.spec_message() == "Disk is full".spec_bytes()
            &&& told.spec_code() == 6 <==> told.spec_message()
                == "File already exists".spec_bytes()
        }),
        Error::MaxSendRetriesReached(peer, id).reported().spec_message()
            == "Max retries reached".spec_bytes(),
{
    reveal_strlit("Unknown error");
    reveal_strlit("File not found");
    reveal_strlit("Permission denied");
    reveal_strlit("Disk is full");
    reveal_strlit("File already exists");
    assert("Unknown error".is_ascii());
    assert("File not found".is_ascii());
    assert("Permission denied".is_ascii());
    assert("Disk is full".is_ascii());
    assert("File already exists".is_ascii());
    assert("Unknown error".spec_bytes().len() == 13);
    assert("File not found".spec_bytes().len() == 14);
    assert("Permission denied".spec_bytes().len() == 17);
    assert("Disk is full".spec_bytes().len() == 12);
    assert("File already exists".spec_bytes().len() == 19);
}

/// A client that was given up is told the same, whoever it is and whatever
/// block it fell silent at, and nothing that an I/O error is reported by.
pub proof fn law_silence_reported(
    peer: PeerAddr,
    id: u16,
    other_peer: PeerAddr,
    other_id: u16,
    kind: IoErrorKind,
)
    ensures
        Error::MaxSendRetriesReached(peer, id).reported() == Error::MaxSendRetriesReached(
            other_peer,
            other_id,
        ).reported(),
        Error::MaxSendRetriesReached(peer, id).reported().spec_code() == 0,
        Error::MaxSendRetriesReached(peer, id).reported() != Error::Io(kind).reported(),
{
}

/// The number that decimal digits say.
pub open spec fn number(digits: Seq<u8>) -> int
    decreases digits.len(),
{
    if digits.len() == 0 {
        0
    } else {
        10 * number(digits.drop_last()) + (digits.last() - 48)
    }
}

/// A number is written in decimal digits, without zeros in front, and read back
/// from them.
pub proof fn law_decimal_reads_back(n: nat)
    ensures
        number(decimal(n)) == n,
        decimal(n).len() > 0,
        forall|i: int| 0 <= i < decimal(n).len() ==> 48 <= #[trigger] decimal(n)[i] <= 57,
        decimal(n)[0] == 48 ==> n == 0,
    decreases n,
{
    let digits = decimal(n);
    if n < 10 {
        assert(digits.drop_last() =~= Seq::empty());
        assert(number(digits.drop_last()) == 0);
        assert(digits.last() == 48 + n);
    } else {
        law_decimal_reads_back(n / 10);
        assert(digits.drop_last() =~= decimal(n / 10));
        assert(digits.last() == 48 + n % 10);
        assert(digits[0] == decimal(n / 10)[0]);
    }
}

/// Where the first zero byte stands; the length where there is none.
pub open spec fn first_zero(bytes: Seq<u8>) -> nat
    decreases bytes.len(),
{
    if bytes.len() == 0 || bytes[0] == 0 {
        0
    } else {
        1 + first_zero(bytes.drop_first())
    }
}

/// The strings in `bytes`, each of which a zero byte ends.
pub open spec fn strings(bytes: Seq<u8>) -> Seq<Seq<u8>>
    decreases bytes.len(),
{
    if bytes.len() == 0 {
        Seq::empty()
    } else {
        let end = first_zero(bytes);
        if end < bytes.len() {
            seq![bytes.take(end as int)] + strings(bytes.skip((end + 1) as int))
        } else {
            seq![bytes]
        }
    }
}

/// The number behind the first `name` in a list of names, each with its number.
pub open spec fn value_of(fields: Seq<Seq<u8>>, name: Seq<u8>) -> Option<int>
    decreases fields.len(),
{
    if fields.len() < 2 {
        None
    } else if fields[0] == name {
        Some(number(fields[1]))
    } else {
        value_of(fields.skip(2), name)
    }
}

/// The value that an OACK packet gives for the option `name`, as a client reads
/// it: the strings behind the opcode are names and decimal numbers in turn.
pub open spec fn oack_value(packet: Seq<u8>, name: Seq<u8>) -> Option<int> {
    value_of(strings(packet.skip(2)), name)
}

proof fn lemma_first_zero(text: Seq<u8>, rest: Seq<u8>)
    requires
        !text.contains(0),
    ensures
        first_zero(text.push(0) + rest) == text.len(),
    decreases text.len(),
{
    let bytes = text.push(0) + rest;
    if text.len() > 0 {
        assert(text[0] != 0) by {
            assert(text.contains(text[0]));
        }
        assert forall|b: u8| text.drop_first().contains(b) implies text.contains(b) by {
            let i = choose|i: int| 0 <= i < text.drop_first().len() && text.drop_first()[i] == b;
            assert(text[i + 1] == b);
        }
        lemma_first_zero(text.drop_first(), rest);
        assert(bytes.drop_first() =~= text.drop_first().push(0) + rest);
    }
}

proof fn lemma_strings(text: Seq<u8>, rest: Seq<u8>)
    requires
        !text.contains(0),
    ensures
        strings(text.push(0) + rest) == seq![text] + strings(rest),
{
    let bytes = text.push(0) + rest;
    lemma_first_zero(text, rest);
    assert(bytes.take(text.len() as int) =~= text);
    assert(bytes.skip((text.len() + 1) as int) =~= rest);
}

proof fn lemma_option_read(name: Seq<u8>, value: nat, rest: Seq<u8>, wanted: Seq<u8>)
    requires
        !name.contains(0),
    ensures
        value_of(strings(option_bytes(name, Some(value)) + rest), wanted) == if name == wanted {
            Some(value as int)
        } else {
            value_of(strings(rest), wanted)
        },
        strings(option_bytes(name, Some(value)) + rest).len() == strings(rest).len() + 2,
{
    let digits = decimal(value);
    law_decimal_reads_back(value);
    assert(!digits.contains(0));
    assert(option_bytes(name, Some(value)) + rest =~= name.push(0) + (digits.push(0) + rest));
    lemma_strings(name, digits.push(0) + rest);
    lemma_strings(digits, rest);
    let fields = strings(option_bytes(name, Some(value)) + rest);
    assert(fields =~= seq![name, digits] + strings(rest));
    assert(fields.skip(2) =~= strings(rest));
}

proof fn lemma_option_skipped(name: Seq<u8>, rest: Seq<u8>)
    ensures
        option_bytes(name, None) + rest == rest,
{
    assert(option_bytes(name, None) + rest =~= rest);
}

proof fn lemma_part_read(name: Seq<u8>, value: Option<nat>, rest: Seq<u8>, wanted: Seq<u8>)
    requires
        !name.contains(0),
    ensures
        value_of(strings(option_bytes(name, value) + rest), wanted) == if name == wanted
            && value is Some {
            Some(value.unwrap() as int)
        } else {
            value_of(strings(rest), wanted)
        },
        strings(option_bytes(name, value) + rest).len() == strings(rest).len() + if value is Some {
            2int
        } else {
            0
        },
        value is Some ==> option_bytes(name, value).len() > 0 && option_bytes(name, value).last()
            == 0,
        value is None ==> option_bytes(name, value).len() == 0,
{
    match value {
        Some(v) => lemma_option_read(name, v, rest, wanted),
        None => lemma_option_skipped(name, rest),
    }
}

proof fn lemma_names()
    ensures
        !"blksize".spec_bytes().contains(0),
        !"timeout".spec_bytes().contains(0),
        !"tsize".spec_bytes().contains(0),
        !"windowsize".spec_bytes().contains(0),
        "blksize".spec_bytes() != "timeout".spec_bytes(),
        "blksize".spec_bytes() != "tsize".spec_bytes(),
        "blksize".spec_bytes() != "windowsize".spec_bytes(),
        "timeout".spec_bytes() != "tsize".spec_bytes(),
        "timeout".spec_bytes() != "windowsize".spec_bytes(),
        "tsize".spec_bytes() != "windowsize".spec_bytes(),
{
    reveal_strlit("blksize");
    reveal_strlit("timeout");
    reveal_strlit("tsize");
    reveal_strlit("windowsize");
    assert("blksize".is_ascii());
    assert("timeout".is_ascii());
    assert("tsize".is_ascii());
    assert("windowsize".is_ascii());
    assert("blksize".spec_bytes()[0] != "timeout".spec_bytes()[0]);
    assert("blksize".spec_bytes().len() == 7);
    assert("timeout".spec_bytes().len() == 7);
    assert("tsize".spec_bytes().len() == 5);
    assert("windowsize".spec_bytes().len() == 10);
}

/// How many options were agreed.
pub open spec fn agreed_count(opts: Opts) -> int {
    (if opts.block_size is Some { 1int } else { 0 }) + (if opts.timeout is Some { 1int } else { 0 })
        + (if opts.transfer_size is Some { 1int } else { 0 }) + (if opts.window_size is Some {
        1int
    } else {
        0
    })
}

/// A client reads from an OACK what was agreed: behind the bytes 0 and 6, the
/// value of every option that was agreed stands under its name, no option is
/// named that was not, and nothing else is there.
pub proof fn law_oack_reads_back(opts: Opts)
    ensures
        oack_packet(opts).len() >= 2,
        oack_packet(opts)[0] == 0 && oack_packet(opts)[1] == 6,
        strings(oack_packet(opts).skip(2)).len() == 2 * agreed_count(opts),
        agreed_count(opts) > 0 ==> oack_packet(opts).last() == 0,
        agreed_count(opts) == 0 ==> oack_packet(opts).len() == 2,
        oack_value(oack_packet(opts), "blksize".spec_bytes()) == match opts.block_size {
            Some(v) => Some(v as int),
            None => None,
        },
        oack_value(oack_packet(opts), "timeout".spec_bytes()) == match opts.timeout {
            Some(v) => Some(v as int),
            None => None,
        },
        oack_value(oack_packet(opts), "tsize".spec_bytes()) == match opts.transfer_size {
            Some(v) => Some(v as int),
            None => None,
        },
        oack_value(oack_packet(opts), "windowsize".spec_bytes()) == match opts.window_size {
            Some(v) => Some(v as int),
            None => None,
        },
        forall|name: Seq<u8>|
            #![trigger oack_value(oack_packet(opts), name)]
            oack_value(oack_packet(opts), name) is Some ==> {
                ||| name == "blksize".spec_bytes()
                ||| name == "timeout".spec_bytes()
                ||| name == "tsize".spec_bytes()
                ||| name == "windowsize".spec_bytes()
            },
{
    lemma_names();
    lemma_oack_value(opts, "blksize".spec_bytes());
    lemma_oack_value(opts, "timeout".spec_bytes());
    lemma_oack_value(opts, "tsize".spec_bytes());
    lemma_oack_value(opts, "windowsize".spec_bytes());
    assert forall|name: Seq<u8>| #[trigger]
        oack_value(oack_packet(opts), name) is Some implies {
        ||| name == "blksize".spec_bytes()
        ||| name == "timeout".spec_bytes()
        ||| name == "tsize".spec_bytes()
        ||| name == "windowsize".spec_bytes()
    } by {
        lemma_oack_value(opts, name);
    }
}

proof fn lemma_options_read(
    blksize: Option<nat>,
    timeout: Option<nat>,
    tsize: Option<nat>,
    windowsize: Option<nat>,
    wanted: Seq<u8>,
)
    ensures
        ({
            let bytes = option_bytes("blksize".spec_bytes(), blksize) + (option_bytes(
                "timeout".spec_bytes(),
                timeout,
            ) + (option_bytes("tsize".spec_bytes(), tsize) + option_bytes(
                "windowsize".spec_bytes(),
                windowsize,
            )));
            &&& value_of(strings(bytes), wanted) == if wanted == "blksize".spec_bytes() {
                value_in(blksize)
            } else if wanted == "timeout".spec_bytes() {
                value_in(timeout)
            } else if wanted == "tsize".spec_bytes() {
                value_in(tsize)
            } else if wanted == "windowsize".spec_bytes() {
                value_in(windowsize)
            } else {
                None
            }
            &&& strings(bytes).len() == 2 * (one_if(blksize is Some) + one_if(timeout is Some)
                + one_if(tsize is Some) + one_if(windowsize is Some))
            &&& bytes.len() > 0 ==> bytes.last() == 0
            &&& bytes.len() == 0 <==> blksize is None && timeout is None && tsize is None
                && windowsize is None
        }),
{
    lemma_names();
    let d = option_bytes("windowsize".spec_bytes(), windowsize);
    let c = option_bytes("tsize".spec_bytes(), tsize) + d;
    let b = option_bytes("timeout".spec_bytes(), timeout) + c;
    lemma_part_read("blksize".spec_bytes(), blksize, b, wanted);
    lemma_part_read("timeout".spec_bytes(), timeout, c, wanted);
    lemma_part_read("tsize".spec_bytes(), tsize, d, wanted);
    lemma_part_read("windowsize".spec_bytes(), windowsize, Seq::empty(), wanted);
    assert(d + Seq::empty() =~= d);
    assert(strings(Seq::empty()) =~= Seq::empty());
    assert(value_of(strings(Seq::empty()), wanted) is None);
}

/// The number in an option.
spec fn value_in(value: Option<nat>) -> Option<int> {
    match value {
        Some(v) => Some(v as int),
        None => None,
    }
}

spec fn one_if(b: bool) -> int {
    if b {
        1
    } else {
        0
    }
}

proof fn lemma_regroup(a: Seq<u8>, b: Seq<u8>, c: Seq<u8>, d: Seq<u8>)
    ensures
        a + b + c + d == a + (b + (c + d)),
{
    assert(a + b + c + d =~= a + (b + (c + d)));
}

proof fn lemma_behind_head(head: Seq<u8>, rest: Seq<u8>)
    ensures
        (head + rest).skip(head.len() as int) == rest,
        rest.len() > 0 ==> (head + rest).last() == rest.last(),
{
    assert((head + rest).skip(head.len() as int) =~= rest);
}

proof fn lemma_oack_value(opts: Opts, wanted: Seq<u8>)
    ensures
        oack_value(oack_packet(opts), wanted) == if wanted == "blksize".spec_bytes() {
            match opts.block_size {
                Some(v) => Some(v as int),
                None => None,
            }
        } else if wanted == "timeout".spec_bytes() {
            match opts.timeout {
                Some(v) => Some(v as int),
                None => None,
            }
        } else if wanted == "tsize".spec_bytes() {
            match opts.transfer_size {
                Some(v) => Some(v as int),
                None => None,
            }
        } else if wanted == "windowsize".spec_bytes() {
            match opts.window_size {
                Some(v) => Some(v as int),
                None => None,
            }
        } else {
            None
        },
        strings(oack_packet(opts).skip(2)).len() == 2 * agreed_count(opts),
        agreed_count(opts) > 0 ==> oack_packet(opts).last() == 0,
        agreed_count(opts) == 0 ==> oack_packet(opts).len() == 2,
{
    let blksize: Option<nat> = match opts.block_size {
        Some(v) => Some(v as nat),
        None => None,
    };
    let timeout: Option<nat> = match opts.timeout {
        Some(v) => Some(v as nat),
        None => None,
    };
    let tsize: Option<nat> = match opts.transfer_size {
        Some(v) => Some(v as nat),
        None => None,
    };
    let windowsize: Option<nat> = match opts.window_size {
        Some(v) => Some(v as nat),
        None => None,
    };
    lemma_options_read(blksize, timeout, tsize, windowsize, wanted);
    lemma_regroup(
        option_bytes("blksize".spec_bytes(), blksize),
        option_bytes("timeout".spec_bytes(), timeout),
        option_bytes("tsize".spec_bytes(), tsize),
        option_bytes("windowsize".spec_bytes(), windowsize),
    );
    lemma_behind_head(be16(OPCODE_OACK), opts_bytes(opts));
}

/// OACK packets differ where the options do.
pub proof fn law_oack_tells_apart(opts: Opts, others: Opts)
    requires
        oack_packet(opts) == oack_packet(others),
    ensures
        opts == others,
{
    law_oack_reads_back(opts);
    law_oack_reads_back(others);
}

} // verus!
