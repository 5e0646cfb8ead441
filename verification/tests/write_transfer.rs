use async_tftp::error::{Error, IoErrorKind};
use async_tftp::packet::{decode, Opts, PacketError, Received, RwReq};
use async_tftp::session::{PeerAddr, ServerConfig, Timeout};
use async_tftp::write_req::{WriteAction, WriteEvent, WriteRequest};
use bytes::BytesMut;

const CLIENT: PeerAddr = PeerAddr::V6 { ip6: 1, port: 2000, flowinfo: 0, scope_id: 1 };
const STRANGER: PeerAddr = PeerAddr::V6 { ip6: 1, port: 2000, flowinfo: 0, scope_id: 2 };
const NONE: Opts = Opts { block_size: None, timeout: None, transfer_size: None, window_size: None };

fn config(max_send_retries: u32) -> ServerConfig {
    ServerConfig {
        timeout: Timeout { secs: 3, nanos: 0 },
        block_size_limit: None,
        window_size_limit: None,
        max_send_retries,
        ignore_client_timeout: false,
        ignore_client_block_size: false,
        ignore_client_window_size: false,
    }
}

fn request(opts: Opts, max_send_retries: u32) -> WriteRequest {
    WriteRequest::init(CLIENT, &RwReq { opts }, &config(max_send_retries))
}

fn sized(block_size: u16, window_size: u16) -> Opts {
    Opts { block_size: Some(block_size), window_size: Some(window_size), ..NONE }
}

fn acks(request: &WriteRequest, action: WriteAction, id: u16) {
    assert!(matches!(action, WriteAction::SendAck));
    assert_eq!(request.ack(), &[0, 4, (id >> 8) as u8, id as u8]);
}

fn buffer(action: WriteAction, len: usize) -> BytesMut {
    match action {
        WriteAction::Receive(buf) => {
            assert_eq!(&buf[..], &vec![0u8; len][..]);
            buf
        }
        _ => panic!("nothing to receive"),
    }
}

fn datagram(from: PeerAddr, mut buf: BytesMut, bytes: &[u8]) -> WriteEvent {
    buf[..bytes.len()].copy_from_slice(bytes);
    WriteEvent::Datagram(from, buf, bytes.len())
}

fn ignores(action: WriteAction) -> BytesMut {
    match action {
        WriteAction::KeepReceiving(buf) => buf,
        _ => panic!("not ignored"),
    }
}

fn writes(action: WriteAction, payload: &[u8]) {
    match action {
        WriteAction::Write(bytes) => assert_eq!(&bytes[..], payload),
        _ => panic!("nothing to write"),
    }
}

fn fails(action: WriteAction, expected: Error, packet: &[u8]) {
    match action {
        WriteAction::Fail(error, sent) => {
            assert_eq!(error, expected);
            assert_eq!(&sent[..], packet);
        }
        _ => panic!("no failure"),
    }
}

#[test]
fn plain_store_step_by_step() {
    let mut w = request(NONE, 3);
    let action = w.handle(WriteEvent::Start);
    acks(&w, action, 0);
    let buf = buffer(w.handle(WriteEvent::Sent), 516);
    writes(w.handle(datagram(CLIENT, buf, b"\x00\x03\x00\x01hello")), b"hello");
    let action = w.handle(WriteEvent::Written);
    acks(&w, action, 1);
    assert!(matches!(w.handle(WriteEvent::Sent), WriteAction::Flush));
    assert!(matches!(w.handle(WriteEvent::Flushed), WriteAction::Close));
    assert!(matches!(w.handle(WriteEvent::Closed), WriteAction::Done));
}

#[test]
fn windows_are_acknowledged_by_their_last_block() {
    let mut w = request(sized(2, 2), 3);
    assert!(matches!(w.handle(WriteEvent::Start), WriteAction::SendAck));
    assert_eq!(w.ack(), b"\x00\x06blksize\x002\x00windowsize\x002\x00");
    let buf = buffer(w.handle(WriteEvent::Sent), 6);
    writes(w.handle(datagram(CLIENT, buf, b"\x00\x03\x00\x01aa")), b"aa");
    // No ACK within the window.
    let buf = buffer(w.handle(WriteEvent::Written), 6);
    // Block 1 again is no news.
    let buf = ignores(w.handle(datagram(CLIENT, buf, b"\x00\x03\x00\x01aa")));
    assert_eq!(&buf[..], b"\x00\x03\x00\x01aa");
    writes(w.handle(datagram(CLIENT, buf, b"\x00\x03\x00\x02bb")), b"bb");
    let action = w.handle(WriteEvent::Written);
    acks(&w, action, 2);
    let buf = buffer(w.handle(WriteEvent::Sent), 6);
    writes(w.handle(datagram(CLIENT, buf, b"\x00\x03\x00\x03")), b"");
    // The short block ends the window.
    let action = w.handle(WriteEvent::Written);
    acks(&w, action, 3);
    assert!(matches!(w.handle(WriteEvent::Sent), WriteAction::Flush));
}

#[test]
fn other_datagrams_are_ignored() {
    let mut w = request(sized(4, 1), 3);
    w.handle(WriteEvent::Start);
    let buf = buffer(w.handle(WriteEvent::Sent), 8);
    let buf = ignores(w.handle(datagram(STRANGER, buf, b"\x00\x03\x00\x01abcd")));
    let buf = ignores(w.handle(datagram(CLIENT, buf, b"\x00\x03\x00\x02abcd")));
    let buf = ignores(w.handle(datagram(CLIENT, buf, b"\x00\x04\x00\x01")));
    let buf = ignores(w.handle(datagram(CLIENT, buf, b"\x00\x03\x00")));
    let buf = ignores(w.handle(datagram(CLIENT, buf, b"")));
    writes(w.handle(datagram(CLIENT, buf, b"\x00\x03\x00\x01abcd")), b"abcd");
}

#[test]
fn timeouts_repeat_the_last_ack() {
    let mut w = request(sized(1, 1), 2);
    w.handle(WriteEvent::Start);
    let buf = buffer(w.handle(WriteEvent::Sent), 5);
    writes(w.handle(datagram(CLIENT, buf, b"\x00\x03\x00\x01x")), b"x");
    let action = w.handle(WriteEvent::Written);
    acks(&w, action, 1);
    buffer(w.handle(WriteEvent::Sent), 5);
    for _ in 0..2 {
        let action = w.handle(WriteEvent::Failed(IoErrorKind::TimedOut));
        acks(&w, action, 1);
        buffer(w.handle(WriteEvent::Sent), 5);
    }
    // The ACK goes out once more before the transfer is given up.
    let action = w.handle(WriteEvent::Failed(IoErrorKind::TimedOut));
    acks(&w, action, 1);
    fails(
        w.handle(WriteEvent::Sent),
        Error::MaxSendRetriesReached(CLIENT, 2),
        b"\x00\x05\x00\x00Max retries reached\x00",
    );
}

#[test]
fn timeouts_count_anew_for_each_block() {
    let mut w = request(sized(1, 2), 0);
    w.handle(WriteEvent::Start);
    let buf = buffer(w.handle(WriteEvent::Sent), 5);
    writes(w.handle(datagram(CLIENT, buf, b"\x00\x03\x00\x01x")), b"x");
    buffer(w.handle(WriteEvent::Written), 5);
    // Within the window the last ACK is still the OACK.
    assert!(matches!(
        w.handle(WriteEvent::Failed(IoErrorKind::TimedOut)),
        WriteAction::SendAck
    ));
    assert_eq!(w.ack(), b"\x00\x06blksize\x001\x00windowsize\x002\x00");
    match w.handle(WriteEvent::Sent) {
        WriteAction::Fail(error, _) => assert_eq!(error, Error::MaxSendRetriesReached(CLIENT, 2)),
        _ => panic!("no failure"),
    }
}

#[test]
fn writer_errors_end_the_store() {
    let mut w = request(NONE, 3);
    w.handle(WriteEvent::Start);
    let buf = buffer(w.handle(WriteEvent::Sent), 516);
    writes(w.handle(datagram(CLIENT, buf, b"\x00\x03\x00\x01x")), b"x");
    fails(
        w.handle(WriteEvent::Failed(IoErrorKind::StorageFull)),
        Error::Io(IoErrorKind::StorageFull),
        b"\x00\x05\x00\x03Disk is full\x00",
    );
}

#[test]
fn send_timeout_is_no_silent_client() {
    let mut w = request(NONE, 3);
    w.handle(WriteEvent::Start);
    match w.try_handle(WriteEvent::Failed(IoErrorKind::TimedOut)) {
        Err(error) => assert_eq!(error, Error::Io(IoErrorKind::TimedOut)),
        Ok(_) => panic!("no failure"),
    }
}

#[test]
fn payload_of_awaited_block() {
    let mut w = request(sized(4, 1), 3);
    w.handle(WriteEvent::Start);
    let mut buf = buffer(w.handle(WriteEvent::Sent), 8);
    buf[..6].copy_from_slice(b"\x00\x03\x00\x01ab");
    match w.recv_data_block(CLIENT, buf.clone(), 6) {
        Ok(payload) => assert_eq!(&payload[..], b"ab"),
        Err(_) => panic!("ignored"),
    }
    match w.recv_data_block(STRANGER, buf.clone(), 6) {
        Ok(_) => panic!("taken"),
        Err(same) => assert_eq!(same, buf),
    }
}

#[test]
fn nothing_is_acknowledged_that_did_not_come() {
    let config = ServerConfig { window_size_limit: Some(0), ..config(1) };
    let req = RwReq { opts: sized(2, 4) };
    let mut w = WriteRequest::init(CLIENT, &req, &config);
    assert_eq!(w.session().window_size, 0);
    assert!(matches!(w.handle(WriteEvent::Start), WriteAction::SendAck));
    let oack = b"\x00\x06blksize\x002\x00windowsize\x000\x00";
    assert_eq!(w.ack(), oack);
    buffer(w.handle(WriteEvent::Sent), 6);
    // Without a block there is nothing to send but the OACK.
    assert!(matches!(
        w.handle(WriteEvent::Failed(IoErrorKind::TimedOut)),
        WriteAction::SendAck
    ));
    assert_eq!(w.ack(), oack);
    let buf = buffer(w.handle(WriteEvent::Sent), 6);
    writes(w.handle(datagram(CLIENT, buf, b"\x00\x03\x00\x01aa")), b"aa");
    let action = w.handle(WriteEvent::Written);
    acks(&w, action, 1);
    let buf = buffer(w.handle(WriteEvent::Sent), 6);
    writes(w.handle(datagram(CLIENT, buf, b"\x00\x03\x00\x02b")), b"b");
    let action = w.handle(WriteEvent::Written);
    acks(&w, action, 2);
    assert!(matches!(w.handle(WriteEvent::Sent), WriteAction::Flush));
}

#[test]
fn decoded_packets() {
    assert_eq!(decode(b"\x00\x03\x12\x34payload"), Some(Received::Data(0x1234)));
    assert_eq!(decode(b"\x00\x03\x00\x01"), Some(Received::Data(1)));
    assert_eq!(decode(b"\x00\x04\xff\xfe"), Some(Received::Ack(0xfffe)));
    assert_eq!(decode(b"\x00\x04\x00\x01x"), None);
    assert_eq!(decode(b"\x00\x03\x00"), None);
    assert_eq!(decode(b"\x01\x04\x00\x01"), None);
    assert_eq!(decode(b"\x00\x05\x00\x01"), None);
    assert_eq!(decode(b"\x00\x06blksize\x008\x00"), None);
}

#[test]
fn reported_errors() {
    assert_eq!(Error::Io(IoErrorKind::NotFound).report(), PacketError::FileNotFound);
    assert_eq!(Error::Io(IoErrorKind::Other).report(), PacketError::UnknownError);
    let error = Error::MaxSendRetriesReached(CLIENT, 9).report();
    assert_eq!(error, PacketError::MaxRetriesReached);
    assert_eq!(error.code(), 0);
    assert_eq!(error.message(), b"Max retries reached");
    assert_eq!(PacketError::FileAlreadyExists.code(), 6);
}
