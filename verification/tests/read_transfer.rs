use async_tftp::error::{Error, IoErrorKind};
use async_tftp::packet::{Opts, RwReq};
use async_tftp::read_req::{ReadAction, ReadEvent, ReadRequest};
use async_tftp::session::{PeerAddr, ServerConfig, Session, Timeout};

const CLIENT: PeerAddr = PeerAddr::V4 { ip: 0x0a000001, port: 2000 };
const STRANGER: PeerAddr = PeerAddr::V4 { ip: 0x0a000001, port: 2001 };
const NONE: Opts = Opts { block_size: None, timeout: None, transfer_size: None, window_size: None };

fn config(max_send_retries: u32) -> ServerConfig {
    ServerConfig {
        timeout: Timeout { secs: 3, nanos: 0 },
        block_size_limit: None,
        window_size_limit: None,
        max_send_retries,
        ignore_client_timeout: false,
        ignore_client_block_size: false,
        ignore_client_window_size: false,
    }
}

fn request(opts: Opts, max_send_retries: u32) -> ReadRequest {
    ReadRequest::init(None, CLIENT, &RwReq { opts }, &config(max_send_retries))
}

fn sized(block_size: u16, window_size: u16) -> Opts {
    Opts { block_size: Some(block_size), window_size: Some(window_size), ..NONE }
}

fn ack(id: u16) -> Vec<u8> {
    vec![0, 4, (id >> 8) as u8, id as u8]
}

fn data(id: u16, payload: &[u8]) -> Vec<u8> {
    let mut packet = vec![0, 3, (id >> 8) as u8, id as u8];
    packet.extend_from_slice(payload);
    packet
}

fn packets(action: ReadAction) -> Vec<Vec<u8>> {
    match action {
        ReadAction::Send(packets) => packets.iter().map(|p| p.to_vec()).collect(),
        _ => panic!("nothing to send"),
    }
}

fn wants(action: ReadAction, len: usize) {
    assert!(matches!(action, ReadAction::Read(n) if n == len));
}

fn receives(action: ReadAction) {
    assert!(matches!(action, ReadAction::Receive));
}

fn ignores(action: ReadAction) {
    assert!(matches!(action, ReadAction::KeepReceiving));
}

fn fails(action: ReadAction, expected: Error, packet: &[u8]) {
    match action {
        ReadAction::Fail(error, sent) => {
            assert_eq!(error, expected);
            assert_eq!(&sent[..], packet);
        }
        _ => panic!("no failure"),
    }
}

/// Serves `file` by reads of up to `step` bytes to a client that acknowledges
/// every window; gives what the client got and how many packets were sent.
fn serve(file: &[u8], opts: Opts, step: usize) -> (Vec<u8>, usize) {
    let mut request = request(opts, 3);
    let mut got: Vec<u8> = Vec::new();
    let mut blocks: usize = 0;
    let mut count: usize = 0;
    let mut pos: usize = 0;
    let mut answer: Vec<u8> = Vec::new();
    let mut action = request.handle(ReadEvent::Start);
    loop {
        action = match action {
            ReadAction::Read(max) => {
                let n = max.min(step).min(file.len() - pos);
                pos += n;
                request.handle(ReadEvent::Data(&file[pos - n..pos]))
            }
            ReadAction::Send(packets) => {
                for packet in packets {
                    count += 1;
                    if packet[1] == 3 {
                        let id = u16::from_be_bytes([packet[2], packet[3]]);
                        if id == (blocks + 1) as u16 {
                            blocks += 1;
                            got.extend_from_slice(&packet[4..]);
                        }
                    }
                }
                answer = ack(blocks as u16);
                request.handle(ReadEvent::Sent)
            }
            ReadAction::Receive => request.handle(ReadEvent::Datagram(CLIENT, &answer)),
            ReadAction::KeepReceiving => panic!("ACK ignored"),
            ReadAction::Done => return (got, count),
            ReadAction::Fail(error, _) => panic!("{:?}", error),
        };
    }
}

fn content(len: usize) -> Vec<u8> {
    (0..len).map(|i| (i * 7 + i / 251) as u8).collect()
}

#[test]
fn serves_files_of_all_lengths() {
    for len in [0, 1, 511, 512, 513, 1023, 1024, 5000] {
        let file = content(len);
        let (got, count) = serve(&file, NONE, 100);
        assert!(got == file);
        assert_eq!(count, len / 512 + 1);
    }
}

#[test]
fn serves_windows() {
    let file = content(10_000);
    for window in [1, 2, 7, 64] {
        let (got, count) = serve(&file, sized(100, window), usize::MAX);
        assert!(got == file);
        // The blocks and the OACK.
        assert_eq!(count, 102);
    }
}

#[test]
fn read_block_ids_start_over() {
    let file = content(70_000);
    let (got, _) = serve(&file, sized(1, 300), usize::MAX);
    assert!(got == file);
}

#[test]
fn plain_transfer_step_by_step() {
    let mut r = request(NONE, 3);
    wants(r.handle(ReadEvent::Start), 512);
    wants(r.handle(ReadEvent::Data(b"abc")), 509);
    assert_eq!(packets(r.handle(ReadEvent::Data(b""))), vec![data(1, b"abc")]);
    receives(r.handle(ReadEvent::Sent));
    assert!(matches!(r.handle(ReadEvent::Datagram(CLIENT, &ack(1))), ReadAction::Done));
}

#[test]
fn oack_comes_after_first_block() {
    let opts = Opts { block_size: Some(8), timeout: Some(1), window_size: Some(2), ..NONE };
    let req = RwReq { opts: Opts { transfer_size: Some(0), ..opts } };
    let mut r = ReadRequest::init(Some(1234567890), CLIENT, &req, &config(3));
    assert_eq!(r.session().timeout, Timeout { secs: 1, nanos: 0 });
    wants(r.handle(ReadEvent::Start), 8);
    let oack = b"\x00\x06blksize\x008\x00timeout\x001\x00tsize\x001234567890\x00windowsize\x002\x00";
    assert_eq!(packets(r.handle(ReadEvent::Data(b"01234567"))), vec![oack.to_vec()]);
    receives(r.handle(ReadEvent::Sent));
    ignores(r.handle(ReadEvent::Datagram(CLIENT, &ack(1))));
    // A timeout repeats the OACK.
    let again = packets(r.handle(ReadEvent::Failed(IoErrorKind::TimedOut)));
    assert_eq!(again, vec![oack.to_vec()]);
    receives(r.handle(ReadEvent::Sent));
    wants(r.handle(ReadEvent::Datagram(CLIENT, &ack(0))), 8);
    let window = packets(r.handle(ReadEvent::Data(b"89abcdef")));
    assert_eq!(window, vec![data(1, b"01234567"), data(2, b"89abcdef")]);
}

#[test]
fn reader_error_goes_out_before_oack() {
    let mut r = request(sized(8, 1), 3);
    wants(r.handle(ReadEvent::Start), 8);
    fails(
        r.handle(ReadEvent::Failed(IoErrorKind::NotFound)),
        Error::Io(IoErrorKind::NotFound),
        b"\x00\x05\x00\x01File not found\x00",
    );
}

/// A transfer of three blocks of two bytes in a window of three, all sent.
fn window_sent(max_send_retries: u32) -> ReadRequest {
    let mut r = request(sized(2, 3), max_send_retries);
    r.handle(ReadEvent::Start);
    r.handle(ReadEvent::Data(b"aa"));
    r.handle(ReadEvent::Sent);
    r.handle(ReadEvent::Datagram(CLIENT, &ack(0)));
    r.handle(ReadEvent::Data(b"bb"));
    let window = packets(r.handle(ReadEvent::Data(b"cc")));
    assert_eq!(window, vec![data(1, b"aa"), data(2, b"bb"), data(3, b"cc")]);
    receives(r.handle(ReadEvent::Sent));
    r
}

#[test]
fn partial_ack_sends_the_rest() {
    let mut r = window_sent(1);
    // One retry is used up.
    assert_eq!(packets(r.handle(ReadEvent::Failed(IoErrorKind::TimedOut))).len(), 3);
    receives(r.handle(ReadEvent::Sent));
    let rest = packets(r.handle(ReadEvent::Datagram(CLIENT, &ack(1))));
    assert_eq!(rest, vec![data(2, b"bb"), data(3, b"cc")]);
    receives(r.handle(ReadEvent::Sent));
    // The count starts over, and only the rest is sent again.
    let rest = packets(r.handle(ReadEvent::Failed(IoErrorKind::TimedOut)));
    assert_eq!(rest, vec![data(2, b"bb"), data(3, b"cc")]);
    receives(r.handle(ReadEvent::Sent));
    fails(
        r.handle(ReadEvent::Failed(IoErrorKind::TimedOut)),
        Error::MaxSendRetriesReached(CLIENT, 2),
        b"\x00\x05\x00\x00Max retries reached\x00",
    );
}

#[test]
fn retries_are_bounded() {
    let mut r = window_sent(5);
    for _ in 0..5 {
        assert_eq!(packets(r.handle(ReadEvent::Failed(IoErrorKind::TimedOut))).len(), 3);
        receives(r.handle(ReadEvent::Sent));
    }
    match r.handle(ReadEvent::Failed(IoErrorKind::TimedOut)) {
        ReadAction::Fail(error, _) => assert_eq!(error, Error::MaxSendRetriesReached(CLIENT, 1)),
        _ => panic!("no failure"),
    }
}

#[test]
fn full_ack_opens_next_window() {
    let mut r = window_sent(3);
    wants(r.handle(ReadEvent::Datagram(CLIENT, &ack(3))), 2);
    let window = packets(r.handle(ReadEvent::Data(b"")));
    assert_eq!(window, vec![data(4, b"")]);
    receives(r.handle(ReadEvent::Sent));
    assert!(matches!(r.handle(ReadEvent::Datagram(CLIENT, &ack(4))), ReadAction::Done));
}

#[test]
fn strangers_and_nonsense_are_ignored() {
    let mut r = window_sent(3);
    ignores(r.handle(ReadEvent::Datagram(STRANGER, &ack(3))));
    ignores(r.handle(ReadEvent::Datagram(CLIENT, &ack(0))));
    ignores(r.handle(ReadEvent::Datagram(CLIENT, &ack(4))));
    ignores(r.handle(ReadEvent::Datagram(CLIENT, &data(3, b""))));
    ignores(r.handle(ReadEvent::Datagram(CLIENT, &[0, 4, 0])));
    ignores(r.handle(ReadEvent::Datagram(CLIENT, &[0, 4, 0, 3, 0])));
    ignores(r.handle(ReadEvent::Datagram(CLIENT, &[])));
    wants(r.handle(ReadEvent::Datagram(CLIENT, &ack(3))), 2);
}

#[test]
fn io_errors_end_the_transfer() {
    let cases: [(IoErrorKind, &[u8]); 6] = [
        (IoErrorKind::NotFound, b"\x00\x05\x00\x01File not found\x00"),
        (IoErrorKind::PermissionDenied, b"\x00\x05\x00\x02Permission denied\x00"),
        (IoErrorKind::StorageFull, b"\x00\x05\x00\x03Disk is full\x00"),
        (IoErrorKind::AlreadyExists, b"\x00\x05\x00\x06File already exists\x00"),
        (IoErrorKind::Other, b"\x00\x05\x00\x00Unknown error\x00"),
        (IoErrorKind::TimedOut, b"\x00\x05\x00\x00Unknown error\x00"),
    ];
    for (kind, packet) in cases {
        // A reader that times out is no silent client.
        let mut r = request(NONE, 3);
        r.handle(ReadEvent::Start);
        fails(r.handle(ReadEvent::Failed(kind)), Error::Io(kind), packet);
    }
    let mut r = window_sent(3);
    match r.handle(ReadEvent::Failed(IoErrorKind::Other)) {
        ReadAction::Fail(error, _) => assert_eq!(error, Error::Io(IoErrorKind::Other)),
        _ => panic!("no failure"),
    }
}

#[test]
fn try_handle_tells_the_error() {
    let mut r = request(NONE, 3);
    assert!(r.try_handle(ReadEvent::Start).is_ok());
    match r.try_handle(ReadEvent::Failed(IoErrorKind::Other)) {
        Err(error) => assert_eq!(error, Error::Io(IoErrorKind::Other)),
        Ok(_) => panic!("no failure"),
    }
}

#[test]
fn acks_across_the_end_of_ids() {
    let r = request(NONE, 3);
    // Blocks 65534, 65535, 0 and 1.
    assert_eq!(r.recv_ack(65534, 4, CLIENT, &ack(65533)), None);
    assert_eq!(r.recv_ack(65534, 4, CLIENT, &ack(65534)), Some(1));
    assert_eq!(r.recv_ack(65534, 4, CLIENT, &ack(65535)), Some(2));
    assert_eq!(r.recv_ack(65534, 4, CLIENT, &ack(0)), Some(3));
    assert_eq!(r.recv_ack(65534, 4, CLIENT, &ack(1)), Some(4));
    assert_eq!(r.recv_ack(65534, 4, CLIENT, &ack(2)), None);
    // A window that ends with the last id.
    assert_eq!(r.recv_ack(65534, 2, CLIENT, &ack(65535)), Some(2));
    assert_eq!(r.recv_ack(65534, 2, CLIENT, &ack(0)), None);
    assert_eq!(r.recv_ack(1, 65535, CLIENT, &ack(65535)), Some(65535));
    assert_eq!(r.recv_ack(1, 65535, CLIENT, &ack(0)), None);
    assert_eq!(r.recv_ack(1, 1, STRANGER, &ack(1)), None);
    // Nothing covers an empty window.
    assert_eq!(r.recv_ack(5, 0, CLIENT, &ack(4)), None);
    assert_eq!(r.recv_ack(5, 0, CLIENT, &ack(5)), None);
    assert_eq!(r.recv_ack(0, 0, CLIENT, &ack(65535)), None);
}

#[test]
fn empty_window_sends_nothing() {
    let mut r = request(Opts { window_size: Some(0), ..NONE }, 3);
    wants(r.handle(ReadEvent::Start), 512);
    assert_eq!(packets(r.handle(ReadEvent::Data(&[5; 512]))).len(), 1);
    receives(r.handle(ReadEvent::Sent));
    assert_eq!(packets(r.handle(ReadEvent::Datagram(CLIENT, &ack(0)))), vec![data(1, &[5; 512])]);
    receives(r.handle(ReadEvent::Sent));
    assert!(packets(r.handle(ReadEvent::Datagram(CLIENT, &ack(1)))).is_empty());
    assert!(packets(r.handle(ReadEvent::Sent)).is_empty());
}

#[test]
fn blocks_of_no_size_carry_what_there_is_room_for() {
    let mut r = request(Opts { block_size: Some(0), ..NONE }, 3);
    let room = match r.handle(ReadEvent::Start) {
        ReadAction::Read(room) => room,
        _ => panic!("nothing to read"),
    };
    assert!(room > 0);
    // The OACK, then the block with its byte.
    wants(r.handle(ReadEvent::Data(b"x")), room - 1);
    assert_eq!(packets(r.handle(ReadEvent::Data(b""))), vec![b"\x00\x06blksize\x000\x00".to_vec()]);
    receives(r.handle(ReadEvent::Sent));
    assert_eq!(packets(r.handle(ReadEvent::Datagram(CLIENT, &ack(0)))), vec![data(1, b"x")]);
    receives(r.handle(ReadEvent::Sent));
    // No block is shorter than that, so none is the last.
    wants(r.handle(ReadEvent::Datagram(CLIENT, &ack(1))), room);
    assert_eq!(packets(r.handle(ReadEvent::Data(b""))), vec![data(2, b"")]);
}

#[test]
fn blocks_of_no_size_end_where_the_room_does() {
    let session = Session::new(CLIENT, &config(3), None);
    let session = Session { block_size: 0, window_size: 2, ..session };
    let mut r = ReadRequest::with_room(session, 3);
    wants(r.handle(ReadEvent::Start), 3);
    wants(r.handle(ReadEvent::Data(b"ab")), 1);
    wants(r.handle(ReadEvent::Data(b"c")), 3);
    let window = packets(r.handle(ReadEvent::Data(b"def")));
    assert_eq!(window, vec![data(1, b"abc"), data(2, b"def")]);
}
