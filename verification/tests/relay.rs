use async_tftp::packet::{Opts, RwReq};
use async_tftp::read_req::{ReadAction, ReadEvent, ReadRequest};
use async_tftp::session::{PeerAddr, ServerConfig, Timeout};
use async_tftp::write_req::{WriteAction, WriteEvent, WriteRequest};

const CLIENT: PeerAddr = PeerAddr::V4 { ip: 1, port: 1 };

fn config() -> ServerConfig {
    ServerConfig {
        timeout: Timeout { secs: 1, nanos: 0 },
        block_size_limit: None,
        window_size_limit: None,
        max_send_retries: 3,
        ignore_client_timeout: false,
        ignore_client_block_size: false,
        ignore_client_window_size: false,
    }
}

/// All packets that serving `file` sends.
fn served(file: &[u8], req: &RwReq) -> Vec<Vec<u8>> {
    let mut request = ReadRequest::init(None, CLIENT, req, &config());
    let mut sent: Vec<Vec<u8>> = Vec::new();
    let mut pos: usize = 0;
    let mut blocks: u16 = 0;
    let mut action = request.handle(ReadEvent::Start);
    loop {
        action = match action {
            ReadAction::Read(max) => {
                let n = max.min(file.len() - pos);
                pos += n;
                request.handle(ReadEvent::Data(&file[pos - n..pos]))
            }
            ReadAction::Send(packets) => {
                for packet in packets {
                    blocks += (packet[1] == 3) as u16;
                    sent.push(packet.to_vec());
                }
                request.handle(ReadEvent::Sent)
            }
            ReadAction::Receive => {
                let ack = [0, 4, (blocks >> 8) as u8, blocks as u8];
                request.handle(ReadEvent::Datagram(CLIENT, &ack))
            }
            ReadAction::Done => return sent,
            _ => panic!("unexpected"),
        };
    }
}

#[test]
fn what_is_served_can_be_stored_in_any_order() {
    let file: Vec<u8> = (0..1000u32).map(|i| (i * i / 7) as u8).collect();
    let opts = Opts {
        block_size: Some(64),
        timeout: None,
        transfer_size: None,
        window_size: Some(4),
    };
    let req = RwReq { opts };
    let mut packets = served(&file, &req);
    assert_eq!(packets.len(), 17);
    // Back to front, over and over; the OACK among them says nothing.
    packets.reverse();

    let mut request = WriteRequest::init(CLIENT, &req, &config());
    let mut stored: Vec<u8> = Vec::new();
    let mut next: usize = 0;
    let mut action = request.handle(WriteEvent::Start);
    loop {
        let event = match action {
            WriteAction::SendAck => WriteEvent::Sent,
            WriteAction::Receive(mut buf) | WriteAction::KeepReceiving(mut buf) => {
                let packet = &packets[next % packets.len()];
                next += 1;
                buf[..packet.len()].copy_from_slice(packet);
                WriteEvent::Datagram(CLIENT, buf, packet.len())
            }
            WriteAction::Write(payload) => {
                stored.extend_from_slice(&payload);
                WriteEvent::Written
            }
            WriteAction::Flush => WriteEvent::Flushed,
            WriteAction::Close => WriteEvent::Closed,
            WriteAction::Done => break,
            WriteAction::Fail(error, _) => panic!("{:?}", error),
        };
        action = request.handle(event);
    }
    assert!(stored == file);
}
