use async_tftp::packet::{Opts, RwReq};
use async_tftp::session::{PeerAddr, ServerConfig, Timeout};
use async_tftp::write_req::{WriteAction, WriteEvent, WriteRequest};
use std::collections::VecDeque;

const CLIENT: PeerAddr = PeerAddr::V4 { ip: 0x7f000001, port: 40000 };

fn content(len: usize) -> Vec<u8> {
    let mut seed: u32 = 12345;
    let mut data = Vec::with_capacity(len);
    for _ in 0..len {
        seed = seed.wrapping_mul(1664525).wrapping_add(1013904223);
        data.push((seed >> 24) as u8);
    }
    data
}

fn config(window_size_limit: Option<u16>) -> ServerConfig {
    ServerConfig {
        timeout: Timeout { secs: 3, nanos: 0 },
        block_size_limit: None,
        window_size_limit,
        max_send_retries: 100,
        ignore_client_timeout: false,
        ignore_client_block_size: false,
        ignore_client_window_size: false,
    }
}

/// A client that stores `file`: it sends a window of blocks after every ACK.
struct Client {
    blocks: Vec<Vec<u8>>,
    window: usize,
    acked: usize,
    queue: VecDeque<Vec<u8>>,
}

impl Client {
    fn new(file: &[u8], block_size: usize, window: usize) -> Client {
        let mut blocks: Vec<Vec<u8>> = file.chunks(block_size).map(|b| b.to_vec()).collect();
        if file.len() % block_size == 0 {
            blocks.push(Vec::new());
        }
        Client { blocks, window, acked: 0, queue: VecDeque::new() }
    }

    fn hears(&mut self, packet: &[u8]) {
        if packet[1] == 4 {
            let id = u16::from_be_bytes([packet[2], packet[3]]);
            while self.acked as u16 != id {
                self.acked += 1;
            }
        } else {
            assert_eq!(packet[1], 6);
        }
        let end = (self.acked + self.window).min(self.blocks.len());
        for i in self.acked..end {
            let mut datagram = vec![0, 3];
            datagram.extend_from_slice(&((i + 1) as u16).to_be_bytes());
            datagram.extend_from_slice(&self.blocks[i]);
            self.queue.push_back(datagram);
        }
    }
}

fn transfer(
    file_size: usize,
    block_size: Option<u16>,
    server_window_size: Option<u16>,
    client_window_size: Option<u16>,
) {
    let file = content(file_size);
    let opts = Opts {
        block_size,
        timeout: None,
        transfer_size: None,
        window_size: client_window_size,
    };
    let limit = server_window_size.unwrap_or(1);
    let mut request = WriteRequest::init(CLIENT, &RwReq { opts }, &config(Some(limit)));
    let mut client = Client::new(
        &file,
        block_size.unwrap_or(512) as usize,
        client_window_size.map(|w| w.min(limit)).unwrap_or(1) as usize,
    );

    let mut stored: Vec<u8> = Vec::new();
    let mut flushed = false;
    let mut closed = false;
    let mut action = request.handle(WriteEvent::Start);
    loop {
        let event = match action {
            WriteAction::SendAck => {
                client.hears(request.ack());
                WriteEvent::Sent
            }
            WriteAction::Receive(mut buf) | WriteAction::KeepReceiving(mut buf) => {
                let datagram = client.queue.pop_front().expect("nothing to receive");
                let len = datagram.len().min(buf.len());
                buf[..len].copy_from_slice(&datagram[..len]);
                WriteEvent::Datagram(CLIENT, buf, len)
            }
            WriteAction::Write(payload) => {
                stored.extend_from_slice(&payload);
                WriteEvent::Written
            }
            WriteAction::Flush => {
                flushed = true;
                WriteEvent::Flushed
            }
            WriteAction::Close => {
                assert!(flushed);
                closed = true;
                WriteEvent::Closed
            }
            WriteAction::Done => break,
            WriteAction::Fail(error, _) => panic!("{:?}", error),
        };
        action = request.handle(event);
    }
    assert!(closed);
    assert_eq!(client.acked, client.blocks.len());
    assert!(stored == file);
}

#[test]
fn wrq_transfer_0_bytes() {
    transfer(0, None, None, None);
    transfer(0, Some(1024), Some(8), Some(8));
}

#[test]
fn wrq_transfer_less_than_block() {
    transfer(1, None, None, None);
    transfer(123, None, Some(8), Some(8));
    transfer(511, None, None, None);
    transfer(1023, Some(1024), Some(8), Some(8));
}

#[test]
fn wrq_transfer_block() {
    transfer(512, None, None, None);
    transfer(1024, Some(1024), Some(8), Some(8));
}

#[test]
fn wrq_transfer_more_than_block() {
    transfer(512 + 1, None, None, None);
    transfer(512 + 511, None, Some(4), Some(4));
    transfer(1024 + 123, Some(1024), Some(8), Some(8));
    transfer(1024 + 1023, Some(1024), Some(8), Some(4));
}

#[test]
fn wrq_transfer_1mb_with_window() {
    transfer(1024 * 1024, Some(1024), Some(16), Some(8));
}

#[test]
fn wrq_block_ids_start_over() {
    transfer(70_000, Some(1), Some(64), Some(64));
}
