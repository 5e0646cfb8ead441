use async_tftp::packet::{Opts, RwReq};
use async_tftp::session::{agree_size, PeerAddr, ServerConfig, Session, Timeout};
use async_tftp::{read_req, write_req};

const NONE: Opts = Opts { block_size: None, timeout: None, transfer_size: None, window_size: None };

fn config() -> ServerConfig {
    ServerConfig {
        timeout: Timeout { secs: 3, nanos: 500 },
        block_size_limit: None,
        window_size_limit: None,
        max_send_retries: 7,
        ignore_client_timeout: false,
        ignore_client_block_size: false,
        ignore_client_window_size: false,
    }
}

fn peer() -> PeerAddr {
    PeerAddr::V6 { ip6: 1, port: 69, flowinfo: 0, scope_id: 2 }
}

#[test]
fn agreed_sizes() {
    assert_eq!(agree_size(false, Some(1024), Some(512)), Some(512));
    assert_eq!(agree_size(false, Some(256), Some(512)), Some(256));
    assert_eq!(agree_size(false, Some(1024), None), Some(1024));
    assert_eq!(agree_size(false, None, Some(512)), None);
    assert_eq!(agree_size(true, Some(1024), None), None);
}

#[test]
fn read_options_within_limits() {
    let mut config = config();
    config.block_size_limit = Some(1024);
    config.window_size_limit = Some(4);
    let asked = Opts {
        block_size: Some(1428),
        timeout: Some(5),
        transfer_size: Some(0),
        window_size: Some(16),
    };
    assert_eq!(
        read_req::build_oack_opts(&config, &RwReq { opts: asked }, Some(99)),
        Some(Opts {
            block_size: Some(1024),
            timeout: Some(5),
            transfer_size: Some(99),
            window_size: Some(4),
        })
    );
}

#[test]
fn read_transfer_size_only_where_asked_and_known() {
    let zero = RwReq { opts: Opts { transfer_size: Some(0), ..NONE } };
    let other = RwReq { opts: Opts { transfer_size: Some(1), ..NONE } };
    assert_eq!(read_req::build_oack_opts(&config(), &zero, None), None);
    assert_eq!(read_req::build_oack_opts(&config(), &other, Some(99)), None);
    assert_eq!(
        read_req::build_oack_opts(&config(), &zero, Some(0)),
        Some(Opts { transfer_size: Some(0), ..NONE })
    );
}

#[test]
fn write_transfer_size_is_echoed() {
    let req = RwReq { opts: Opts { transfer_size: Some(77), ..NONE } };
    assert_eq!(
        write_req::build_oack_opts(&config(), &req),
        Some(Opts { transfer_size: Some(77), ..NONE })
    );
}

#[test]
fn options_turned_down() {
    let mut config = config();
    config.ignore_client_timeout = true;
    config.ignore_client_block_size = true;
    config.ignore_client_window_size = true;
    let req = RwReq {
        opts: Opts {
            block_size: Some(1024),
            timeout: Some(5),
            transfer_size: None,
            window_size: Some(8),
        },
    };
    assert_eq!(read_req::build_oack_opts(&config, &req, Some(99)), None);
    assert_eq!(write_req::build_oack_opts(&config, &req), None);
}

#[test]
fn terms_without_options() {
    assert_eq!(read_req::build_oack_opts(&config(), &RwReq { opts: NONE }, Some(1)), None);
    let session = Session::new(peer(), &config(), None);
    assert_eq!(session.peer, peer());
    assert_eq!(session.block_size, 512);
    assert_eq!(session.window_size, 1);
    assert_eq!(session.timeout, Timeout { secs: 3, nanos: 500 });
    assert_eq!(session.max_send_retries, 7);
    assert_eq!(session.oack_opts, None);
}

#[test]
fn terms_with_options() {
    let opts = Opts {
        block_size: Some(8),
        timeout: Some(250),
        transfer_size: None,
        window_size: Some(65535),
    };
    let session = Session::new(peer(), &config(), Some(opts));
    assert_eq!(session.block_size, 8);
    assert_eq!(session.window_size, 65535);
    assert_eq!(session.timeout, Timeout { secs: 250, nanos: 0 });
    assert_eq!(session.oack_opts, Some(opts));
    // An option that was not agreed leaves its default.
    let session = Session::new(peer(), &config(), Some(Opts { timeout: Some(1), ..NONE }));
    assert_eq!(session.block_size, 512);
    assert_eq!(session.window_size, 1);
}
