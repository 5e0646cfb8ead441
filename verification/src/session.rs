//! The terms of a transfer: what the server is set up with, and what comes of
//! it and of the options that the client asked for.

use crate::packet::Opts;
use vstd::prelude::*;

verus! {

/// Bytes of payload in a full DATA packet where no other size was agreed.
pub const DEFAULT_BLOCK_SIZE: usize = 512;

/// DATA packets for each ACK where no other number was agreed.
pub const DEFAULT_WINDOW_SIZE: usize = 1;

/// The address and port of a client.
#[derive(Clone, Copy, Debug, PartialEq, Eq, Structural)]
pub enum PeerAddr {
    V4 { ip: u32, port: u16 },
    V6 { ip6: u128, port: u16, flowinfo: u32, scope_id: u32 },
}

/// A span of time.
#[derive(Clone, Copy, Debug, PartialEq, Eq, Structural)]
pub struct Timeout {
    pub secs: u64,
    pub nanos: u32,
}

/// How the server treats transfers.
#[derive(Clone, Copy, Debug, PartialEq, Eq, Structural)]
pub struct ServerConfig {
    /// How long to wait for an answer where the client asked for no other time.
    pub timeout: Timeout,
    /// The largest block size to agree to.
    pub block_size_limit: Option<u16>,
    /// The largest window size to agree to.
    pub window_size_limit: Option<u16>,
    /// How often to send again what was not answered in time.
    pub max_send_retries: u32,
    /// Turn down the timeout option.
    pub ignore_client_timeout: bool,
    /// Turn down the block size option.
    pub ignore_client_block_size: bool,
    /// Turn down the window size option.
    pub ignore_client_window_size: bool,
}

/// The terms of one transfer; they do not change while it runs.
#[derive(Clone, Copy, Debug, PartialEq, Eq, Structural)]
pub struct Session {
    /// The client; what others send is ignored.
    pub peer: PeerAddr,
    /// Bytes of payload in a full DATA packet.
    pub block_size: usize,
    /// DATA packets for each ACK.
    pub window_size: usize,
    /// How long to wait for an answer.
    pub timeout: Timeout,
    /// How often to send again what was not answered in time.
    pub max_send_retries: u32,
    /// The options to acknowledge, if any.
    pub oack_opts: Option<Opts>,
}

/// What comes of a size option: nothing where it is turned down or was not
/// asked for, else what was asked for, up to the limit.
pub open spec fn agreed_size(ignored: bool, asked: Option<u16>, limit: Option<u16>) -> Option<u16> {
    if ignored {
        None
    } else {
        match (asked, limit) {
            (Some(size), Some(limit)) => Some(if size <= limit { size } else { limit }),
            (Some(size), None) => Some(size),
            (None, _) => None,
        }
    }
}

/// `opts` where there is an option in it to acknowledge.
pub open spec fn unless_none(opts: Opts) -> Option<Opts> {
    if opts == Opts::none() {
        None
    } else {
        Some(opts)
    }
}

impl Session {
    /// The terms that follow from the options to acknowledge.
    pub open spec fn spec_new(
        peer: PeerAddr,
        config: ServerConfig,
        oack_opts: Option<Opts>,
    ) -> Session {
        let opts = match oack_opts {
            Some(opts) => opts,
            None => Opts::none(),
        };
        Session {
            peer,
            block_size: match opts.block_size {
                Some(size) => size as usize,
                None => DEFAULT_BLOCK_SIZE,
            },
            window_size: match opts.window_size {
                Some(size) => size as usize,
                None => DEFAULT_WINDOW_SIZE,
            },
            timeout: match opts.timeout {
                Some(secs) => Timeout { secs: secs as u64, nanos: 0 },
                None => config.timeout,
            },
            max_send_retries: config.max_send_retries,
            oack_opts,
        }
    }

    /// Sizes are those of 16-bit options.
    pub open spec fn valid(self) -> bool {
        self.block_size <= u16::MAX && self.window_size <= u16::MAX
    }

    /// The terms that follow from the options to acknowledge.
    pub fn new(peer: PeerAddr, config: &ServerConfig, oack_opts: Option<Opts>) -> (session: Session)
        ensures
            session == Session::spec_new(peer, *config, oack_opts),
            session.valid(),
    {
        let opts = match oack_opts {
            Some(opts) => opts,
            None => Opts::default(),
        };
        Session {
            peer,
            block_size: match opts.block_size {
                Some(size) => size as usize,
                None => DEFAULT_BLOCK_SIZE,
            },
            window_size: match opts.window_size {
                Some(size) => size as usize,
                None => DEFAULT_WINDOW_SIZE,
            },
            timeout: match opts.timeout {
                Some(secs) => Timeout { secs: secs as u64, nanos: 0 },
                None => config.timeout,
            },
            max_send_retries: config.max_send_retries,
            oack_opts,
        }
    }
}

/// Decides on a size option: nothing where it is turned down or was not asked
/// for, else what was asked for, up to the limit.
pub fn agree_size(ignored: bool, asked: Option<u16>, limit: Option<u16>) -> (size: Option<u16>)
    ensures
        size == agreed_size(ignored, asked, limit),
{
    if ignored {
        return None;
    }
    match (asked, limit) {
        (Some(size), Some(limit)) => Some(if size <= limit { size } else { limit }),
        (Some(size), None) => Some(size),
        (None, _) => None,
    }
}

/// A size is agreed only where the client asked for one and the server does
/// not turn it down, and then it exceeds neither what was asked for nor the
/// limit, and is one of the two.
pub proof fn law_agreed_size(ignored: bool, asked: Option<u16>, limit: Option<u16>)
    ensures
        agreed_size(ignored, asked, limit) is Some <==> asked is Some && !ignored,
        agreed_size(ignored, asked, limit) matches Some(size) ==> {
            &&& size <= asked.unwrap()
            &&& limit is Some ==> size <= limit.unwrap()
            &&& size == asked.unwrap() || Some(size) == limit
        },
{
}

/// A transfer runs on what was acknowledged: an option in the OACK is the size
/// or the time that the transfer goes by, and where an option is not there, or
/// no OACK at all, the default of the RFC or the server holds. The client and
/// the number of retries are those given.
pub proof fn law_terms_are_acknowledged(
    peer: PeerAddr,
    config: ServerConfig,
    oack_opts: Option<Opts>,
)
    ensures
        ({
            let session = Session::spec_new(peer, config, oack_opts);
            &&& session.peer == peer
            &&& session.max_send_retries == config.max_send_retries
            &&& session.oack_opts == oack_opts
            &&& session.valid()
            &&& oack_opts matches Some(opts) ==> {
                &&& opts.block_size matches Some(size) ==> session.block_size == size
                &&& opts.block_size is None ==> session.block_size == 512
                &&& opts.window_size matches Some(size) ==> session.window_size == size
                &&& opts.window_size is None ==> session.window_size == 1
                &&& opts.timeout matches Some(secs) ==> session.timeout.secs == secs
                    && session.timeout.nanos == 0
                &&& opts.timeout is None ==> session.timeout == config.timeout
            }
            &&& oack_opts is None ==> {
                &&& session.block_size == 512
                &&& session.window_size == 1
                &&& session.timeout == config.timeout
            }
        }),
{
}

} // verus!
