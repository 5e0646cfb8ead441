//! Why a transfer fails, and what the client is told.

use crate::packet::PacketError;
use crate::session::PeerAddr;
use vstd::prelude::*;

verus! {

/// The kinds of I/O error that a transfer tells apart.
#[derive(Clone, Copy, Debug, PartialEq, Eq, Structural)]
pub enum IoErrorKind {
    TimedOut,
    NotFound,
    PermissionDenied,
    AlreadyExists,
    StorageFull,
    Other,
}

/// Why a transfer failed.
#[derive(Clone, Copy, Debug, PartialEq, Eq, Structural)]
pub enum Error {
    /// An action of the transfer failed.
    Io(IoErrorKind),
    /// The peer did not answer for the block, however often it was asked.
    MaxSendRetriesReached(PeerAddr, u16),
}

impl Error {
    /// What the client is told of the error.
    pub open spec fn reported(self) -> PacketError {
        match self {
            Error::Io(IoErrorKind::NotFound) => PacketError::FileNotFound,
            Error::Io(IoErrorKind::PermissionDenied) => PacketError::PermissionDenied,
            Error::Io(IoErrorKind::AlreadyExists) => PacketError::FileAlreadyExists,
            Error::Io(IoErrorKind::StorageFull) => PacketError::DiskFull,
            Error::Io(IoErrorKind::TimedOut) => PacketError::UnknownError,
            Error::Io(IoErrorKind::Other) => PacketError::UnknownError,
            Error::MaxSendRetriesReached(_, _) => PacketError::MaxRetriesReached,
        }
    }

    /// What the client is told of the error.
    pub fn report(&self) -> (error: PacketError)
        ensures
            error == self.reported(),
    {
        match self {
            Error::Io(kind) => match kind {
                IoErrorKind::NotFound => PacketError::FileNotFound,
                IoErrorKind::PermissionDenied => PacketError::PermissionDenied,
                IoErrorKind::AlreadyExists => PacketError::FileAlreadyExists,
                IoErrorKind::StorageFull => PacketError::DiskFull,
                IoErrorKind::TimedOut => PacketError::UnknownError,
                IoErrorKind::Other => PacketError::UnknownError,
            },
            Error::MaxSendRetriesReached(_, _) => PacketError::MaxRetriesReached,
        }
    }
}

} // verus!
