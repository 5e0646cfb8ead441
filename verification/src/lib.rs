//! Verified server side of TFTP transfers (RFC 1350) with option negotiation
//! (RFC 2347 to 2349) and windowed transfers (RFC 7440).
//!
//! A transfer is a state machine: it takes the outcome of the last action and
//! answers with the next one. Sockets, timers, readers and writers stay with
//! the caller.

pub mod blocks;
pub mod buffer;
pub mod error;
pub mod packet;
pub mod packet_laws;
pub mod read_laws;
pub mod read_req;
pub mod read_step_laws;
pub mod session;
pub mod transfer_laws;
pub mod write_laws;
pub mod write_req;
pub mod write_step_laws;
