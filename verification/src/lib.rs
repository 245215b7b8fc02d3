//! A TFTP (RFC 1350-class) protocol engine: a binary packet codec and a
//! per-transfer, lock-step state machine with timeout-based retransmission,
//! plus a registry keying each peer's transfer by its negotiated TID.
//!
//! The engine is pure logic: transport, storage and the clock are
//! collaborators that hand plain values in and take plain values back.

pub mod codec;
pub mod packet;
pub mod registry;
pub mod session;
pub mod timer;
