//! A protocol engine for CTMP, a fixed-format binary framing protocol:
//! header parsing and validation, one's-complement checksum verification,
//! a bounded destination registry with broadcast pruning, and the source
//! session state machine that drives frames from a single producer to
//! every registered consumer.

pub mod checksum;
pub mod header;
pub mod registry;
pub mod session;
