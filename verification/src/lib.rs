//! An in-memory message broker core: a length-framed wire codec with chunked
//! body reassembly, an exchange routing tree resolving four-segment routing
//! keys, FIFO queues, and the per-connection dispatch logic that ties them
//! together. Socket handling lives outside this crate; everything here is
//! plain data and verified logic.

pub mod common;
pub mod host;
pub mod net;
pub mod protocol;
pub mod queue;
pub mod routing;
