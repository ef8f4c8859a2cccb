//! Wire codec for transport-protocol frames: type tags, sizes, writing and parsing.

pub mod frame;
pub mod padding;
pub mod ping;
pub mod varint;
