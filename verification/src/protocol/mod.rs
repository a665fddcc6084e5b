//! The wire format: variable-length integers, framed packets, and the packets that open a
//! connection.

pub mod cursor;
pub mod error;
pub mod handshake;
pub mod packet;
pub mod varint;
