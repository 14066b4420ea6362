//! The streams that a connection runs over.

pub mod datagrams;
pub mod udp_stream;
