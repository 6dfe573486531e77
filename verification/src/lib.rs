//! A small connection-oriented messaging layer over unreliable datagrams.
//!
//! The crate verifies the protocol core: the wire-packet codec, the 16-bit
//! wrap-around sequence tracker, and the client and server endpoint state
//! machines. Each endpoint is written against plain inbound/outbound packet
//! queues; the surrounding process is expected to pump datagrams between
//! those queues and a socket.

pub mod client;
pub mod packet;
pub mod server;
pub mod shared;
