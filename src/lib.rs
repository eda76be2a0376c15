//! Length-prefixed binary framing for a small address-exchange protocol.
//!
//! A client asks for a number of IPv4 socket addresses; the server answers
//! with that many addresses. Each direction has a codec that appends frames
//! to a receive/send buffer and decodes them incrementally from it.
pub mod buffer;
pub mod client;
pub mod codec;
pub mod laws;
pub mod message;
pub mod server;
pub mod wire;

pub use client::{next_client_action, ClientAction};
pub use codec::{ClientToServerCodec, ServerToClientCodec, MAX_RESPONSE_ADDRS};
pub use message::{CodecError, IpAddress, Request, Response, SocketAddress};
pub use server::{gen_sock_addr, respond};
