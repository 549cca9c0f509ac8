//! Framing and classification of the MSNP2P direct-connection stream, and a
//! few data types shared with the rest of the messenger bridge.
//!
//! A peer's stream is a sequence of frames, each a four-byte little-endian
//! payload length followed by the payload. [`parser::P2PCommandParser`]
//! reassembles frames from reads that split them anywhere, and classifies
//! each payload as the `foo` marker, a handshake nonce, or a
//! [`transport::P2PTransportPacket`].

pub mod bytes;
pub mod command;
pub mod endpoint;
pub mod emoji;
pub mod error;
pub mod laws;
pub mod parser;
pub mod sharing;
pub mod space;
mod text;
pub mod transport;
pub mod xml;
