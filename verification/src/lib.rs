//! Client side of the RCON remote-console protocol, without the socket.
//!
//! The crate holds the frame codec and the session rules: request ids, the
//! login handshake, the command length guard and the reassembly of replies
//! that span several frames. It never touches a stream itself. Every
//! operation hands back the bytes to write, and takes the frames that were
//! read, so the caller performs the transfers.

pub mod connection;
pub mod endian;
pub mod error;
pub mod packet;

pub use connection::Connection;
pub use error::Error;
