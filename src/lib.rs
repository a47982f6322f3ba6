//! A local transport between a long-lived server and short-lived clients: length-prefixed
//! frames, a tagged event encoding, per-connection addresses with a join handshake, and the
//! decisions for starting a server on demand.

pub mod address;
pub mod bootstrap;
pub mod connection;
pub mod envelope;
pub mod error;
pub mod frame;
pub mod handshake;
pub mod server;
