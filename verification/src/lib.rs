//! A chat protocol library: a length-prefixed binary framing codec, the
//! message catalog with its serialization, per-connection protocol state
//! machines for client and server, a pluggable handler dispatch engine with
//! an operation pipeline, and a cross-connection event fan-out.
//!
//! Everything that decides or computes lives here, verified; sockets, timers
//! and the terminal live with the caller, which hands plain values in and out.
pub mod client;
pub mod fanout;
pub mod fifo;
pub mod handler;
pub mod ipencoding;
pub mod msg;
pub mod seri;
pub mod server;
pub mod sock;
