//! The logic of a small reliable-delivery protocol over UDP: a client that
//! numbers its messages and retransmits until acknowledged, a server that
//! acknowledges messages in order, and a proxy that drops or delays
//! datagrams between them. Sockets, timers, terminal and log files are left
//! to the programs that use this library.

pub mod text;
pub mod args;
pub mod wire;
pub mod client;
pub mod server;
pub mod proxy;
pub mod protocol;
