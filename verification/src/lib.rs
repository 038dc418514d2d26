//! The core of a terminal that works on remote servers over SSH.
//!
//! The crate keeps one connection per server id, decides how a command line
//! is run and what is made of its output, completes the last word of an
//! input line, and tells when a connection is dead. It does no I/O: the
//! caller dials, sends and waits, and hands what came back to the functions
//! of this crate. Every function is verified against its contract. What is
//! believed of the standard library without proof stands in `assumed`.

pub mod assumed;
pub mod channel;
pub mod command;
pub mod completion;
pub mod connect;
pub mod error;
pub mod guarantees;
pub mod heartbeat;
pub mod lines;
pub mod order;
pub mod pool;
pub mod quoting;
pub mod records;
pub mod session;
pub mod text;
pub mod whitespace;
