//! A local inter-process broker: named shared objects, remote calls on them,
//! fan-out events and a start-up barrier, over JSON records on a stream, each
//! record ended by a read that does not fill its chunk.

pub mod client;
pub mod error;
pub mod json;
pub mod manager;
pub mod message;
pub mod server;
pub mod table;
pub mod value;

use vstd::prelude::*;

verus! {

/// The address the broker binds and the clients connect to by default.
pub const SERVER_ADDRESS: &'static str = "127.0.0.1:1986";

/// The size of one chunked read; a shorter read ends a message.
pub const CHUNK_SIZE: usize = 4096;

/// The environment variable that, if it is set, gives the address in place
/// of `SERVER_ADDRESS`.
pub const ENV_SERVER_ADDRESS: &'static str = "IPC_SERVER_ADDRESS";

/// The environment variable that sets the log level.
pub const ENV_LOGGER: &'static str = "RUST_LOG";

} // verus!
