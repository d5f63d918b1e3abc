//! A verified core for a command-line client that drives a long-running
//! build-tool server over a local byte-stream socket, speaking a
//! length-prefixed JSON-RPC-like message protocol.
//!
//! The library holds the protocol logic: framing an outbound command,
//! scanning a header block for its terminator, extracting the declared
//! payload length, classifying inbound payloads into message variants, and
//! deciding when the session is over.  The byte-stream transport itself is
//! ordinary blocking I/O and lives outside the library.

pub mod command;
pub mod digits;
pub mod errors;
pub mod frame;
pub mod message;
pub mod render;
pub mod session;
