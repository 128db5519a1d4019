//! Local trace-aggregation daemon library.
//!
//! Clients open named traces over a local socket, append JSON records to
//! them, and ask for the accumulated records to be materialized as a single
//! Trace-Event-Format (TEF) document.  This crate holds the verified core:
//! the line-oriented protocol codec, the JSON-lines-to-TEF exporter, the
//! per-trace write buffer, the reference-counted trace registry with its
//! reclamation and idle-shutdown rules, and the per-connection session state
//! machine.  The surrounding process (sockets, files, threads) drives these
//! through plain byte values.

pub mod bytes;
pub mod cli;
pub mod files;
pub mod msg;
pub mod registry;
pub mod session;
pub mod tef;
pub mod trace_file;

pub use bytes::bytes_eq;
pub use files::find_latest_file;
pub use msg::decode_line;
pub use msg::Msg;
pub use msg::ParseErrorKind;
pub use registry::RegEntry;
pub use registry::Registry;
pub use session::Action;
pub use session::Session;
pub use tef::emit_tef;
pub use trace_file::TraceBuf;
