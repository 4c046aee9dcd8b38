//! A media-ingestion server library: WebSocket clients authenticate with a
//! shared key in the handshake path, and the binary frames they send are
//! stored in a file under a per-kind directory.
//!
//! This crate holds the decisions of the server: the handshake router and
//! authenticator, the per-connection frame-ingestion state machine, and the
//! naming of the stored files. The network and file I/O that drive them live
//! outside it.

mod bytes;
pub mod error;
pub mod file_ty;
pub mod ingest;
pub mod naming;
pub mod router;

pub use error::Error;
pub use file_ty::FileTy;
pub use ingest::{Action, OpCode, Session, MAX_FRAMES};
pub use router::{manage_accept, Endpoint};
pub use naming::{dir_in, file_name, file_path, irec_dir};
