//! Verified core of the `_zed.dev/lsp` agent extension and of the snapshot
//! trigger component.
//!
//! The extension lets an agent list the language servers of a project and
//! forward client-to-server LSP requests to them. This crate holds the
//! decisions behind that: how a server is named, which methods may be
//! forwarded, how a listing is assembled from the project's server state, how
//! a requested id is resolved, and which error answers a refused request.
//! The snapshot module computes where a captured window image is written.

mod json;

pub mod errors;
pub mod server_id;
pub mod methods;
pub mod snapshot;
pub mod listing;
pub mod listing_laws;
