//! A minimal file-serving request/response protocol carried over a secure
//! multiplexed transport: a one-line `GET` request grammar, traversal-safe
//! resolution of the requested path under a served root, and chunked
//! streaming of the file's bytes back to the peer.
//!
//! Everything the server decides about a request — whether it parses, which
//! single filesystem path it may open, and exactly which bytes go back on the
//! stream — is computed here and verified. The transport and the filesystem
//! are driven by a thin unverified shell around this crate.

pub mod client;
pub mod error;
pub mod handler;
pub mod request;
pub mod resolve;
pub mod respond;
pub mod scan;
