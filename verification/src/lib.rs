//! Verified core of a clip recording service.
//!
//! A client opens a persistent connection in one of two modes: chunk
//! ingestion, where binary frames (possibly fragmented) are reassembled
//! into clip files under a per-session directory, or playback, where an
//! ordered clip list is merged into one output file by an external
//! encoder. This crate holds the verified logic of that core: the
//! per-connection session state machine, the heartbeat supervision, the
//! playback request grammar, the session directory model, and the
//! construction and validation of the encoder invocation. The unverified
//! boundary (HTTP routes, sockets, the filesystem, the encoder process)
//! lives outside and drives these functions.

pub mod client;
pub mod errors;
pub mod heartbeat;
pub mod merge;
pub mod models;
pub mod request;
pub mod session;
pub mod store;
pub mod text;
pub mod util;
