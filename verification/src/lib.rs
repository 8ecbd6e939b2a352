//! A protocol-translating cache proxy core.
//!
//! Clients speak a RESP-style textual protocol; the proxy turns each client
//! command into one or more calls against a remote cache backend that exposes
//! only coarse capability-oriented operations (scalar get, dictionary length,
//! bounded list fetch, list concatenate, set fetch, set element removal).
//! This crate is the translation layer: it validates requests, describes the
//! backend calls to issue, reconstructs protocol-exact replies from typed
//! backend outcomes, emulates multi-key set algebra the backend lacks, and
//! classifies every failure into a small error taxonomy.
//!
//! The surrounding runtime (socket handling, the backend SDK, the deadline
//! race around each call) performs the I/O and hands this crate plain values.

pub mod resp;
pub mod error;
pub mod text;
pub mod backend;
pub mod request;
pub mod byteset;
pub mod setfold;
pub mod handlers;
