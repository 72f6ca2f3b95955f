//! Verified core of a DNS record synchroniser.
//!
//! The library keeps a set of hostnames' DNS records at a remote provider in
//! step with a freshly measured pool of candidate addresses.  It computes the
//! record diff, distributes candidates round-robin over hostnames, renders
//! notification payloads for several push channels, and maintains a tag-scoped
//! address list inside a remote repository file.  All decision logic lives
//! here with contracts; the surrounding process (network calls, files,
//! subprocesses) drives it from outside.

pub mod candidates;
pub mod cfst;
pub mod config;
pub mod jsonio;
pub mod notify;
pub mod orchestrate;
pub mod provider;
pub mod push;
pub mod publisher;
pub mod reconcile;
pub mod report;
pub mod repo;
pub mod retry;
pub mod text;
