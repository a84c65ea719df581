//! Client-side core of a remote proving service SDK.
//!
//! The library covers the three parts of such a client that carry real
//! correctness weight, each specified and verified:
//!
//! - a resilient transport pipeline: header deduplication, logging,
//!   retry with failure classification, and threshold-gated request-body
//!   compression (`transport`, `retry`);
//! - an asynchronous job poller: the submit / poll / fetch state machine
//!   with interval and timeout semantics (`poller`);
//! - a project packager: manifest gating, layered ignore rules, and a
//!   size-bounded gzip + tar archive (`packager`).
//!
//! Network and filesystem edges stay outside the library; callers hand in
//! plain values (bytes, strings, status codes) and drive the loops with
//! the decision functions exported here.

pub mod client;
pub mod packager;
pub mod poller;
pub mod retry;
pub mod transport;
pub mod types;
