//! Robots on a Zenoh network as components of a diagnostic server, and the options of the gateway
//! that serves them.
//!
//! The crate decides and computes; sending queries, waiting for publications and reading files is
//! left to its callers, who hand in what came back.

pub mod cli;
pub mod entity;
pub mod json;
pub mod laws;
pub mod session;
pub mod text;
pub mod tls;
pub mod zenoh;
pub mod zenoh_pub_sub;
