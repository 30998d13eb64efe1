//! Scrub through the full edit history of a collaboratively edited document.
//!
//! The document's history lives in a CRDT engine as a causal graph of
//! changes.  This crate linearizes that graph into a single addressable
//! timeline, drives a navigation state machine that checks the document out
//! at any chosen timeline index, keeps exact running statistics over the
//! checkout latencies, and throttles bursts of navigation requests.

pub mod engine;
pub mod errors;
pub mod navigator;
pub mod stats;
pub mod throttle;
pub mod timeline;
