//! Verified core of a file-triage pipeline: bounded flow-controlled
//! channels between cooperatively scheduled stages, a duty-cycle
//! throttle for CPU-bound work, and a chunked decode engine that
//! drives a local generative model in bounded batches.

pub mod args;
pub mod channel;
pub mod decode;
pub mod graph;
pub mod metadata;
pub mod report;
pub mod text;
pub mod throttle;
