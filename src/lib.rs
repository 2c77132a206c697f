//! Pad-pair latency measurement for a dataflow pipeline.
//!
//! The host reports links being made and torn down and units of work
//! entering and leaving links; the engine resolves each link's endpoints
//! through alias and proxy endpoints, keeps one cache entry per measured
//! source endpoint, and reports each link's latency, less the downstream
//! span already measured on the same thread, to three metric series.
pub mod bridge;
pub mod cache;
pub mod engine;
pub mod graph;
pub mod lemmas;
pub mod metrics;
pub mod profiler;
pub mod settings;
pub mod spans;
