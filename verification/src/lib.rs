//! Routing and presentation lifecycle engine for a live video-routing
//! installation: declarative sources, sinks and regions are validated,
//! turned into a fan-out processing topology, each sink's presentation
//! mode is resolved against the attached monitors, and the concurrent
//! lifecycle of surfaces and the processing graph is coordinated with a
//! single, idempotent shutdown sequence.
//!
//! The crate holds the decision logic only; the media and presentation
//! backends (stream processing, window surfaces) are external
//! collaborators driven by the embedding application.

pub mod coordinator;
pub mod digits;
pub mod events;
pub mod graph;
pub mod header;
pub mod inventory;
pub mod lifecycle;
pub mod options;
pub mod parser;
pub mod resolver;
pub mod runtime_config;
pub mod sink;
pub mod source;
pub mod widgets;
