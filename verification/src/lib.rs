//! The core of a fleet telemetry backend, verified: agents push metrics,
//! logs, traces, process snapshots, health checks and call samples; the
//! backend keeps a short history of each in memory, examines what arrives
//! for anomalies, and explains what it finds.
//!
//! - `store`: the bounded store, a buffer that keeps the newest items.
//! - `events`: the records that are pushed and kept.
//! - `api`, `kafka`: what becomes of a record that was taken, by route or
//!   by topic.
//! - `ml`, `patterns`: the anomaly engine with its detectors and its
//!   pattern-frequency table.
//! - `gemma_ai`, `log_humanizer`: the two insight chains, each with a
//!   deterministic answer where the outside engine gives none.
//! - `registry`: the agents that registered.
//! - `websocket`: the live push session.
//! - `opensearch`: the names of the external index.
//! - `collector`, `reporter`, `config`: what an agent derives and reports.
//! - `decimal`, `text`, `seqs`: numbers with three decimal places, texts as
//!   sequences of characters, and counting over sequences.
//!
//! Nothing here reads a clock, a file or a socket: the time, and what an
//! outside engine replied, are handed in by the caller.

pub mod api;
pub mod collector;
pub mod config;
pub mod decimal;
pub mod events;
pub mod gemma_ai;
pub mod kafka;
pub mod log_humanizer;
pub mod ml;
pub mod opensearch;
pub mod patterns;
pub mod registry;
pub mod reporter;
pub mod seqs;
pub mod store;
pub mod text;
pub mod websocket;
