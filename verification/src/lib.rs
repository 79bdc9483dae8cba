//! Quota-governed media chunking and resumable transcription core.
//!
//! The library plans how a long recording is split into request-sized
//! segments under time, byte and token budgets, throttles outbound calls
//! against per-model rate windows, drives the resumable-upload protocol as an
//! explicit state machine, and reconciles a per-segment manifest so an
//! interrupted run can resume without re-billing finished segments.
//!
//! All durations and timestamps are integer milliseconds; the thin I/O shell
//! around the library converts clock and probe readings at the boundary.

pub mod cli;
pub mod config;
pub mod constants;
pub mod conversion;
pub mod cost;
pub mod encoder;
pub mod engine;
pub mod manifest;
pub mod media;
pub mod model;
pub mod orchestrator;
pub mod parts;
pub mod pdf;
pub mod planner;
pub mod progress;
pub mod prompts;
pub mod quota;
pub mod render;
pub mod retry;
pub mod selection;
pub mod telemetry;
pub mod templates;
pub mod text;
pub mod uploader;
pub mod utils;
pub mod youtube;
