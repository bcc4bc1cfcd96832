//! Core of a resumable segmented video-upscaling pipeline.
//!
//! A video job is split into fixed-size frame segments; each segment is
//! exported to frames, upscaled, and re-encoded, and the encoded parts are
//! finally concatenated and remuxed with the original non-video streams.
//! This crate holds the verified orchestration core: segment planning,
//! crash-recovery validation of on-disk artifacts, the three-stage pipeline
//! scheduler, progress aggregation, finalization decisions, and the persisted
//! multi-file work queue used in directory mode.  Process spawning, the
//! filesystem, and the database live outside, in the unverified shell; they
//! hand this crate plain values and carry out the actions it decides.

pub mod commands;
pub mod coordinator;
pub mod errors;
pub mod finalize;
pub mod fmt;
pub mod json;
pub mod media;
pub mod paths;
pub mod planner;
pub mod probe;
pub mod progress;
pub mod resume;
pub mod validation;
pub mod video;
pub mod workqueue;
