//! Planning for fitting a one-variable linear model by batched gradient
//! descent: how a data set is sized and split, how it is cut into chunks, in
//! which order a training run descends and reports, and how progress and
//! results are laid out as text.
//!
//! The library works on counts, positions and text only. The model's numbers
//! stay with the driver of a run, which performs the actions that a
//! `schedule::Schedule` hands out.

pub mod chunks;
pub mod dataset;
pub mod progress;
pub mod report;
pub mod schedule;
