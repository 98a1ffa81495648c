//! Acquisition and calibration pipeline for a strain-gauge load cell read
//! through a 24-bit delta-sigma converter.
//!
//! The crate holds the decisions of the pipeline as pure, verified functions:
//! decoding of conversion codes, the bit-serial exchange protocol, the bounded
//! retry of a read, averaging, taring and the calibrate-then-measure cycle.
//! Hardware access stays with the caller, which performs the action that a
//! state machine asks for and hands back what happened.

pub mod average;
pub mod config;
pub mod error;
pub mod exchange;
pub mod gain;
pub mod measurement;
pub mod reader;
pub mod report;
pub mod sample;
