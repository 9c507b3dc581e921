//! Small helpers shared by the detectors.

pub mod package;
