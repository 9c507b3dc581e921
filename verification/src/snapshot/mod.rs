//! Snapshots of the smells of a project, each under an ID that stays the same
//! from one run to the next.

pub mod generator;
pub mod id;
pub mod smell_text;
pub mod types;
