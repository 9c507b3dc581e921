//! Incremental analysis: which files a change affects.

pub mod affected;
pub mod state;
