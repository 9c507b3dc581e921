//! Errors of the analysis.

use vstd::prelude::*;

verus! {

/// What went wrong while analysing a project.
pub enum AnalysisError {
    /// A path could not be resolved; the message names it.
    PathResolution(String),
    /// The tsconfig file asked for does not exist; the payload is its path.
    TsConfigNotFound(String),
    /// A tsconfig file extends itself through its `extends` chain; the
    /// payload is the path met twice.
    CircularExtends(String),
    /// No file answers a tsconfig `extends` value; the payload is that value.
    UnresolvedExtends(String),
}

} // verus!
