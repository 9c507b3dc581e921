//! Complexity measures of a function.

use vstd::prelude::*;

verus! {

/// Cyclomatic and cognitive complexity of a function, and how deep its
/// control flow nests.
#[derive(Debug, Clone, Copy, PartialEq, Eq, Structural)]
pub struct ComplexityMetrics {
    pub cyclomatic: usize,
    pub cognitive: usize,
    pub max_depth: usize,
}

} // verus!
