//! Reports: how smells are named, counted, laid out and drawn.

pub mod facts;
pub mod json;
pub mod location;
pub mod markdown;
pub mod mermaid;
pub mod sarif;
pub mod severity;
pub mod summary;
