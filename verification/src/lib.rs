//! Architecture analysis for TypeScript/JavaScript projects: dependency graph,
//! source positions, ignore-comment handling, path patterns, stable smell IDs
//! and report helpers, with their behaviour stated as Verus contracts.

pub mod detectors;
pub mod error;
pub mod globs;
pub mod graph;
pub mod incremental;
pub mod metrics;
pub mod no_cli_mocks;
pub mod order;
pub mod package_json;
pub mod path_matcher;
pub mod paths;
pub mod project_root;
pub mod report;
pub mod resolver;
pub mod rule_resolver;
pub mod scanner;
pub mod snapshot;
pub mod text;
pub mod tsconfig;
pub mod utils;
pub mod parser;
