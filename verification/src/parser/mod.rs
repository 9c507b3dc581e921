//! Source-level helpers of the parser: positions, ignore comments, tokens and settings.

pub mod complexity;
pub mod ignore;
pub mod import_parser;
pub mod line_index;
pub mod tokenizer;
pub mod types;
