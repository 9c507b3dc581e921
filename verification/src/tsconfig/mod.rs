//! TypeScript configuration: path aliases, excludes and `extends`.

pub mod loader;
pub mod resolver;
pub mod types;
