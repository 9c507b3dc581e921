//! Stand-ins for the terminal styling, progress and table crates, used where
//! the library is built without its command-line front end: every operation
//! leaves its value as it was.

pub mod comfy_table;
pub mod console;
pub mod indicatif;
