//! Rendering for the terminal.

pub mod table;
pub mod table_laws;
