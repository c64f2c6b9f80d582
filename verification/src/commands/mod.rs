//! What the commands decide and print, apart from reading files and running other
//! programs.

pub mod laws;
pub mod listing;
pub mod numbers;
pub mod requests;
pub mod status;
pub mod workspace;
