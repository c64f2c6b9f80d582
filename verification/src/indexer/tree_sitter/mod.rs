//! Extraction of symbols, imports, supertypes and references from source files.
//!
//! For each supported language a small set of queries and tree walks find the
//! definitions, which are then mapped into graph facts. Extraction is best-effort:
//! a text that cannot be parsed yields an empty result rather than aborting the
//! whole index. Output is sorted and de-duplicated for determinism.

pub mod common;
pub mod data;
pub mod extract;
pub mod import_laws;
pub mod imports;
pub mod laws;
pub mod reference_laws;
pub mod references;
pub mod script;
pub mod supertype_laws;
pub mod supertypes;
pub mod symbol_laws;
pub mod symbols;

pub use crate::indexer::facts::{Reference, SuperHint, Supertype};
pub use extract::extract;
pub use imports::extract_imports;
pub use references::extract_references;
pub use supertypes::extract_supertypes;
