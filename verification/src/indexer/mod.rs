//! The indexer: turns repository files into graph facts.

pub mod dotnet;
pub mod dotnet_laws;
pub mod facts;
pub mod ids;
pub mod index;
pub mod language_laws;
pub mod languages;
pub mod laws;
pub mod manifest_laws;
pub mod manifests;
pub mod node;
pub mod resolve;
pub mod resolve_laws;
pub mod run_laws;
pub mod span_laws;
pub mod symbol_laws;
pub mod syntax;
pub mod tree;
pub mod tree_laws;
pub mod tree_sitter;
pub mod work;
pub mod xml;

pub use index::{index_repo, IndexOutcome, IndexProgress};
pub use ids::{file_id, package_id, project_id, symbol_id};
