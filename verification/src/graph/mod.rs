//! Graph model, the [`store::GraphStore`] contract, the in-memory store, and what a
//! store says to a Cypher database.

pub mod batch_laws;
pub mod cypher;
pub mod cypher_laws;
pub mod edge_laws;
pub mod laws;
pub mod memory_store;
pub mod model;
pub mod query_laws;
pub mod removal_laws;
pub mod store;

pub use store::GraphStore;
