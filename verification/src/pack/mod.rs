//! Context-pack generation: select relevant files from the graph, fit them to a
//! token budget, and render portable Markdown or JSON. The graph is used purely
//! for *selection*; the emitted pack is boring and self-contained.

pub mod assemble;
pub mod budget;
pub mod json;
pub mod laws;
pub mod markdown;
pub mod related;
pub mod related_laws;
pub mod render_laws;
pub mod request;
pub mod selection_laws;
pub mod selector;
pub mod symbols;

pub use assemble::{build_pack, PackResult};
pub use request::{PackFormat, PackMode, PackRequest, SelectedFile, SelectedView};
