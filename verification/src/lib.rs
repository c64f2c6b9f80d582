//! The core of synapse, a deterministic and offline compiler of repository context.
//!
//! A repository is indexed into a graph ([`indexer`], [`graph`]), relevant files are
//! selected from it, ranked and fitted to a token budget ([`pack`]), and the graph
//! can be shown ([`explore`]) and shared ([`share`]). [`commands`] decides what the
//! command line does and prints. Reading files, running other programs and talking
//! to a database or a registry happen outside: the functions here take what was
//! read and return what is to be done.

pub mod cli;
pub mod commands;
pub mod config;
pub mod errors;
pub mod explore;
pub mod git;
pub mod globs;
pub mod graph;
pub mod hashing;
pub mod indexer;
pub mod json;
pub mod lists;
pub mod output;
pub mod pack;
pub mod paths;
pub mod repo;
pub mod repo_laws;
pub mod share;
pub mod share_laws;
pub mod sorting;
pub mod text;
pub mod text_laws;
