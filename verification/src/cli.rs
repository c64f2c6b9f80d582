//! The arguments of the command line, as plain values.

use vstd::prelude::*;

verus! {

/// SimCube Synapse — a deterministic local repository context compiler.
#[derive(Debug)]
pub struct Cli {
    pub command: Command,
}

/// The commands.
#[derive(Debug)]
pub enum Command {
    /// Create local config and storage directories.
    Init(InitArgs),
    /// Index the current repository into the graph.
    Index(IndexArgs),
    /// Show whether the index is ready or stale.
    Status(StatusArgs),
    /// Search/list indexed symbols.
    Symbols(SymbolsArgs),
    /// Find files related to a symbol or file.
    Related(RelatedArgs),
    /// List indexed projects and their package dependencies.
    Packages(PackagesArgs),
    /// Emit a compact Markdown context pack for an LLM.
    Pack(PackArgs),
    /// Launch Ladybug Explorer (Docker) to visualize the indexed graph.
    Explore(ExploreArgs),
    /// Push the indexed graph to a registry.
    Push(PushArgs),
    /// Pull a shared graph from a registry.
    Pull(PullArgs),
    /// Remove cached/index/pack data.
    Clean(CleanArgs),
}

#[derive(Debug)]
pub struct InitArgs {
    /// Overwrite an existing config.
    pub force: bool,
    /// Set the repository name in the new config.
    pub name: Option<String>,
}

#[derive(Debug)]
pub struct IndexArgs {
    /// Re-index every file, ignoring content hashes.
    pub force: bool,
    /// Only index files git reports as changed.
    pub changed: bool,
    /// Print detailed statistics after indexing.
    pub stats: bool,
    /// Suppress the progress bar (also auto-disabled when stderr isn't a TTY).
    pub quiet: bool,
}

#[derive(Debug)]
pub struct StatusArgs {
    /// Emit machine-readable JSON.
    pub json: bool,
    /// List the stale files instead of a summary.
    pub stale: bool,
}

#[derive(Debug)]
pub struct SymbolsArgs {
    /// Case-insensitive substring to match against symbol names.
    pub query: Option<String>,
    /// Filter by symbol kind (e.g. class, function, component).
    pub kind: Option<String>,
    /// Filter to a specific repo-relative file path.
    pub file: Option<String>,
    /// Filter by language (e.g. csharp, typescript).
    pub language: Option<String>,
    /// Emit machine-readable JSON.
    pub json: bool,
}

#[derive(Debug)]
pub struct RelatedArgs {
    /// Start from this symbol name.
    pub symbol: Option<String>,
    /// Start from this repo-relative file path.
    pub file: Option<String>,
    /// Maximum graph/heuristic depth to explore.
    pub depth: usize,
    /// Emit machine-readable JSON.
    pub json: bool,
}

#[derive(Debug)]
pub struct PackagesArgs {
    /// Case-insensitive substring to match against package/project names.
    pub query: Option<String>,
    /// Filter by ecosystem (e.g. nuget, npm).
    pub ecosystem: Option<String>,
    /// List projects instead of packages.
    pub projects: bool,
    /// List the files that import the named package (impact analysis).
    pub importers: Option<String>,
    /// Emit machine-readable JSON.
    pub json: bool,
}

#[derive(Debug)]
pub struct PackArgs {
    /// Take files git reports as changed.
    pub changed: bool,
    /// Take files under this path.
    pub path: Option<String>,
    /// Centre the pack on this symbol plus related files.
    pub symbol: Option<String>,
    /// Case-insensitive text query across paths and symbols.
    pub query: Option<String>,
    /// Approximate token budget (chars / 4).
    pub budget: Option<usize>,
    /// Relation depth when expanding from a symbol/path.
    pub depth: usize,
    /// Write the pack to this file instead of stdout.
    pub output: Option<String>,
    /// Output format: `markdown` (default) or `json`.
    pub format: Option<String>,
    /// Take likely test files too.
    pub include_tests: bool,
    /// Take config/registration files too.
    pub include_config: bool,
    /// Add a git diff section.
    pub include_diff: bool,
    /// Show the selection summary without writing file contents.
    pub dry_run: bool,
    /// Print the ranking reasons for each selected file.
    pub explain: bool,
}

#[derive(Debug)]
pub struct ExploreArgs {
    /// Host port to expose Ladybug Explorer on.
    pub port: u16,
    /// Allow Explorer to modify the index (default is read-only).
    pub read_write: bool,
    /// Run the container detached (in the background) instead of foreground.
    pub detach: bool,
    /// Launch with an empty in-memory database instead of the indexed graph.
    pub in_memory: bool,
    /// Explorer image (without tag).
    pub image: String,
    /// Explorer image tag (e.g. `latest`, `dev`).
    pub tag: String,
    /// Print the `docker run` command instead of executing it.
    pub print: bool,
}

#[derive(Debug)]
pub struct PushArgs {
    /// Registry to push to, instead of the configured one.
    pub registry: Option<String>,
    /// Repository to push to, instead of the configured one.
    pub repository: Option<String>,
    /// Tag to push, instead of the short commit.
    pub tag: Option<String>,
    /// Push although the working tree has uncommitted changes.
    pub allow_dirty: bool,
    /// Push without asking for confirmation.
    pub yes: bool,
}

#[derive(Debug)]
pub struct PullArgs {
    /// Registry to pull from, instead of the configured one.
    pub registry: Option<String>,
    /// Repository to pull from, instead of the configured one.
    pub repository: Option<String>,
    /// Tag to pull, instead of the moving tag.
    pub tag: Option<String>,
}

#[derive(Debug)]
pub struct CleanArgs {
    /// Remove the cache directory.
    pub cache: bool,
    /// Remove the graph/index directory.
    pub index: bool,
    /// Remove generated packs.
    pub packs: bool,
    /// Remove cache, index and packs.
    pub all: bool,
}

} // verus!
