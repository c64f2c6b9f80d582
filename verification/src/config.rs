//! The configuration of a Synapse workspace (`.synapse/synapse.toml`).
//!
//! The struct shape mirrors the documented default config exactly.

use crate::graph::model::Language;
use crate::paths::{join_path, joined};
use crate::text::views;
use vstd::prelude::*;

verus! {

/// Directory name for all Synapse state, relative to the repo root.
pub const SYNAPSE_DIR: &'static str = ".synapse";

/// Config file name within [`SYNAPSE_DIR`].
pub const CONFIG_FILE: &'static str = "synapse.toml";

#[derive(Debug, PartialEq, Eq)]
pub struct SynapseConfig {
    pub repo: RepoConfig,
    pub index: IndexConfig,
    pub graph: GraphConfig,
    pub pack: PackConfig,
    pub share: ShareConfig,
}

#[derive(Debug, PartialEq, Eq)]
pub struct RepoConfig {
    pub name: String,
    pub root: String,
}

#[derive(Debug, PartialEq, Eq)]
pub struct IndexConfig {
    /// Globs of the files to index.
    pub includes: Vec<String>,
    /// Globs of the files to leave out; these win.
    pub excludes: Vec<String>,
    pub languages: LanguageToggles,
}

#[derive(Debug, Clone, Copy, PartialEq, Eq)]
pub struct LanguageToggles {
    pub csharp: bool,
    pub rust: bool,
    pub python: bool,
    pub go: bool,
    pub javascript: bool,
    pub typescript: bool,
    pub svelte: bool,
    pub bash: bool,
    pub yaml: bool,
    pub json: bool,
    pub markdown: bool,
}

#[derive(Debug, PartialEq, Eq)]
pub struct GraphConfig {
    pub backend: String,
    pub path: String,
}

#[derive(Debug, PartialEq, Eq)]
pub struct PackConfig {
    pub default_budget: usize,
    pub default_format: String,
    pub include_selection_reasons: bool,
}

/// Sharing the indexed graph via an OCI registry (`synapse push` / `pull`).
///
/// Push is OFF by default (`push_enabled = false`) — it must be explicitly
/// enabled, and even then requires interactive confirmation and a clean tree.
/// Credentials are never stored here: they are discovered from the existing
/// docker login (`~/.docker/config.json` + credential helpers).
#[derive(Debug, PartialEq, Eq)]
pub struct ShareConfig {
    /// Registry host[:port], e.g. "ghcr.io". Empty = sharing not configured.
    pub registry: String,
    /// Repository path within the registry, e.g. "myorg/myrepo-synapse-graph".
    /// Empty = sharing not configured.
    pub repository: String,
    /// Moving tag updated on every push alongside the per-commit tag.
    pub moving_tag: String,
    /// MUST be true for `synapse push` to be permitted at all.
    pub push_enabled: bool,
    /// Transport: "https" (default) or "http" (plaintext; dev/local only).
    pub protocol: String,
    /// Credential strategy: "auto" (env -> docker creds -> anonymous),
    /// "docker", "env", or "anonymous".
    pub auth: String,
}

/// Sharing as it stands unless configured: pull only.
pub open spec fn is_default_share(c: ShareConfig) -> bool {
    &&& c.registry@ == ""@
    &&& c.repository@ == ""@
    &&& c.moving_tag@ == "latest"@
    &&& !c.push_enabled
    &&& c.protocol@ == "https"@
    &&& c.auth@ == "auto"@
}

impl Default for ShareConfig {
    fn default() -> (r: Self)
        ensures
            is_default_share(r),
    {
        ShareConfig {
            registry: "".to_owned(),
            repository: "".to_owned(),
            moving_tag: "latest".to_owned(),
            push_enabled: false,
            protocol: "https".to_owned(),
            auth: "auto".to_owned(),
        }
    }
}

/// The documented default config.
pub open spec fn is_default_config(c: SynapseConfig) -> bool {
    &&& c.repo.name@ == ""@
    &&& c.repo.root@ == "."@
    &&& views(c.index.includes@) == default_includes_text()
    &&& views(c.index.excludes@) == default_excludes_text()
    &&& forall|l: Language| l != Language::Other ==> #[trigger] enabled(c.index.languages, l)
    &&& c.graph.backend@ == "ladybug"@
    &&& c.graph.path@ == ".synapse/graph"@
    &&& c.pack.default_budget == 40000
    &&& c.pack.default_format@ == "markdown"@
    &&& c.pack.include_selection_reasons
    &&& is_default_share(c.share)
}

impl Default for SynapseConfig {
    fn default() -> (r: Self)
        ensures
            is_default_config(r),
    {
        SynapseConfig {
            repo: RepoConfig { name: "".to_owned(), root: ".".to_owned() },
            index: IndexConfig {
                includes: default_includes(),
                excludes: default_excludes(),
                languages: LanguageToggles {
                    csharp: true,
                    rust: true,
                    python: true,
                    go: true,
                    javascript: true,
                    typescript: true,
                    svelte: true,
                    bash: true,
                    yaml: true,
                    json: true,
                    markdown: true,
                },
            },
            graph: GraphConfig { backend: "ladybug".to_owned(), path: ".synapse/graph".to_owned() },
            pack: PackConfig {
                default_budget: 40000,
                default_format: "markdown".to_owned(),
                include_selection_reasons: true,
            },
            share: ShareConfig::default(),
        }
    }
}

/// The globs indexed by default.
pub open spec fn default_includes_text() -> Seq<Seq<char>> {
    seq![
        "**/*.cs"@,
        "**/*.rs"@,
        "**/*.py"@,
        "**/*.go"@,
        "**/*.js"@,
        "**/*.jsx"@,
        "**/*.ts"@,
        "**/*.tsx"@,
        "**/*.mjs"@,
        "**/*.cjs"@,
        "**/*.svelte"@,
        "**/*.sh"@,
        "**/*.bash"@,
        "**/*.zsh"@,
        "**/*.md"@,
        "**/*.markdown"@,
        "**/*.mdx"@,
        "**/*.sln"@,
        "**/*.csproj"@,
        "**/*.props"@,
        "**/*.targets"@,
        "**/*.yml"@,
        "**/*.yaml"@,
        "**/*.json"@,
        "**/*.toml"@,
        "**/package.json"@,
        "**/pnpm-lock.yaml"@,
        "**/yarn.lock"@,
        "**/package-lock.json"@,
    ]
}

pub fn default_includes() -> (r: Vec<String>)
    ensures
        views(r@) == default_includes_text(),
{
    let mut out: Vec<String> = Vec::new();
    out.push("**/*.cs".to_owned());
    out.push("**/*.rs".to_owned());
    out.push("**/*.py".to_owned());
    out.push("**/*.go".to_owned());
    out.push("**/*.js".to_owned());
    out.push("**/*.jsx".to_owned());
    out.push("**/*.ts".to_owned());
    out.push("**/*.tsx".to_owned());
    out.push("**/*.mjs".to_owned());
    out.push("**/*.cjs".to_owned());
    out.push("**/*.svelte".to_owned());
    out.push("**/*.sh".to_owned());
    out.push("**/*.bash".to_owned());
    out.push("**/*.zsh".to_owned());
    out.push("**/*.md".to_owned());
    out.push("**/*.markdown".to_owned());
    out.push("**/*.mdx".to_owned());
    out.push("**/*.sln".to_owned());
    out.push("**/*.csproj".to_owned());
    out.push("**/*.props".to_owned());
    out.push("**/*.targets".to_owned());
    out.push("**/*.yml".to_owned());
    out.push("**/*.yaml".to_owned());
    out.push("**/*.json".to_owned());
    out.push("**/*.toml".to_owned());
    out.push("**/package.json".to_owned());
    out.push("**/pnpm-lock.yaml".to_owned());
    out.push("**/yarn.lock".to_owned());
    out.push("**/package-lock.json".to_owned());
    assert(views(out@) =~= default_includes_text());
    out
}

/// The globs left out by default.
pub open spec fn default_excludes_text() -> Seq<Seq<char>> {
    seq![
        "**/bin/**"@,
        "**/obj/**"@,
        "**/node_modules/**"@,
        "**/target/**"@,
        "**/dist/**"@,
        "**/build/**"@,
        "**/coverage/**"@,
        "**/.git/**"@,
        "**/.next/**"@,
        "**/.turbo/**"@,
        "**/.vite/**"@,
        "**/*.Designer.cs"@,
        "**/*.g.cs"@,
        "**/*.generated.cs"@,
        "**/*.min.js"@,
        "**/*.bundle.js"@,
        "**/*.map"@,
    ]
}

pub fn default_excludes() -> (r: Vec<String>)
    ensures
        views(r@) == default_excludes_text(),
{
    let mut out: Vec<String> = Vec::new();
    out.push("**/bin/**".to_owned());
    out.push("**/obj/**".to_owned());
    out.push("**/node_modules/**".to_owned());
    out.push("**/target/**".to_owned());
    out.push("**/dist/**".to_owned());
    out.push("**/build/**".to_owned());
    out.push("**/coverage/**".to_owned());
    out.push("**/.git/**".to_owned());
    out.push("**/.next/**".to_owned());
    out.push("**/.turbo/**".to_owned());
    out.push("**/.vite/**".to_owned());
    out.push("**/*.Designer.cs".to_owned());
    out.push("**/*.g.cs".to_owned());
    out.push("**/*.generated.cs".to_owned());
    out.push("**/*.min.js".to_owned());
    out.push("**/*.bundle.js".to_owned());
    out.push("**/*.map".to_owned());
    assert(views(out@) =~= default_excludes_text());
    out
}

/// Whether symbols of a language are extracted.
pub open spec fn enabled(l: LanguageToggles, lang: Language) -> bool {
    match lang {
        Language::CSharp => l.csharp,
        Language::Rust => l.rust,
        Language::Python => l.python,
        Language::Go => l.go,
        Language::JavaScript => l.javascript,
        Language::TypeScript => l.typescript,
        Language::Svelte => l.svelte,
        Language::Bash => l.bash,
        Language::Yaml => l.yaml,
        Language::Json => l.json,
        Language::Markdown => l.markdown,
        Language::Other => false,
    }
}

/// Whether symbols of a language are extracted.
pub fn language_enabled(l: &LanguageToggles, lang: Language) -> (r: bool)
    ensures
        r == enabled(*l, lang),
{
    match lang {
        Language::CSharp => l.csharp,
        Language::Rust => l.rust,
        Language::Python => l.python,
        Language::Go => l.go,
        Language::JavaScript => l.javascript,
        Language::TypeScript => l.typescript,
        Language::Svelte => l.svelte,
        Language::Bash => l.bash,
        Language::Yaml => l.yaml,
        Language::Json => l.json,
        Language::Markdown => l.markdown,
        Language::Other => false,
    }
}

/// Path to the config file given a repo root.
pub fn config_path(root: &str) -> (r: String)
    ensures
        r@ == join_path(join_path(root@, SYNAPSE_DIR@), CONFIG_FILE@),
{
    let dir = synapse_dir(root);
    joined(dir.as_str(), CONFIG_FILE)
}

/// Path to the `.synapse` directory for a repo root.
pub fn synapse_dir(root: &str) -> (r: String)
    ensures
        r@ == join_path(root@, SYNAPSE_DIR@),
{
    joined(root, SYNAPSE_DIR)
}

} // verus!
