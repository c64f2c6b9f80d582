//! Shared data types for the indexed graph.
//!
//! These structs are the lingua franca between the indexer (which produces
//! them), the graph store (which persists and queries them) and the pack/output
//! layers (which render them). Each has a view over mathematical values.

use crate::text::{ascii_lowercase, clone_opt, lower, opt_view, same, views};
use vstd::prelude::*;

verus! {

/// Source language of a file or symbol.
#[derive(Debug, Clone, Copy, PartialEq, Eq, Hash, Structural)]
pub enum Language {
    CSharp,
    Rust,
    Python,
    Go,
    JavaScript,
    TypeScript,
    Svelte,
    Bash,
    Yaml,
    Json,
    Markdown,
    /// Config/markup/data files we index but do not extract symbols from.
    Other,
}

impl Language {
    /// The canonical name.
    pub open spec fn name(self) -> Seq<char> {
        match self {
            Language::CSharp => "csharp"@,
            Language::Rust => "rust"@,
            Language::Python => "python"@,
            Language::Go => "go"@,
            Language::JavaScript => "javascript"@,
            Language::TypeScript => "typescript"@,
            Language::Svelte => "svelte"@,
            Language::Bash => "bash"@,
            Language::Yaml => "yaml"@,
            Language::Json => "json"@,
            Language::Markdown => "markdown"@,
            Language::Other => "other"@,
        }
    }

    /// What a (lowercase) name or alias stands for.
    pub open spec fn named(s: Seq<char>) -> Option<Language> {
        if s == "csharp"@ || s == "c#"@ || s == "cs"@ {
            Some(Language::CSharp)
        } else if s == "rust"@ || s == "rs"@ {
            Some(Language::Rust)
        } else if s == "python"@ || s == "py"@ {
            Some(Language::Python)
        } else if s == "go"@ {
            Some(Language::Go)
        } else if s == "javascript"@ || s == "js"@ {
            Some(Language::JavaScript)
        } else if s == "typescript"@ || s == "ts"@ {
            Some(Language::TypeScript)
        } else if s == "svelte"@ {
            Some(Language::Svelte)
        } else if s == "bash"@ || s == "sh"@ || s == "shell"@ {
            Some(Language::Bash)
        } else if s == "yaml"@ || s == "yml"@ {
            Some(Language::Yaml)
        } else if s == "json"@ {
            Some(Language::Json)
        } else if s == "markdown"@ || s == "md"@ {
            Some(Language::Markdown)
        } else if s == "other"@ {
            Some(Language::Other)
        } else {
            None
        }
    }

    /// Canonical lowercase name used in output and queries.
    pub fn as_str(self) -> (r: &'static str)
        ensures
            r@ == self.name(),
    {
        match self {
            Language::CSharp => "csharp",
            Language::Rust => "rust",
            Language::Python => "python",
            Language::Go => "go",
            Language::JavaScript => "javascript",
            Language::TypeScript => "typescript",
            Language::Svelte => "svelte",
            Language::Bash => "bash",
            Language::Yaml => "yaml",
            Language::Json => "json",
            Language::Markdown => "markdown",
            Language::Other => "other",
        }
    }

    /// Parse from a name or alias, in any case of ASCII letters.
    pub fn from_str_opt(s: &str) -> (r: Option<Language>)
        ensures
            r == Language::named(lower(s@)),
    {
        let t = ascii_lowercase(s);
        let t = t.as_str();
        if same(t, "csharp") || same(t, "c#") || same(t, "cs") {
            Some(Language::CSharp)
        } else if same(t, "rust") || same(t, "rs") {
            Some(Language::Rust)
        } else if same(t, "python") || same(t, "py") {
            Some(Language::Python)
        } else if same(t, "go") {
            Some(Language::Go)
        } else if same(t, "javascript") || same(t, "js") {
            Some(Language::JavaScript)
        } else if same(t, "typescript") || same(t, "ts") {
            Some(Language::TypeScript)
        } else if same(t, "svelte") {
            Some(Language::Svelte)
        } else if same(t, "bash") || same(t, "sh") || same(t, "shell") {
            Some(Language::Bash)
        } else if same(t, "yaml") || same(t, "yml") {
            Some(Language::Yaml)
        } else if same(t, "json") {
            Some(Language::Json)
        } else if same(t, "markdown") || same(t, "md") {
            Some(Language::Markdown)
        } else if same(t, "other") {
            Some(Language::Other)
        } else {
            None
        }
    }

    /// The fence hint of this language.
    pub open spec fn fence_name(self) -> Seq<char> {
        match self {
            Language::Other => "text"@,
            _ => self.name(),
        }
    }

    /// Markdown fence language hint for code blocks.
    pub fn fence(self) -> (r: &'static str)
        ensures
            r@ == self.fence_name(),
    {
        match self {
            Language::Other => "text",
            _ => self.as_str(),
        }
    }

}

/// Every canonical name parses back to what it names.
pub proof fn language_name_round_trips(x: Language)
    ensures
        Language::named(lower(x.name())) == Some(x),
{
    reveal_strlit("bash");
    reveal_strlit("c#");
    reveal_strlit("cs");
    reveal_strlit("csharp");
    reveal_strlit("go");
    reveal_strlit("javascript");
    reveal_strlit("js");
    reveal_strlit("json");
    reveal_strlit("markdown");
    reveal_strlit("md");
    reveal_strlit("other");
    reveal_strlit("py");
    reveal_strlit("python");
    reveal_strlit("rs");
    reveal_strlit("rust");
    reveal_strlit("sh");
    reveal_strlit("shell");
    reveal_strlit("svelte");
    reveal_strlit("ts");
    reveal_strlit("typescript");
    reveal_strlit("yaml");
    reveal_strlit("yml");
    assert(lower(x.name()) =~= x.name());
    match x {
        Language::CSharp => {},
        Language::Rust => {},
        Language::Python => {
            assert("python"@[0] != "csharp"@[0]);
        },
        Language::Go => {
            assert("go"@[0] != "c#"@[0]);
            assert("go"@[0] != "cs"@[0]);
            assert("go"@[0] != "rs"@[0]);
            assert("go"@[0] != "py"@[0]);
        },
        Language::JavaScript => {},
        Language::TypeScript => {
            assert("typescript"@[0] != "javascript"@[0]);
        },
        Language::Svelte => {
            assert("svelte"@[0] != "csharp"@[0]);
            assert("svelte"@[0] != "python"@[0]);
        },
        Language::Bash => {
            assert("bash"@[0] != "rust"@[0]);
        },
        Language::Yaml => {
            assert("yaml"@[0] != "rust"@[0]);
            assert("yaml"@[0] != "bash"@[0]);
        },
        Language::Json => {
            assert("json"@[0] != "rust"@[0]);
            assert("json"@[0] != "bash"@[0]);
            assert("json"@[0] != "yaml"@[0]);
        },
        Language::Markdown => {},
        Language::Other => {
            assert("other"@[0] != "shell"@[0]);
        },
    }
}

/// Kind of an extracted symbol. Kept as a small closed set so output and
/// ranking are deterministic across languages.
#[derive(Debug, Clone, Copy, PartialEq, Eq, Hash, Structural)]
pub enum SymbolKind {
    Class,
    Struct,
    Record,
    Interface,
    Trait,
    Enum,
    Function,
    Method,
    Module,
    TypeAlias,
    Component,
    Constructor,
    /// A top-level key in a data/config file (YAML/JSON) or a YAML anchor.
    Key,
}

impl SymbolKind {
    /// The canonical name.
    pub open spec fn name(self) -> Seq<char> {
        match self {
            SymbolKind::Class => "class"@,
            SymbolKind::Struct => "struct"@,
            SymbolKind::Record => "record"@,
            SymbolKind::Interface => "interface"@,
            SymbolKind::Trait => "trait"@,
            SymbolKind::Enum => "enum"@,
            SymbolKind::Function => "function"@,
            SymbolKind::Method => "method"@,
            SymbolKind::Module => "module"@,
            SymbolKind::TypeAlias => "type"@,
            SymbolKind::Component => "component"@,
            SymbolKind::Constructor => "constructor"@,
            SymbolKind::Key => "key"@,
        }
    }

    /// What a (lowercase) name or alias stands for.
    pub open spec fn named(s: Seq<char>) -> Option<SymbolKind> {
        if s == "class"@ {
            Some(SymbolKind::Class)
        } else if s == "struct"@ {
            Some(SymbolKind::Struct)
        } else if s == "record"@ {
            Some(SymbolKind::Record)
        } else if s == "interface"@ {
            Some(SymbolKind::Interface)
        } else if s == "trait"@ {
            Some(SymbolKind::Trait)
        } else if s == "enum"@ {
            Some(SymbolKind::Enum)
        } else if s == "function"@ || s == "func"@ || s == "fn"@ {
            Some(SymbolKind::Function)
        } else if s == "method"@ {
            Some(SymbolKind::Method)
        } else if s == "module"@ || s == "mod"@ {
            Some(SymbolKind::Module)
        } else if s == "type"@ || s == "typealias"@ {
            Some(SymbolKind::TypeAlias)
        } else if s == "component"@ {
            Some(SymbolKind::Component)
        } else if s == "constructor"@ || s == "ctor"@ {
            Some(SymbolKind::Constructor)
        } else if s == "key"@ {
            Some(SymbolKind::Key)
        } else {
            None
        }
    }

    /// Canonical lowercase name used in output and queries.
    pub fn as_str(self) -> (r: &'static str)
        ensures
            r@ == self.name(),
    {
        match self {
            SymbolKind::Class => "class",
            SymbolKind::Struct => "struct",
            SymbolKind::Record => "record",
            SymbolKind::Interface => "interface",
            SymbolKind::Trait => "trait",
            SymbolKind::Enum => "enum",
            SymbolKind::Function => "function",
            SymbolKind::Method => "method",
            SymbolKind::Module => "module",
            SymbolKind::TypeAlias => "type",
            SymbolKind::Component => "component",
            SymbolKind::Constructor => "constructor",
            SymbolKind::Key => "key",
        }
    }

    /// Parse from a name or alias, in any case of ASCII letters.
    pub fn from_str_opt(s: &str) -> (r: Option<SymbolKind>)
        ensures
            r == SymbolKind::named(lower(s@)),
    {
        let t = ascii_lowercase(s);
        let t = t.as_str();
        if same(t, "class") {
            Some(SymbolKind::Class)
        } else if same(t, "struct") {
            Some(SymbolKind::Struct)
        } else if same(t, "record") {
            Some(SymbolKind::Record)
        } else if same(t, "interface") {
            Some(SymbolKind::Interface)
        } else if same(t, "trait") {
            Some(SymbolKind::Trait)
        } else if same(t, "enum") {
            Some(SymbolKind::Enum)
        } else if same(t, "function") || same(t, "func") || same(t, "fn") {
            Some(SymbolKind::Function)
        } else if same(t, "method") {
            Some(SymbolKind::Method)
        } else if same(t, "module") || same(t, "mod") {
            Some(SymbolKind::Module)
        } else if same(t, "type") || same(t, "typealias") {
            Some(SymbolKind::TypeAlias)
        } else if same(t, "component") {
            Some(SymbolKind::Component)
        } else if same(t, "constructor") || same(t, "ctor") {
            Some(SymbolKind::Constructor)
        } else if same(t, "key") {
            Some(SymbolKind::Key)
        } else {
            None
        }
    }

}

/// Every canonical name parses back to what it names.
pub proof fn symbol_kind_name_round_trips(x: SymbolKind)
    ensures
        SymbolKind::named(lower(x.name())) == Some(x),
{
    reveal_strlit("class");
    reveal_strlit("component");
    reveal_strlit("constructor");
    reveal_strlit("ctor");
    reveal_strlit("enum");
    reveal_strlit("fn");
    reveal_strlit("func");
    reveal_strlit("function");
    reveal_strlit("interface");
    reveal_strlit("key");
    reveal_strlit("method");
    reveal_strlit("mod");
    reveal_strlit("module");
    reveal_strlit("record");
    reveal_strlit("struct");
    reveal_strlit("trait");
    reveal_strlit("type");
    reveal_strlit("typealias");
    assert(lower(x.name()) =~= x.name());
    match x {
        SymbolKind::Class => {},
        SymbolKind::Struct => {},
        SymbolKind::Record => {
            assert("record"@[0] != "struct"@[0]);
        },
        SymbolKind::Interface => {},
        SymbolKind::Trait => {
            assert("trait"@[0] != "class"@[0]);
        },
        SymbolKind::Enum => {},
        SymbolKind::Function => {},
        SymbolKind::Method => {
            assert("method"@[0] != "struct"@[0]);
            assert("method"@[0] != "record"@[0]);
        },
        SymbolKind::Module => {
            assert("module"@[0] != "struct"@[0]);
            assert("module"@[0] != "record"@[0]);
            assert("module"@[1] != "method"@[1]);
        },
        SymbolKind::TypeAlias => {
            assert("type"@[0] != "enum"@[0]);
            assert("type"@[0] != "func"@[0]);
        },
        SymbolKind::Component => {
            assert("component"@[0] != "interface"@[0]);
            assert("component"@[0] != "typealias"@[0]);
        },
        SymbolKind::Constructor => {},
        SymbolKind::Key => {
            assert("key"@[0] != "mod"@[0]);
        },
    }
}

/// A file recorded in the graph.
#[derive(Debug, PartialEq, Eq)]
pub struct IndexedFile {
    /// Deterministic id derived from the repo-relative path.
    pub id: String,
    /// Repo-relative path using forward slashes.
    pub path: String,
    pub language: Language,
    /// blake3 content hash (hex).
    pub hash: String,
    pub size_bytes: u64,
    /// Whether git tracks this file.
    pub git_tracked: bool,
    /// RFC3339 timestamp of last index.
    pub last_indexed_at: String,
}

/// What `IndexedFile` says, as mathematical values.
pub struct FileView {
    pub id: Seq<char>,
    pub path: Seq<char>,
    pub language: Language,
    pub hash: Seq<char>,
    pub size_bytes: u64,
    pub git_tracked: bool,
    pub last_indexed_at: Seq<char>,
}

impl View for IndexedFile {
    type V = FileView;

    open spec fn view(&self) -> FileView {
        FileView {
            id: self.id@,
            path: self.path@,
            language: self.language,
            hash: self.hash@,
            size_bytes: self.size_bytes,
            git_tracked: self.git_tracked,
            last_indexed_at: self.last_indexed_at@,
        }
    }
}

impl Clone for IndexedFile {
    fn clone(&self) -> (r: Self)
        ensures
            r@ == self@,
    {
        IndexedFile {
            id: self.id.clone(),
            path: self.path.clone(),
            language: self.language,
            hash: self.hash.clone(),
            size_bytes: self.size_bytes,
            git_tracked: self.git_tracked,
            last_indexed_at: self.last_indexed_at.clone(),
        }
    }
}

/// A symbol declared within a file.
#[derive(Debug, PartialEq, Eq)]
pub struct IndexedSymbol {
    /// Deterministic id derived from `path#kind#name#start_line`.
    pub id: String,
    pub name: String,
    /// Fully-qualified name where cheaply available, else equal to `name`.
    pub full_name: String,
    pub kind: SymbolKind,
    pub language: Language,
    pub file_path: String,
    pub start_line: u32,
    pub end_line: u32,
    /// e.g. "public", "private", "" when unknown.
    pub visibility: String,
    /// Whether the symbol is exported/public (JS/TS export, Rust `pub`, etc.).
    pub exported: bool,
}

/// What `IndexedSymbol` says, as mathematical values.
pub struct SymbolView {
    pub id: Seq<char>,
    pub name: Seq<char>,
    pub full_name: Seq<char>,
    pub kind: SymbolKind,
    pub language: Language,
    pub file_path: Seq<char>,
    pub start_line: u32,
    pub end_line: u32,
    pub visibility: Seq<char>,
    pub exported: bool,
}

impl View for IndexedSymbol {
    type V = SymbolView;

    open spec fn view(&self) -> SymbolView {
        SymbolView {
            id: self.id@,
            name: self.name@,
            full_name: self.full_name@,
            kind: self.kind,
            language: self.language,
            file_path: self.file_path@,
            start_line: self.start_line,
            end_line: self.end_line,
            visibility: self.visibility@,
            exported: self.exported,
        }
    }
}

impl Clone for IndexedSymbol {
    fn clone(&self) -> (r: Self)
        ensures
            r@ == self@,
    {
        IndexedSymbol {
            id: self.id.clone(),
            name: self.name.clone(),
            full_name: self.full_name.clone(),
            kind: self.kind,
            language: self.language,
            file_path: self.file_path.clone(),
            start_line: self.start_line,
            end_line: self.end_line,
            visibility: self.visibility.clone(),
            exported: self.exported,
        }
    }
}

/// A buildable project (e.g. a `.csproj` or a JS/TS `package.json` workspace).
#[derive(Debug, PartialEq, Eq)]
pub struct IndexedProject {
    pub id: String,
    pub name: String,
    /// Repo-relative path of the project manifest.
    pub path: String,
    pub language: Language,
    /// e.g. "dotnet", "node".
    pub kind: String,
}

/// What `IndexedProject` says, as mathematical values.
pub struct ProjectView {
    pub id: Seq<char>,
    pub name: Seq<char>,
    pub path: Seq<char>,
    pub language: Language,
    pub kind: Seq<char>,
}

impl View for IndexedProject {
    type V = ProjectView;

    open spec fn view(&self) -> ProjectView {
        ProjectView {
            id: self.id@,
            name: self.name@,
            path: self.path@,
            language: self.language,
            kind: self.kind@,
        }
    }
}

impl Clone for IndexedProject {
    fn clone(&self) -> (r: Self)
        ensures
            r@ == self@,
    {
        IndexedProject {
            id: self.id.clone(),
            name: self.name.clone(),
            path: self.path.clone(),
            language: self.language,
            kind: self.kind.clone(),
        }
    }
}

/// An external package dependency.
#[derive(Debug, PartialEq, Eq)]
pub struct IndexedPackage {
    pub id: String,
    pub name: String,
    pub version: String,
    /// e.g. "nuget", "npm".
    pub ecosystem: String,
    /// e.g. "dependency", "devDependency", "peerDependency", "package".
    pub dependency_kind: String,
}

/// What `IndexedPackage` says, as mathematical values.
pub struct PackageView {
    pub id: Seq<char>,
    pub name: Seq<char>,
    pub version: Seq<char>,
    pub ecosystem: Seq<char>,
    pub dependency_kind: Seq<char>,
}

impl View for IndexedPackage {
    type V = PackageView;

    open spec fn view(&self) -> PackageView {
        PackageView {
            id: self.id@,
            name: self.name@,
            version: self.version@,
            ecosystem: self.ecosystem@,
            dependency_kind: self.dependency_kind@,
        }
    }
}

impl Clone for IndexedPackage {
    fn clone(&self) -> (r: Self)
        ensures
            r@ == self@,
    {
        IndexedPackage {
            id: self.id.clone(),
            name: self.name.clone(),
            version: self.version.clone(),
            ecosystem: self.ecosystem.clone(),
            dependency_kind: self.dependency_kind.clone(),
        }
    }
}

/// Search filter for symbols.
#[derive(Debug)]
pub struct SymbolSearchQuery {
    /// Case-insensitive substring match against symbol name. `None` = any.
    pub name: Option<String>,
    pub kind: Option<SymbolKind>,
    pub language: Option<Language>,
    /// Exact repo-relative file path.
    pub file: Option<String>,
}

/// What `SymbolSearchQuery` says, as mathematical values.
pub struct SymbolQueryView {
    pub name: Option<Seq<char>>,
    pub kind: Option<SymbolKind>,
    pub language: Option<Language>,
    pub file: Option<Seq<char>>,
}

impl View for SymbolSearchQuery {
    type V = SymbolQueryView;

    open spec fn view(&self) -> SymbolQueryView {
        SymbolQueryView {
            name: opt_view(self.name),
            kind: self.kind,
            language: self.language,
            file: opt_view(self.file),
        }
    }
}

impl Clone for SymbolSearchQuery {
    fn clone(&self) -> (r: Self)
        ensures
            r@ == self@,
    {
        SymbolSearchQuery {
            name: clone_opt(&self.name),
            kind: self.kind,
            language: self.language,
            file: clone_opt(&self.file),
        }
    }
}

/// Search filter for files.
#[derive(Debug)]
pub struct FileSearchQuery {
    /// Case-insensitive substring match against path. `None` = any.
    pub path_contains: Option<String>,
    pub language: Option<Language>,
}

/// What `FileSearchQuery` says, as mathematical values.
pub struct FileQueryView {
    pub path_contains: Option<Seq<char>>,
    pub language: Option<Language>,
}

impl View for FileSearchQuery {
    type V = FileQueryView;

    open spec fn view(&self) -> FileQueryView {
        FileQueryView {
            path_contains: opt_view(self.path_contains),
            language: self.language,
        }
    }
}

impl Clone for FileSearchQuery {
    fn clone(&self) -> (r: Self)
        ensures
            r@ == self@,
    {
        FileSearchQuery {
            path_contains: clone_opt(&self.path_contains),
            language: self.language,
        }
    }
}

impl Default for SymbolSearchQuery {
    fn default() -> (r: Self)
        ensures
            r@ == (SymbolQueryView { name: None, kind: None, language: None, file: None }),
    {
        SymbolSearchQuery { name: None, kind: None, language: None, file: None }
    }
}

impl Default for FileSearchQuery {
    fn default() -> (r: Self)
        ensures
            r@ == (FileQueryView { path_contains: None, language: None }),
    {
        FileSearchQuery { path_contains: None, language: None }
    }
}

/// An item discovered as related to a starting symbol or file.
#[derive(Debug, PartialEq, Eq)]
pub struct RelatedItem {
    /// Repo-relative path of the related file.
    pub path: String,
    /// Human-readable reason this item was selected.
    pub reason: String,
    /// Graph distance from the seed (0 = the seed file itself).
    pub depth: usize,
}

/// What `RelatedItem` says, as mathematical values.
pub struct RelatedView {
    pub path: Seq<char>,
    pub reason: Seq<char>,
    pub depth: usize,
}

impl View for RelatedItem {
    type V = RelatedView;

    open spec fn view(&self) -> RelatedView {
        RelatedView {
            path: self.path@,
            reason: self.reason@,
            depth: self.depth,
        }
    }
}

impl Clone for RelatedItem {
    fn clone(&self) -> (r: Self)
        ensures
            r@ == self@,
    {
        RelatedItem {
            path: self.path.clone(),
            reason: self.reason.clone(),
            depth: self.depth,
        }
    }
}

/// Aggregate counts for `status`/`index --stats`.
#[derive(Debug, Clone, Copy, PartialEq, Eq, Structural)]
pub struct IndexStats {
    pub files: usize,
    pub symbols: usize,
    pub projects: usize,
    pub packages: usize,
    /// project/package relationship edge count.
    pub edges: usize,
    /// symbol reference edge count.
    pub reference_edges: usize,
}

impl Default for IndexStats {
    fn default() -> (r: Self)
        ensures
            r == (IndexStats { files: 0, symbols: 0, projects: 0, packages: 0, edges: 0, reference_edges: 0 }),
    {
        IndexStats { files: 0, symbols: 0, projects: 0, packages: 0, edges: 0, reference_edges: 0 }
    }
}

/// A relationship edge for batch writes.
#[derive(Debug, PartialEq, Eq)]
pub enum GraphEdge {
    SymbolReferences { from: String, to: String },
    SymbolInherits { from: String, to: String },
    SymbolImplements { from: String, to: String },
    FileImportsPackage { file: String, package: String },
    ProjectContainsFile { project: String, file: String },
}

/// One file's (re)index writes: the file and every symbol it declares.
#[derive(Debug)]
pub struct FileWrite {
    pub file: IndexedFile,
    pub symbols: Vec<IndexedSymbol>,
}

/// What `FileWrite` says, as mathematical values.
pub struct FileWriteView {
    pub file: FileView,
    pub symbols: Seq<SymbolView>,
}

impl View for FileWrite {
    type V = FileWriteView;

    open spec fn view(&self) -> FileWriteView {
        FileWriteView { file: self.file@, symbols: views(self.symbols@) }
    }
}

} // verus!
