//! Language detection and path heuristics: tests, config files, generated files,
//! lockfiles.

use crate::graph::model::Language;
use crate::paths::{extension, extension_of};
use crate::text::{
    after_last, ascii_lowercase, before_first, contains, ends_with, has, lower, same, starts_with, text_after_last,
    text_before_first,
};
use vstd::prelude::*;

verus! {

/// The language that a (lowercase) file extension stands for.
pub open spec fn language_of_extension(ext: Seq<char>) -> Language {
    if ext == "cs"@ {
        Language::CSharp
    } else if ext == "rs"@ {
        Language::Rust
    } else if ext == "py"@ || ext == "pyi"@ {
        Language::Python
    } else if ext == "go"@ {
        Language::Go
    } else if ext == "js"@ || ext == "jsx"@ || ext == "mjs"@ || ext == "cjs"@ {
        Language::JavaScript
    } else if ext == "ts"@ || ext == "tsx"@ {
        Language::TypeScript
    } else if ext == "svelte"@ {
        Language::Svelte
    } else if ext == "sh"@ || ext == "bash"@ || ext == "zsh"@ {
        Language::Bash
    } else if ext == "yml"@ || ext == "yaml"@ {
        Language::Yaml
    } else if ext == "json"@ {
        Language::Json
    } else if ext == "md"@ || ext == "markdown"@ || ext == "mdx"@ {
        Language::Markdown
    } else {
        Language::Other
    }
}

/// The language of a path: that of its extension, in any case of ASCII letters.
pub open spec fn language_of(path: Seq<char>) -> Language {
    match extension_of(lower(path)) {
        Some(e) => language_of_extension(e),
        None => Language::Other,
    }
}

/// Detect a [`Language`] from a repo-relative path's extension.
///
/// Returns [`Language::Other`] for indexable-but-not-parsed files (config,
/// data, manifests).
pub fn detect(path: &str) -> (r: Language)
    ensures
        r == language_of(path@),
{
    let l = ascii_lowercase(path);
    let e = match extension(l.as_str()) {
        Some(e) => e,
        None => {
            return Language::Other;
        },
    };
    let e = e.as_str();
    if same(e, "cs") {
        Language::CSharp
    } else if same(e, "rs") {
        Language::Rust
    } else if same(e, "py") || same(e, "pyi") {
        Language::Python
    } else if same(e, "go") {
        Language::Go
    } else if same(e, "js") || same(e, "jsx") || same(e, "mjs") || same(e, "cjs") {
        Language::JavaScript
    } else if same(e, "ts") || same(e, "tsx") {
        Language::TypeScript
    } else if same(e, "svelte") {
        Language::Svelte
    } else if same(e, "sh") || same(e, "bash") || same(e, "zsh") {
        Language::Bash
    } else if same(e, "yml") || same(e, "yaml") {
        Language::Yaml
    } else if same(e, "json") {
        Language::Json
    } else if same(e, "md") || same(e, "markdown") || same(e, "mdx") {
        Language::Markdown
    } else {
        Language::Other
    }
}

/// The lowercase file name of a path.
pub open spec fn lower_name(path: Seq<char>) -> Seq<char> {
    after_last(lower(path), '/')
}

fn name_in_lower(path: &str) -> (r: String)
    ensures
        r@ == lower_name(path@),
{
    let l = ascii_lowercase(path);
    text_after_last(l.as_str(), '/')
}

/// The routing role that SvelteKit gives a file.
pub open spec fn route_role(path: Seq<char>) -> Option<Seq<char>> {
    let stem = before_first(lower(after_last(path, '/')), '.');
    if stem == "+page"@ {
        Some("page"@)
    } else if stem == "+layout"@ {
        Some("layout"@)
    } else if stem == "+server"@ {
        Some("endpoint"@)
    } else if stem == "+error"@ {
        Some("error"@)
    } else {
        None
    }
}

/// SvelteKit filesystem-routing role for a `.svelte`/route file, if recognised.
///
/// SvelteKit gives special meaning to files named `+page`, `+layout`, `+server`,
/// `+error`, and their `.server`/`.ts` variants.
pub fn sveltekit_route_role(path: &str) -> (r: Option<&'static str>)
    ensures
        r is Some == route_role(path@) is Some,
        r matches Some(s) ==> route_role(path@) == Some(s@),
{
    let name = text_after_last(path, '/');
    let name = ascii_lowercase(name.as_str());
    let stem = text_before_first(name.as_str(), '.');
    let stem = stem.as_str();
    if same(stem, "+page") {
        Some("page")
    } else if same(stem, "+layout") {
        Some("layout")
    } else if same(stem, "+server") {
        Some("endpoint")
    } else if same(stem, "+error") {
        Some("error")
    } else {
        None
    }
}

/// `l` ends with `p`.
pub open spec fn ends(l: Seq<char>, p: Seq<char>) -> bool {
    p.is_suffix_of(l)
}

pub open spec fn jsx_path(path: Seq<char>) -> bool {
    let l = lower(path);
    ends(l, ".tsx"@) || ends(l, ".jsx"@)
}

/// True if the file extension corresponds to a `.tsx`/`.jsx` (JSX-capable) file.
pub fn is_jsx(path: &str) -> (r: bool)
    ensures
        r == jsx_path(path@),
{
    let l = ascii_lowercase(path);
    ends_with(l.as_str(), ".tsx") || ends_with(l.as_str(), ".jsx")
}

/// A path that looks like a test file.
pub open spec fn test_path(path: Seq<char>) -> bool {
    let l = lower(path);
    let name = after_last(l, '/');
    ||| has(l, "/tests/"@)
    ||| has(l, "/test/"@)
    ||| has(l, "__tests__/"@)
    ||| "test_"@.is_prefix_of(name)
    ||| ends(name, "tests.cs"@)
    ||| ends(name, "test.cs"@)
    ||| ends(name, "_test.go"@)
    ||| ends(name, "_test.py"@)
    ||| ends(name, ".test.rs"@)
    ||| ends(name, ".test.ts"@)
    ||| ends(name, ".spec.ts"@)
    ||| ends(name, ".test.tsx"@)
    ||| ends(name, ".spec.tsx"@)
    ||| ends(name, ".test.js"@)
    ||| ends(name, ".spec.js"@)
    ||| ends(name, ".test.jsx"@)
    ||| ends(name, ".spec.jsx"@)
    ||| has(name, "test"@) && ends(name, ".rs"@)
}

/// Heuristic: does this path look like a test file?
pub fn is_test_file(path: &str) -> (r: bool)
    ensures
        r == test_path(path@),
{
    let l = ascii_lowercase(path);
    let l = l.as_str();
    let name = text_after_last(l, '/');
    let name = name.as_str();
    contains(l, "/tests/") || contains(l, "/test/") || contains(l, "__tests__/") || starts_with(name, "test_")
        || ends_with(name, "tests.cs")
        || ends_with(name, "test.cs")
        || ends_with(name, "_test.go")
        || ends_with(name, "_test.py")
        || ends_with(name, ".test.rs")
        || ends_with(name, ".test.ts")
        || ends_with(name, ".spec.ts")
        || ends_with(name, ".test.tsx")
        || ends_with(name, ".spec.tsx")
        || ends_with(name, ".test.js")
        || ends_with(name, ".spec.js")
        || ends_with(name, ".test.jsx")
        || ends_with(name, ".spec.jsx")
        || (contains(name, "test") && ends_with(name, ".rs"))
}

/// A path that looks like a config/registration/wiring file.
pub open spec fn config_path_name(path: Seq<char>) -> bool {
    let l = lower(path);
    ||| ends(l, ".yml"@)
    ||| ends(l, ".yaml"@)
    ||| ends(l, ".json"@)
    ||| ends(l, ".toml"@)
    ||| ends(l, ".csproj"@)
    ||| ends(l, ".props"@)
    ||| ends(l, ".targets"@)
    ||| ends(l, "package.json"@)
}

/// Heuristic: does this path look like a config/registration/wiring file?
pub fn is_config_file(path: &str) -> (r: bool)
    ensures
        r == config_path_name(path@),
{
    let l = ascii_lowercase(path);
    let l = l.as_str();
    ends_with(l, ".yml")
        || ends_with(l, ".yaml")
        || ends_with(l, ".json")
        || ends_with(l, ".toml")
        || ends_with(l, ".csproj")
        || ends_with(l, ".props")
        || ends_with(l, ".targets")
        || ends_with(l, "package.json")
}

/// A path that looks like a generated file.
pub open spec fn generated_path(path: Seq<char>) -> bool {
    let l = lower(path);
    ||| ends(l, ".designer.cs"@)
    ||| ends(l, ".g.cs"@)
    ||| ends(l, ".generated.cs"@)
    ||| ends(l, ".min.js"@)
    ||| ends(l, ".bundle.js"@)
    ||| ends(l, ".map"@)
}

/// Heuristic: generated/low-value file that should be excluded.
pub fn is_generated(path: &str) -> (r: bool)
    ensures
        r == generated_path(path@),
{
    let l = ascii_lowercase(path);
    let l = l.as_str();
    ends_with(l, ".designer.cs")
        || ends_with(l, ".g.cs")
        || ends_with(l, ".generated.cs")
        || ends_with(l, ".min.js")
        || ends_with(l, ".bundle.js")
        || ends_with(l, ".map")
}

/// The path of a lockfile.
pub open spec fn lockfile_path(path: Seq<char>) -> bool {
    let name = lower_name(path);
    ||| name == "package-lock.json"@
    ||| name == "yarn.lock"@
    ||| name == "pnpm-lock.yaml"@
    ||| name == "cargo.lock"@
}

/// Heuristic: lockfile, wanted only on explicit request.
pub fn is_lockfile(path: &str) -> (r: bool)
    ensures
        r == lockfile_path(path@),
{
    let name = name_in_lower(path);
    let name = name.as_str();
    same(name, "package-lock.json")
        || same(name, "yarn.lock")
        || same(name, "pnpm-lock.yaml")
        || same(name, "cargo.lock")
}

} // verus!
