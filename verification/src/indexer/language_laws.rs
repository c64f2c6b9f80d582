//! What the path of a file tells about it.

use crate::config::{enabled, LanguageToggles};
use crate::graph::model::{Language, SymbolKind};
use crate::indexer::languages::{
    config_path_name, ends, generated_path, jsx_path, language_of, lockfile_path, route_role, test_path,
};
use crate::paths::{extension_of, file_name_of, join_path, stem_of};
use crate::text::{
    after_last, before_first, before_last, has, last_index, last_index_bounds, last_index_is, lower, occurs_at,
};
use crate::text_laws::{last_splits, lower_laws};
use vstd::prelude::*;

verus! {

/// The name of a file is what stands behind the last slash; its extension is what
/// stands behind the last dot of the name, and its stem what stands before.
pub proof fn name_stem_and_extension(dir: Seq<char>, stem: Seq<char>, ext: Seq<char>)
    requires
        stem.len() > 0,
        !stem.contains('/'),
        ext.len() > 0,
        !ext.contains('/'),
        !ext.contains('.'),
    ensures
        file_name_of(dir + seq!['/'] + stem + seq!['.'] + ext) == Some(stem + seq!['.'] + ext),
        extension_of(dir + seq!['/'] + stem + seq!['.'] + ext) == Some(ext),
        stem_of(dir + seq!['/'] + stem + seq!['.'] + ext) == Some(stem),
        file_name_of(stem + seq!['.'] + ext) == Some(stem + seq!['.'] + ext),
        extension_of(stem + seq!['.'] + ext) == Some(ext),
        stem_of(stem + seq!['.'] + ext) == Some(stem),
{
    let name = stem + seq!['.'] + ext;
    let path = dir + seq!['/'] + stem + seq!['.'] + ext;
    assert(path =~= dir + seq!['/'] + name);
    assert forall|j: int| 0 <= j < name.len() implies name[j] != '/' by {
        if j < stem.len() {
            assert(stem.contains(stem[j]));
        } else if j > stem.len() {
            assert(ext.contains(ext[j - stem.len() - 1]));
        }
    }
    last_index_is(path, '/', dir.len() as int);
    assert(after_last(path, '/') =~= name);
    last_index_is(name, '/', -1);
    assert(after_last(name, '/') =~= name);
    reveal_strlit("");
    reveal_strlit(".");
    reveal_strlit("..");
    assert(ext.contains(ext.last()));
    assert(name.last() == ext.last());
    assert(name.last() != '.');
    assert("."@.last() == '.' && ".."@.last() == '.');
    assert forall|j: int| stem.len() < j < name.len() implies name[j] != '.' by {
        assert(ext.contains(ext[j - stem.len() - 1]));
    }
    last_index_is(name, '.', stem.len() as int);
    assert(name.skip(stem.len() as int + 1) =~= ext);
    assert(name.take(stem.len() as int) =~= stem);
}

/// A path put behind a directory: an absolute one stays itself, any other goes behind
/// one slash.
pub proof fn joined_paths(a: Seq<char>, b: Seq<char>)
    ensures
        b.len() > 0 && b[0] == '/' ==> join_path(a, b) == b,
        a.len() > 0 && a.last() != '/' && !(b.len() > 0 && b[0] == '/') ==> join_path(a, b) == a + seq!['/'] + b,
        a.len() > 0 && a.last() == '/' && !(b.len() > 0 && b[0] == '/') ==> join_path(a, b) == a + b,
        a.len() == 0 && !(b.len() > 0 && b[0] == '/') ==> join_path(a, b) == b,
{
    reveal_strlit("/");
    assert("/"@ =~= seq!['/']);
    assert(Seq::<char>::empty() + b =~= b);
    if a.len() == 0 {
        assert(a + b =~= b);
    }
}

/// The extension tells the language, in any case of letters.
pub proof fn extension_tells_the_language(stem: Seq<char>, ext: Seq<char>)
    requires
        stem.len() > 0,
        stem.last() != '/',
        ext.len() > 0,
        !ext.contains('/'),
        !ext.contains('.'),
    ensures
        language_of(stem + seq!['.'] + ext) == Language::CSharp <==> lower(ext) == "cs"@,
        language_of(stem + seq!['.'] + ext) == Language::Rust <==> lower(ext) == "rs"@,
        language_of(stem + seq!['.'] + ext) == Language::Python <==> lower(ext) == "py"@ || lower(ext) == "pyi"@,
        language_of(stem + seq!['.'] + ext) == Language::Go <==> lower(ext) == "go"@,
        language_of(stem + seq!['.'] + ext) == Language::JavaScript <==> lower(ext) == "js"@ || lower(ext) == "jsx"@ || lower(ext) == "mjs"@ || lower(ext) == "cjs"@,
        language_of(stem + seq!['.'] + ext) == Language::TypeScript <==> lower(ext) == "ts"@ || lower(ext) == "tsx"@,
        language_of(stem + seq!['.'] + ext) == Language::Svelte <==> lower(ext) == "svelte"@,
        language_of(stem + seq!['.'] + ext) == Language::Bash <==> lower(ext) == "sh"@ || lower(ext) == "bash"@ || lower(ext) == "zsh"@,
        language_of(stem + seq!['.'] + ext) == Language::Yaml <==> lower(ext) == "yml"@ || lower(ext) == "yaml"@,
        language_of(stem + seq!['.'] + ext) == Language::Json <==> lower(ext) == "json"@,
        language_of(stem + seq!['.'] + ext) == Language::Markdown <==> lower(ext) == "md"@ || lower(ext) == "markdown"@ || lower(ext) == "mdx"@,
{
    let path = stem + seq!['.'] + ext;
    let low = lower(path);
    let e = lower(ext);
    lower_laws(stem);
    lower_laws(ext);
    assert(low =~= lower(stem) + seq!['.'] + e);
    assert forall|j: int| 0 <= j < e.len() implies e[j] != '/' && e[j] != '.' by {
        assert(ext.contains(ext[j]));
        assert(lower(ext)[j] == e[j]);
    }
    let s = lower(stem);
    assert(lower(stem)[stem.len() - 1] != '/');
    last_index_bounds(s, '/');
    let i = last_index(s, '/');
    assert forall|j: int| i < j < low.len() implies low[j] != '/' by {
        if j < s.len() {
            assert(s[j] != '/');
        } else if j > s.len() {
            assert(low[j] == e[j - s.len() - 1]);
        }
    }
    last_index_is(low, '/', i);
    let short = s.skip(i + 1);
    assert(!short.contains('/')) by {
        if short.contains('/') {
            let k = short.index_of('/');
            assert(s[i + 1 + k] == '/');
        }
    }
    assert(!e.contains('/'));
    assert(!e.contains('.'));
    if i >= 0 {
        let dir = s.take(i);
        assert(low =~= dir + seq!['/'] + short + seq!['.'] + e);
        name_stem_and_extension(dir, short, e);
    } else {
        assert(short =~= s);
        name_stem_and_extension(Seq::empty(), short, e);
    }
    assert(extension_of(low) == Some(e));
    reveal_strlit("cs");
    reveal_strlit("rs");
    reveal_strlit("py");
    reveal_strlit("pyi");
    reveal_strlit("go");
    reveal_strlit("js");
    reveal_strlit("jsx");
    reveal_strlit("mjs");
    reveal_strlit("cjs");
    reveal_strlit("ts");
    reveal_strlit("tsx");
    reveal_strlit("svelte");
    reveal_strlit("sh");
    reveal_strlit("bash");
    reveal_strlit("zsh");
    reveal_strlit("yml");
    reveal_strlit("yaml");
    reveal_strlit("json");
    reveal_strlit("md");
    reveal_strlit("markdown");
    reveal_strlit("mdx");
    assert("cs"@.len() == 2 && "rs"@.len() == 2 && "py"@.len() == 2 && "pyi"@.len() == 3);
    assert("go"@.len() == 2 && "js"@.len() == 2 && "jsx"@.len() == 3 && "mjs"@.len() == 3);
    assert("cjs"@.len() == 3 && "ts"@.len() == 2 && "tsx"@.len() == 3 && "svelte"@.len() == 6);
    assert("sh"@.len() == 2 && "bash"@.len() == 4 && "zsh"@.len() == 3 && "yml"@.len() == 3);
    assert("yaml"@.len() == 4 && "json"@.len() == 4 && "md"@.len() == 2 && "markdown"@.len() == 8);
    assert("mdx"@.len() == 3);
    assert("cs"@[0] != "rs"@[0]);
    assert("cs"@[0] != "py"@[0]);
    assert("cs"@[0] != "go"@[0]);
    assert("cs"@[0] != "js"@[0]);
    assert("cs"@[0] != "ts"@[0]);
    assert("cs"@[0] != "sh"@[0]);
    assert("cs"@[0] != "md"@[0]);
    assert("rs"@[0] != "py"@[0]);
    assert("rs"@[0] != "go"@[0]);
    assert("rs"@[0] != "js"@[0]);
    assert("rs"@[0] != "ts"@[0]);
    assert("rs"@[0] != "sh"@[0]);
    assert("rs"@[0] != "md"@[0]);
    assert("py"@[0] != "go"@[0]);
    assert("py"@[0] != "js"@[0]);
    assert("py"@[0] != "ts"@[0]);
    assert("py"@[0] != "sh"@[0]);
    assert("py"@[0] != "md"@[0]);
    assert("pyi"@[0] != "jsx"@[0]);
    assert("pyi"@[0] != "mjs"@[0]);
    assert("pyi"@[0] != "cjs"@[0]);
    assert("pyi"@[0] != "tsx"@[0]);
    assert("pyi"@[0] != "zsh"@[0]);
    assert("pyi"@[0] != "yml"@[0]);
    assert("pyi"@[0] != "mdx"@[0]);
    assert("go"@[0] != "js"@[0]);
    assert("go"@[0] != "ts"@[0]);
    assert("go"@[0] != "sh"@[0]);
    assert("go"@[0] != "md"@[0]);
    assert("js"@[0] != "ts"@[0]);
    assert("js"@[0] != "sh"@[0]);
    assert("js"@[0] != "md"@[0]);
    assert("jsx"@[0] != "mjs"@[0]);
    assert("jsx"@[0] != "cjs"@[0]);
    assert("jsx"@[0] != "tsx"@[0]);
    assert("jsx"@[0] != "zsh"@[0]);
    assert("jsx"@[0] != "yml"@[0]);
    assert("jsx"@[0] != "mdx"@[0]);
    assert("mjs"@[0] != "cjs"@[0]);
    assert("mjs"@[0] != "tsx"@[0]);
    assert("mjs"@[0] != "zsh"@[0]);
    assert("mjs"@[0] != "yml"@[0]);
    assert("mjs"@[1] != "mdx"@[1]);
    assert("cjs"@[0] != "tsx"@[0]);
    assert("cjs"@[0] != "zsh"@[0]);
    assert("cjs"@[0] != "yml"@[0]);
    assert("cjs"@[0] != "mdx"@[0]);
    assert("ts"@[0] != "sh"@[0]);
    assert("ts"@[0] != "md"@[0]);
    assert("tsx"@[0] != "zsh"@[0]);
    assert("tsx"@[0] != "yml"@[0]);
    assert("tsx"@[0] != "mdx"@[0]);
    assert("sh"@[0] != "md"@[0]);
    assert("bash"@[0] != "yaml"@[0]);
    assert("bash"@[0] != "json"@[0]);
    assert("zsh"@[0] != "yml"@[0]);
    assert("zsh"@[0] != "mdx"@[0]);
    assert("yml"@[0] != "mdx"@[0]);
    assert("yaml"@[0] != "json"@[0]);
}

/// Generated files are told by how their paths end, in any case of letters.
pub proof fn generated_files_are_told(path: Seq<char>, a: Seq<char>)
    ensures
        lower(path) == a + ".designer.cs"@ ==> generated_path(path),
        lower(path) == a + ".g.cs"@ ==> generated_path(path),
        lower(path) == a + ".generated.cs"@ ==> generated_path(path),
        lower(path) == a + ".min.js"@ ==> generated_path(path),
        lower(path) == a + ".bundle.js"@ ==> generated_path(path),
        lower(path) == a + ".map"@ ==> generated_path(path),
        generated_path(path) ==> ends(lower(path), ".cs"@) || ends(lower(path), ".js"@) || ends(lower(path), ".map"@),
        generated_path(path) ==> ends(lower(path), ".designer.cs"@) || ends(lower(path), ".g.cs"@) || ends(
            lower(path),
            ".generated.cs"@,
        ) || ends(lower(path), ".min.js"@) || ends(lower(path), ".bundle.js"@) || ends(lower(path), ".map"@),
{
    ending(a, ".designer.cs"@, lower(path));
    ending(a, ".g.cs"@, lower(path));
    ending(a, ".generated.cs"@, lower(path));
    ending(a, ".min.js"@, lower(path));
    ending(a, ".bundle.js"@, lower(path));
    ending(a, ".map"@, lower(path));
    reveal_strlit(".cs");
    reveal_strlit(".js");
    reveal_strlit(".designer.cs");
    reveal_strlit(".g.cs");
    reveal_strlit(".generated.cs");
    reveal_strlit(".min.js");
    reveal_strlit(".bundle.js");
    longer_ending(".designer.cs"@, ".cs"@, lower(path));
    longer_ending(".g.cs"@, ".cs"@, lower(path));
    longer_ending(".generated.cs"@, ".cs"@, lower(path));
    longer_ending(".min.js"@, ".js"@, lower(path));
    longer_ending(".bundle.js"@, ".js"@, lower(path));
}

/// A text that ends in `p` and one put together with it are the same thing.
proof fn ending(a: Seq<char>, p: Seq<char>, s: Seq<char>)
    ensures
        s == a + p ==> ends(s, p),
{
    if s == a + p {
        assert(p =~= s.subrange(s.len() - p.len(), s.len() as int));
    }
}

/// What ends in a text ends in every ending of that text.
proof fn longer_ending(long: Seq<char>, short: Seq<char>, s: Seq<char>)
    requires
        short.len() <= long.len(),
        long.skip(long.len() - short.len()) =~= short,
    ensures
        ends(s, long) ==> ends(s, short),
{
    if ends(s, long) {
        assert(short =~= s.subrange(s.len() - short.len(), s.len() as int)) by {
            assert forall|i: int| 0 <= i < short.len() implies short[i] == s[s.len() - short.len() + i] by {
                assert(long.skip(long.len() - short.len())[i] == short[i]);
                assert(long[long.len() - short.len() + i] == s.subrange(s.len() - long.len(), s.len() as int)[long.len()
                    - short.len() + i]);
            }
        }
    }
}

/// Configuration files are told by their extensions, in any case of letters, and
/// nothing else is one.
pub proof fn configuration_is_told(path: Seq<char>, a: Seq<char>)
    ensures
        lower(path) == a + ".yml"@ ==> config_path_name(path),
        lower(path) == a + ".yaml"@ ==> config_path_name(path),
        lower(path) == a + ".json"@ ==> config_path_name(path),
        lower(path) == a + ".toml"@ ==> config_path_name(path),
        lower(path) == a + ".csproj"@ ==> config_path_name(path),
        lower(path) == a + ".props"@ ==> config_path_name(path),
        lower(path) == a + ".targets"@ ==> config_path_name(path),
        config_path_name(path) ==> ends(lower(path), ".yml"@) || ends(lower(path), ".yaml"@) || ends(lower(path), ".json"@) || ends(lower(path), ".toml"@) || ends(lower(path), ".csproj"@) || ends(lower(path), ".props"@) || ends(lower(path), ".targets"@),
{
    ending(a, ".yml"@, lower(path));
    ending(a, ".yaml"@, lower(path));
    ending(a, ".json"@, lower(path));
    ending(a, ".toml"@, lower(path));
    ending(a, ".csproj"@, lower(path));
    ending(a, ".props"@, lower(path));
    ending(a, ".targets"@, lower(path));
    reveal_strlit("package.json");
    reveal_strlit(".json");
    longer_ending("package.json"@, ".json"@, lower(path));
}

/// Lockfiles are told by their names, in any case of letters and in any directory.
pub proof fn lockfiles_are_told(path: Seq<char>)
    ensures
        lockfile_path(path) <==> (after_last(lower(path), '/') == "package-lock.json"@ || after_last(lower(path), '/')
            == "yarn.lock"@ || after_last(lower(path), '/') == "pnpm-lock.yaml"@ || after_last(lower(path), '/')
            == "cargo.lock"@),
{
}

/// Tests are told by their directory or by how their names start or end, in any case
/// of letters.
pub proof fn tests_are_told(path: Seq<char>, a: Seq<char>, b: Seq<char>)
    ensures
        lower(path) == a + "/tests/"@ + b ==> test_path(path),
        lower(path) == a + "/test/"@ + b ==> test_path(path),
        lower(path) == a + "__tests__/"@ + b ==> test_path(path),
        after_last(lower(path), '/') == "test_"@ + b ==> test_path(path),
        after_last(lower(path), '/') == a + "tests.cs"@ ==> test_path(path),
        after_last(lower(path), '/') == a + "test.cs"@ ==> test_path(path),
        after_last(lower(path), '/') == a + "_test.go"@ ==> test_path(path),
        after_last(lower(path), '/') == a + "_test.py"@ ==> test_path(path),
        after_last(lower(path), '/') == a + ".test.rs"@ ==> test_path(path),
        after_last(lower(path), '/') == a + ".test.ts"@ ==> test_path(path),
        after_last(lower(path), '/') == a + ".spec.ts"@ ==> test_path(path),
        after_last(lower(path), '/') == a + ".test.tsx"@ ==> test_path(path),
        after_last(lower(path), '/') == a + ".spec.tsx"@ ==> test_path(path),
        after_last(lower(path), '/') == a + ".test.js"@ ==> test_path(path),
        after_last(lower(path), '/') == a + ".spec.js"@ ==> test_path(path),
        after_last(lower(path), '/') == a + ".test.jsx"@ ==> test_path(path),
        after_last(lower(path), '/') == a + ".spec.jsx"@ ==> test_path(path),
        after_last(lower(path), '/') == a + "test"@ + b + ".rs"@ ==> test_path(path),
{
    let l = lower(path);
    let name = after_last(l, '/');
    if l == a + "/tests/"@ + b {
        holding(l, "/tests/"@, a, b);
    }
    if l == a + "/test/"@ + b {
        holding(l, "/test/"@, a, b);
    }
    if l == a + "__tests__/"@ + b {
        holding(l, "__tests__/"@, a, b);
    }
    if name == "test_"@ + b {
        assert("test_"@ =~= name.take("test_"@.len() as int));
    }
    ending(a, "tests.cs"@, name);
    ending(a, "test.cs"@, name);
    ending(a, "_test.go"@, name);
    ending(a, "_test.py"@, name);
    ending(a, ".test.rs"@, name);
    ending(a, ".test.ts"@, name);
    ending(a, ".spec.ts"@, name);
    ending(a, ".test.tsx"@, name);
    ending(a, ".spec.tsx"@, name);
    ending(a, ".test.js"@, name);
    ending(a, ".spec.js"@, name);
    ending(a, ".test.jsx"@, name);
    ending(a, ".spec.jsx"@, name);
    if name == a + "test"@ + b + ".rs"@ {
        assert(name =~= a + "test"@ + (b + ".rs"@));
        holding(name, "test"@, a, b + ".rs"@);
        ending(a + "test"@ + b, ".rs"@, name);
    }
}

/// A path that has neither `test` nor `spec` in it is not taken for a test.
pub proof fn nothing_else_is_a_test(path: Seq<char>)
    ensures
        test_path(path) ==> has(lower(path), "test"@) || has(lower(path), "spec"@),
{
    let l = lower(path);
    let name = after_last(l, '/');
    if test_path(path) {
        reveal_strlit("test");
        reveal_strlit("spec");
        last_splits(l, '/');
        let a = if l.contains('/') {
            before_last(l, '/') + seq!['/']
        } else {
            Seq::empty()
        };
        assert(l =~= a + name);
        if has(l, "/tests/"@) {
            reveal_strlit("/tests/");
            within(l, "/tests/"@, "test"@, 1);
        } else if has(l, "/test/"@) {
            reveal_strlit("/test/");
            within(l, "/test/"@, "test"@, 1);
        } else if has(l, "__tests__/"@) {
            reveal_strlit("__tests__/");
            within(l, "__tests__/"@, "test"@, 2);
        } else if "test_"@.is_prefix_of(name) {
            reveal_strlit("test_");
            assert(occurs_at(name, "test_"@, 0)) by {
                assert(name.subrange(0, 5) =~= name.take(5));
            }
            within(name, "test_"@, "test"@, 0);
            in_the_name(a, name, "test"@);
        } else if has(name, "test"@) && ends(name, ".rs"@) {
            in_the_name(a, name, "test"@);
        } else {
            if ends(name, "tests.cs"@) {
                reveal_strlit("tests.cs");
                ending_holds(a, name, "tests.cs"@, "test"@, 0);
            } else if ends(name, "test.cs"@) {
                reveal_strlit("test.cs");
                ending_holds(a, name, "test.cs"@, "test"@, 0);
            } else if ends(name, "_test.go"@) {
                reveal_strlit("_test.go");
                ending_holds(a, name, "_test.go"@, "test"@, 1);
            } else if ends(name, "_test.py"@) {
                reveal_strlit("_test.py");
                ending_holds(a, name, "_test.py"@, "test"@, 1);
            } else if ends(name, ".test.rs"@) {
                reveal_strlit(".test.rs");
                ending_holds(a, name, ".test.rs"@, "test"@, 1);
            } else if ends(name, ".test.ts"@) {
                reveal_strlit(".test.ts");
                ending_holds(a, name, ".test.ts"@, "test"@, 1);
            } else if ends(name, ".spec.ts"@) {
                reveal_strlit(".spec.ts");
                ending_holds(a, name, ".spec.ts"@, "spec"@, 1);
            } else if ends(name, ".test.tsx"@) {
                reveal_strlit(".test.tsx");
                ending_holds(a, name, ".test.tsx"@, "test"@, 1);
            } else if ends(name, ".spec.tsx"@) {
                reveal_strlit(".spec.tsx");
                ending_holds(a, name, ".spec.tsx"@, "spec"@, 1);
            } else if ends(name, ".test.js"@) {
                reveal_strlit(".test.js");
                ending_holds(a, name, ".test.js"@, "test"@, 1);
            } else if ends(name, ".spec.js"@) {
                reveal_strlit(".spec.js");
                ending_holds(a, name, ".spec.js"@, "spec"@, 1);
            } else if ends(name, ".test.jsx"@) {
                reveal_strlit(".test.jsx");
                ending_holds(a, name, ".test.jsx"@, "test"@, 1);
            } else if ends(name, ".spec.jsx"@) {
                reveal_strlit(".spec.jsx");
                ending_holds(a, name, ".spec.jsx"@, "spec"@, 1);
            }
        }
    }
}

/// What occurs in a part occurs in the whole.
proof fn within(s: Seq<char>, p: Seq<char>, x: Seq<char>, k: int)
    requires
        has(s, p),
        0 <= k,
        k + x.len() <= p.len(),
        p.subrange(k, k + x.len()) =~= x,
    ensures
        has(s, x),
{
    let i = choose|i: int| occurs_at(s, p, i);
    assert(s.subrange(i, i + p.len()).subrange(k, k + x.len()) =~= s.subrange(i + k, i + k + x.len()));
    assert(occurs_at(s, x, i + k));
}

proof fn in_the_name(a: Seq<char>, name: Seq<char>, x: Seq<char>)
    requires
        has(name, x),
    ensures
        has(a + name, x),
{
    let i = choose|i: int| occurs_at(name, x, i);
    assert((a + name).subrange(a.len() + i, a.len() + i + x.len()) =~= name.subrange(i, i + x.len()));
    assert(occurs_at(a + name, x, a.len() + i));
}

proof fn ending_holds(a: Seq<char>, name: Seq<char>, e: Seq<char>, x: Seq<char>, k: int)
    requires
        ends(name, e),
        0 <= k,
        k + x.len() <= e.len(),
        e.subrange(k, k + x.len()) =~= x,
    ensures
        has(a + name, x),
{
    let i = name.len() - e.len();
    assert(name.subrange(i, i + e.len()) =~= name.skip(i));
    assert(occurs_at(name, e, i));
    within(name, e, x, k);
    in_the_name(a, name, x);
}

proof fn holding(s: Seq<char>, p: Seq<char>, a: Seq<char>, b: Seq<char>)
    requires
        s == a + p + b,
    ensures
        has(s, p),
{
    assert(s.subrange(a.len() as int, (a.len() + p.len()) as int) =~= p);
    assert(occurs_at(s, p, a.len() as int));
}

/// Files that hold components are those of the two extensions, in any case of
/// letters.
pub proof fn component_files_are_told(path: Seq<char>, a: Seq<char>)
    ensures
        lower(path) == a + ".tsx"@ ==> jsx_path(path),
        lower(path) == a + ".jsx"@ ==> jsx_path(path),
        jsx_path(path) ==> ends(lower(path), ".tsx"@) || ends(lower(path), ".jsx"@),
{
    ending(a, ".tsx"@, lower(path));
    ending(a, ".jsx"@, lower(path));
}

/// The role of a route file is told by the start of its name, up to the first dot.
pub proof fn route_files_have_a_role(path: Seq<char>)
    ensures
        before_first(lower(after_last(path, '/')), '.') == "+page"@ <==> route_role(path) == Some("page"@),
        before_first(lower(after_last(path, '/')), '.') == "+layout"@ <==> route_role(path) == Some("layout"@),
        before_first(lower(after_last(path, '/')), '.') == "+server"@ <==> route_role(path) == Some("endpoint"@),
        before_first(lower(after_last(path, '/')), '.') == "+error"@ <==> route_role(path) == Some("error"@),
{
    reveal_strlit("+page");
    reveal_strlit("+layout");
    reveal_strlit("+server");
    reveal_strlit("+error");
    reveal_strlit("page");
    reveal_strlit("layout");
    reveal_strlit("endpoint");
    reveal_strlit("error");
    assert("+page"@.len() == 5 && "+layout"@.len() == 7 && "+server"@.len() == 7 && "+error"@.len() == 6);
    assert("page"@.len() == 4 && "layout"@.len() == 6 && "endpoint"@.len() == 8 && "error"@.len() == 5);
    assert("+page"@[0] != "error"@[0]);
    assert("+layout"@[1] != "+server"@[1]);
    assert("+error"@[0] != "layout"@[0]);
}

/// Every language is switched by its own switch, and files of no language have no
/// symbols.
pub proof fn every_language_has_its_switch(t: LanguageToggles)
    ensures
        enabled(t, Language::CSharp) == t.csharp,
        enabled(t, Language::Rust) == t.rust,
        enabled(t, Language::Python) == t.python,
        enabled(t, Language::Go) == t.go,
        enabled(t, Language::JavaScript) == t.javascript,
        enabled(t, Language::TypeScript) == t.typescript,
        enabled(t, Language::Svelte) == t.svelte,
        enabled(t, Language::Bash) == t.bash,
        enabled(t, Language::Yaml) == t.yaml,
        enabled(t, Language::Json) == t.json,
        enabled(t, Language::Markdown) == t.markdown,
        !enabled(t, Language::Other),
{
}

/// What languages and kinds are called.
pub proof fn names_of_languages_and_kinds()
    ensures
        Language::CSharp.name() == "csharp"@,
        Language::Rust.name() == "rust"@,
        Language::Python.name() == "python"@,
        Language::Go.name() == "go"@,
        Language::JavaScript.name() == "javascript"@,
        Language::TypeScript.name() == "typescript"@,
        Language::Svelte.name() == "svelte"@,
        Language::Bash.name() == "bash"@,
        Language::Yaml.name() == "yaml"@,
        Language::Json.name() == "json"@,
        Language::Markdown.name() == "markdown"@,
        Language::Other.name() == "other"@,
        SymbolKind::Class.name() == "class"@,
        SymbolKind::Struct.name() == "struct"@,
        SymbolKind::Record.name() == "record"@,
        SymbolKind::Interface.name() == "interface"@,
        SymbolKind::Trait.name() == "trait"@,
        SymbolKind::Enum.name() == "enum"@,
        SymbolKind::Function.name() == "function"@,
        SymbolKind::Method.name() == "method"@,
        SymbolKind::Module.name() == "module"@,
        SymbolKind::TypeAlias.name() == "type"@,
        SymbolKind::Component.name() == "component"@,
        SymbolKind::Constructor.name() == "constructor"@,
        SymbolKind::Key.name() == "key"@,
        forall|l: Language| #[trigger] l.fence_name() == (if l == Language::Other {
            "text"@
        } else {
            l.name()
        }),
{
}

} // verus!
