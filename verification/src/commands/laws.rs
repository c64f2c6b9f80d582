//! What the commands do with their arguments, said of arguments and results.

use crate::cli::{
    CleanArgs, ExploreArgs, InitArgs, PackArgs, PackagesArgs, RelatedArgs, SymbolsArgs,
};
use crate::commands::listing::{
    importer_lines, items_asked, name_passes, package_name_order, package_passes, package_row, packages_asked,
    project_path_order, project_row, projects_asked, related_lines, seed_of, symbol_row,
};
use crate::commands::requests::{
    asked_scope, asked_symbols, explained, explained_all, explanation, pack_request, scope_of, symbol_query,
};
use crate::commands::numbers::shown_number;
use crate::commands::status::{
    origin_stale_of, report, stale, stale_among, status_entries, status_lines_of, Report, Scan,
};
use crate::commands::workspace::{
    cleaned, covers, explore_options, ignore_entry, index_lines, is_covered, may_init, with_entry,
};
use crate::config::{PackConfig, SynapseConfig};
use crate::errors::SynapseError;
use crate::explore::ExploreOptions;
use crate::git::GitInfo;
use crate::graph::memory_store::{replay, symbol_name_order, symbol_passes, MemoryGraphStore};
use crate::graph::model::{
    FileView, IndexStats, IndexedFile, Language, PackageView, ProjectView, RelatedView, SymbolKind,
    SymbolSearchQuery, SymbolView,
};
use crate::graph::store::{GraphStore, StoreWrite};
use crate::hashing::blake3_hex;
use crate::json::{item, text_or_null, text_unless_empty, JsonView};
use crate::lists::{first_found, keep, keep_members, text_le_transitive};
use crate::pack::related::{related_files_of_file, related_files_of_symbol};
use crate::pack::request::{PackFormat, PackMode, PackRequest, SelectedView};
use crate::sorting::{sorted, stable_sort_keeps, stable_sort_sorted, total_preorder};
use crate::text::{decimal, has, lines, lower, opt_view, text_lt, text_lt_laws, trim, trim_end_char};
use serde_json::Value;
use crate::text_laws::first_line_comes_first;
use vstd::prelude::*;

verus! {

// --- symbols ----------------------------------------------------------------------------------
/// `symbols` lists exactly the symbols that pass every filter on the command line:
/// the name holds the query, in any case of letters; the file is the one given; the
/// kind and the language are those named, as far as they are known.
pub proof fn symbols_lists_what_passes_every_filter(h: Seq<StoreWrite>, args: SymbolsArgs, s: SymbolView)
    ensures
        MemoryGraphStore::symbols_matching_in(h, asked_symbols(args)).contains(s) <==> {
            &&& replay(h).symbols.contains(s)
            &&& args.query matches Some(q) ==> has(lower(s.name), lower(q@))
            &&& args.file matches Some(f) ==> s.file_path == f@
            &&& args.kind matches Some(k) ==> (SymbolKind::named(lower(k@)) matches Some(kind) ==> s.kind == kind)
            &&& args.language matches Some(l) ==> (Language::named(lower(l@)) matches Some(lang) ==> s.language == lang)
        },
{
    let q = asked_symbols(args);
    let p = |x: SymbolView| symbol_passes(q, x);
    keep_members(replay(h).symbols, p);
    stable_sort_keeps(keep(replay(h).symbols, p), symbol_name_order());
}

/// What `symbols` searches for is what its arguments say.
pub proof fn symbol_search_is_as_asked(args: &SymbolsArgs, r: SymbolSearchQuery)
    requires
        call_ensures(symbol_query, (args,), r),
    ensures
        opt_view(r.name) == opt_view(args.query),
        opt_view(r.file) == opt_view(args.file),
        args.kind is None ==> r.kind is None,
        args.language is None ==> r.language is None,
        args.kind matches Some(k) ==> r.kind == SymbolKind::named(lower(k@)),
        args.language matches Some(l) ==> r.language == Language::named(lower(l@)),
{
    assert(r@.name == opt_view(r.name));
}

proof fn symbol_name_order_total()
    ensures
        total_preorder(symbol_name_order()),
{
    let le = symbol_name_order();
    assert forall|a: SymbolView, b: SymbolView| #![trigger le(a, b)] le(a, b) || le(b, a) by {
        text_lt_laws(a.name, b.name, a.name);
        text_lt_laws(a.file_path, b.file_path, a.file_path);
    }
    assert forall|a: SymbolView, b: SymbolView, c: SymbolView|
        #![trigger le(a, b), le(b, c)]
        le(a, b) && le(b, c) implies le(a, c) by {
        text_lt_laws(a.name, b.name, c.name);
        if a.name == b.name && b.name == c.name {
            text_le_transitive(a.file_path, b.file_path, c.file_path);
        }
    }
}

/// The symbols come by name and then by file.
pub proof fn symbols_come_by_name(h: Seq<StoreWrite>, args: SymbolsArgs, i: int, j: int)
    requires
        0 <= i < j < MemoryGraphStore::symbols_matching_in(h, asked_symbols(args)).len(),
    ensures
        ({
            let a = MemoryGraphStore::symbols_matching_in(h, asked_symbols(args))[i];
            let b = MemoryGraphStore::symbols_matching_in(h, asked_symbols(args))[j];
            !text_lt(b.name, a.name) && (a.name == b.name ==> !text_lt(b.file_path, a.file_path))
        }),
{
    let q = asked_symbols(args);
    let list = keep(replay(h).symbols, |x: SymbolView| symbol_passes(q, x));
    symbol_name_order_total();
    stable_sort_sorted(list, symbol_name_order());
    let s = MemoryGraphStore::symbols_matching_in(h, q);
    assert(symbol_name_order()(s[i], s[j]));
    text_lt_laws(s[i].name, s[j].name, s[i].name);
}

/// Kinds are known under short names too.
pub proof fn short_kinds_are_known()
    ensures
        SymbolKind::named("fn"@) == Some(SymbolKind::Function),
        SymbolKind::named("func"@) == Some(SymbolKind::Function),
        SymbolKind::named("mod"@) == Some(SymbolKind::Module),
        SymbolKind::named("typealias"@) == Some(SymbolKind::TypeAlias),
        SymbolKind::named("ctor"@) == Some(SymbolKind::Constructor),
{
    reveal_strlit("class");
    reveal_strlit("struct");
    reveal_strlit("record");
    reveal_strlit("interface");
    reveal_strlit("trait");
    reveal_strlit("enum");
    reveal_strlit("function");
    reveal_strlit("func");
    reveal_strlit("fn");
    reveal_strlit("method");
    reveal_strlit("module");
    reveal_strlit("mod");
    reveal_strlit("type");
    reveal_strlit("typealias");
    reveal_strlit("component");
    reveal_strlit("constructor");
    reveal_strlit("ctor");
    assert("class"@.len() == 5 && "struct"@.len() == 6 && "record"@.len() == 6 && "interface"@.len() == 9);
    assert("trait"@.len() == 5 && "enum"@.len() == 4 && "function"@.len() == 8 && "func"@.len() == 4);
    assert("fn"@.len() == 2 && "method"@.len() == 6 && "module"@.len() == 6 && "mod"@.len() == 3);
    assert("type"@.len() == 4 && "typealias"@.len() == 9 && "component"@.len() == 9 && "constructor"@.len() == 11);
    assert("ctor"@.len() == 4);
    assert("class"@[0] != "trait"@[0]);
    assert("struct"@[0] != "record"@[0]);
    assert("struct"@[0] != "method"@[0]);
    assert("struct"@[0] != "module"@[0]);
    assert("record"@[0] != "method"@[0]);
    assert("record"@[0] != "module"@[0]);
    assert("interface"@[0] != "typealias"@[0]);
    assert("interface"@[0] != "component"@[0]);
    assert("enum"@[0] != "func"@[0]);
    assert("enum"@[0] != "type"@[0]);
    assert("enum"@[0] != "ctor"@[0]);
    assert("func"@[0] != "type"@[0]);
    assert("func"@[0] != "ctor"@[0]);
    assert("method"@[1] != "module"@[1]);
    assert("type"@[0] != "ctor"@[0]);
    assert("typealias"@[0] != "component"@[0]);
}

/// Languages are known under short names too.
pub proof fn short_languages_are_known()
    ensures
        Language::named("c#"@) == Some(Language::CSharp),
        Language::named("cs"@) == Some(Language::CSharp),
        Language::named("rs"@) == Some(Language::Rust),
        Language::named("py"@) == Some(Language::Python),
        Language::named("js"@) == Some(Language::JavaScript),
        Language::named("ts"@) == Some(Language::TypeScript),
        Language::named("sh"@) == Some(Language::Bash),
        Language::named("shell"@) == Some(Language::Bash),
        Language::named("yml"@) == Some(Language::Yaml),
        Language::named("md"@) == Some(Language::Markdown),
{
    reveal_strlit("csharp");
    reveal_strlit("c#");
    reveal_strlit("cs");
    reveal_strlit("rust");
    reveal_strlit("rs");
    reveal_strlit("python");
    reveal_strlit("py");
    reveal_strlit("go");
    reveal_strlit("javascript");
    reveal_strlit("js");
    reveal_strlit("typescript");
    reveal_strlit("ts");
    reveal_strlit("svelte");
    reveal_strlit("bash");
    reveal_strlit("sh");
    reveal_strlit("shell");
    reveal_strlit("yaml");
    reveal_strlit("yml");
    reveal_strlit("json");
    reveal_strlit("markdown");
    reveal_strlit("md");
    assert("csharp"@.len() == 6 && "c#"@.len() == 2 && "cs"@.len() == 2 && "rust"@.len() == 4);
    assert("rs"@.len() == 2 && "python"@.len() == 6 && "py"@.len() == 2 && "go"@.len() == 2);
    assert("javascript"@.len() == 10 && "js"@.len() == 2 && "typescript"@.len() == 10 && "ts"@.len() == 2);
    assert("svelte"@.len() == 6 && "bash"@.len() == 4 && "sh"@.len() == 2 && "shell"@.len() == 5);
    assert("yaml"@.len() == 4 && "yml"@.len() == 3 && "json"@.len() == 4 && "markdown"@.len() == 8);
    assert("md"@.len() == 2);
    assert("csharp"@[0] != "python"@[0]);
    assert("csharp"@[0] != "svelte"@[0]);
    assert("c#"@[1] != "cs"@[1]);
    assert("c#"@[0] != "rs"@[0]);
    assert("c#"@[0] != "py"@[0]);
    assert("c#"@[0] != "go"@[0]);
    assert("c#"@[0] != "js"@[0]);
    assert("c#"@[0] != "ts"@[0]);
    assert("c#"@[0] != "sh"@[0]);
    assert("c#"@[0] != "md"@[0]);
    assert("cs"@[0] != "rs"@[0]);
    assert("cs"@[0] != "py"@[0]);
    assert("cs"@[0] != "go"@[0]);
    assert("cs"@[0] != "js"@[0]);
    assert("cs"@[0] != "ts"@[0]);
    assert("cs"@[0] != "sh"@[0]);
    assert("cs"@[0] != "md"@[0]);
    assert("rust"@[0] != "bash"@[0]);
    assert("rust"@[0] != "yaml"@[0]);
    assert("rust"@[0] != "json"@[0]);
    assert("rs"@[0] != "py"@[0]);
    assert("rs"@[0] != "go"@[0]);
    assert("rs"@[0] != "js"@[0]);
    assert("rs"@[0] != "ts"@[0]);
    assert("rs"@[0] != "sh"@[0]);
    assert("rs"@[0] != "md"@[0]);
    assert("python"@[0] != "svelte"@[0]);
    assert("py"@[0] != "go"@[0]);
    assert("py"@[0] != "js"@[0]);
    assert("py"@[0] != "ts"@[0]);
    assert("py"@[0] != "sh"@[0]);
    assert("py"@[0] != "md"@[0]);
    assert("go"@[0] != "js"@[0]);
    assert("go"@[0] != "ts"@[0]);
    assert("go"@[0] != "sh"@[0]);
    assert("go"@[0] != "md"@[0]);
    assert("javascript"@[0] != "typescript"@[0]);
    assert("js"@[0] != "ts"@[0]);
    assert("js"@[0] != "sh"@[0]);
    assert("js"@[0] != "md"@[0]);
    assert("ts"@[0] != "sh"@[0]);
    assert("ts"@[0] != "md"@[0]);
    assert("bash"@[0] != "yaml"@[0]);
    assert("bash"@[0] != "json"@[0]);
    assert("sh"@[0] != "md"@[0]);
    assert("yaml"@[0] != "json"@[0]);
}

/// A pack is Markdown or JSON.
pub proof fn formats_are_known()
    ensures
        PackFormat::named("markdown"@) == Some(PackFormat::Markdown),
        PackFormat::named("md"@) == Some(PackFormat::Markdown),
        PackFormat::named("json"@) == Some(PackFormat::Json),
{
    reveal_strlit("markdown");
    reveal_strlit("md");
    reveal_strlit("json");
    assert("markdown"@.len() == 8 && "md"@.len() == 2 && "json"@.len() == 4);
}

// --- packages ---------------------------------------------------------------------------------
/// `packages` lists exactly the packages whose name holds the query, in any case of
/// letters, and whose ecosystem is the one named; by name and then by version.
pub proof fn packages_lists_what_passes(args: PackagesArgs, all: Seq<PackageView>, p: PackageView)
    ensures
        packages_asked(args, all).contains(p) <==> {
            &&& all.contains(p)
            &&& args.query matches Some(q) ==> has(lower(p.name), lower(q@))
            &&& args.ecosystem matches Some(e) ==> lower(p.ecosystem) == lower(e@)
        },
        sorted(packages_asked(args, all), package_name_order()),
{
    let f = |x: PackageView| package_passes(args, x);
    keep_members(all, f);
    stable_sort_keeps(keep(all, f), package_name_order());
    let le = package_name_order();
    assert forall|a: PackageView, b: PackageView| #![trigger le(a, b)] le(a, b) || le(b, a) by {
        text_lt_laws(a.name, b.name, a.name);
        text_lt_laws(a.version, b.version, a.version);
    }
    assert forall|a: PackageView, b: PackageView, c: PackageView|
        #![trigger le(a, b), le(b, c)]
        le(a, b) && le(b, c) implies le(a, c) by {
        text_lt_laws(a.name, b.name, c.name);
        if a.name == b.name && b.name == c.name {
            text_le_transitive(a.version, b.version, c.version);
        }
    }
    stable_sort_sorted(keep(all, f), le);
}

/// `packages --projects` lists exactly the projects whose name or path holds the
/// query; by path.
pub proof fn projects_lists_what_passes(args: PackagesArgs, all: Seq<ProjectView>, p: ProjectView)
    ensures
        projects_asked(args, all).contains(p) <==> {
            &&& all.contains(p)
            &&& args.query matches Some(q) ==> has(lower(p.name), lower(q@)) || has(lower(p.path), lower(q@))
        },
        sorted(projects_asked(args, all), project_path_order()),
{
    let f = |x: ProjectView| name_passes(args, x.name) || name_passes(args, x.path);
    keep_members(all, f);
    stable_sort_keeps(keep(all, f), project_path_order());
    let le = project_path_order();
    assert forall|a: ProjectView, b: ProjectView| #![trigger le(a, b)] le(a, b) || le(b, a) by {
        text_lt_laws(a.path, b.path, a.path);
    }
    assert forall|a: ProjectView, b: ProjectView, c: ProjectView|
        #![trigger le(a, b), le(b, c)]
        le(a, b) && le(b, c) implies le(a, c) by {
        text_le_transitive(a.path, b.path, c.path);
    }
    stable_sort_sorted(keep(all, f), le);
}

/// The rows of the tables show what the columns are called.
pub proof fn rows_show_their_columns(s: SymbolView, p: ProjectView, k: PackageView)
    ensures
        symbol_row(s).len() == 4 && symbol_row(s)[0] == s.name && symbol_row(s)[1] == s.kind.name() && symbol_row(s)[2]
            == s.language.name() && symbol_row(s)[3] == s.file_path,
        project_row(p).len() == 4 && project_row(p)[0] == p.name && project_row(p)[1] == p.language.name()
            && project_row(p)[2] == p.kind && project_row(p)[3] == p.path,
        package_row(k).len() == 4 && package_row(k)[0] == k.name && package_row(k)[2] == k.ecosystem && package_row(
            k,
        )[3] == k.dependency_kind,
        k.version.len() > 0 ==> package_row(k)[1] == k.version,
        k.version.len() == 0 ==> package_row(k)[1] == "(unversioned)"@,
{
}

/// Every file that imports a package is named on a line of its own, behind two blanks.
pub proof fn every_importer_is_named(package: Seq<char>, files: Seq<Seq<char>>, i: int)
    requires
        0 <= i < files.len(),
    ensures
        importer_lines(package, files).len() == files.len() + 1,
        importer_lines(package, files)[i + 1] == "  "@ + files[i],
        has(importer_lines(package, files)[0], package),
{
    let head = "Files importing `"@ + package + "`:"@;
    assert(importer_lines(package, files)[0] == head);
    assert(crate::text::occurs_at(head, package, "Files importing `"@.len() as int)) by {
        let n = "Files importing `"@.len() as int;
        assert(head.subrange(n, n + package.len()) =~= package);
    }
}

// --- related ----------------------------------------------------------------------------------
/// `related` starts from the symbol where one is given, else from the file, and
/// explores as deep as asked.
pub proof fn related_starts_from_what_is_given<S: GraphStore>(h: Seq<StoreWrite>, args: RelatedArgs)
    ensures
        args.symbol matches Some(s) ==> seed_of(args) == Some(s@) && items_asked::<S>(h, args) == related_files_of_symbol::<
            S,
        >(h, s@, args.depth),
        args.symbol is None ==> (args.file matches Some(f) ==> seed_of(args) == Some(f@) && items_asked::<S>(h, args)
            == related_files_of_file::<S>(h, f@, args.depth)),
        args.symbol is None && args.file is None ==> seed_of(args) is None,
{
}

/// Every related item is shown: its path, and behind it its reason.
pub proof fn every_related_item_is_shown(items: Seq<RelatedView>, i: int)
    requires
        0 <= i < items.len(),
    ensures
        exists|k: int|
            0 <= k < related_lines(items).len() - 1 && #[trigger] related_lines(items)[k] == "  "@ + items[i].path
                && related_lines(items)[k + 1] == "    reason: "@ + items[i].reason,
    decreases items.len(),
{
    let rest = items.drop_last();
    let all = related_lines(items);
    let n = items.len() - 1;
    assert(items[n] == items.last());
    let m = all.len() as int;
    assert(all[m - 2] == "  "@ + items.last().path);
    assert(all[m - 1] == "    reason: "@ + items.last().reason);
    if i < n {
        every_related_item_is_shown(rest, i);
        let before = related_lines(rest);
        let k = choose|k: int|
            0 <= k < before.len() - 1 && #[trigger] before[k] == "  "@ + rest[i].path && before[k + 1] == "    reason: "@
                + rest[i].reason;
        assert(all[k] == before[k]);
        assert(all[k + 1] == before[k + 1]);
    }
}

/// Items found directly come under a heading of their own, and those related under
/// another; an empty line stands between the two.
pub proof fn related_items_come_under_headings(direct: Seq<RelatedView>, x: RelatedView, y: RelatedView)
    requires
        direct.len() > 0,
        direct.last().depth != x.depth,
        y.depth == x.depth,
    ensures
        related_lines(seq![x])[0] == (if x.depth == 0 {
            "Direct:"@
        } else {
            "Related:"@
        }),
        related_lines(direct.push(x)) == related_lines(direct) + seq![""@] + related_lines(seq![x]),
        related_lines(direct.push(x).push(y)) == related_lines(direct.push(x)) + seq![
            "  "@ + y.path,
            "    reason: "@ + y.reason,
        ],
{
    let one = seq![x];
    assert(one.drop_last() =~= Seq::empty());
    assert(one.last() == x);
    assert(direct.push(x).drop_last() =~= direct);
    assert(direct.push(x).push(y).drop_last() =~= direct.push(x));
    assert(related_lines(one.drop_last()).len() == 0);
    assert(related_lines(direct.push(x)) =~= related_lines(direct) + seq![""@] + related_lines(one));
    assert(related_lines(direct.push(x).push(y)) =~= related_lines(direct.push(x)) + seq![
        "  "@ + y.path,
        "    reason: "@ + y.reason,
    ]);
}

/// A package that no file imports is named in the one line that says so.
pub proof fn no_importers_is_said(package: Seq<char>)
    ensures
        importer_lines(package, Seq::empty()).len() == 1,
        has(importer_lines(package, Seq::empty())[0], package),
{
    let said = "No indexed files import `"@ + package + "`."@;
    let n = "No indexed files import `"@.len() as int;
    assert(importer_lines(package, Seq::empty())[0] == said);
    assert(said.subrange(n, n + package.len()) =~= package);
    assert(crate::text::occurs_at(said, package, n));
}

// --- pack -------------------------------------------------------------------------------------
/// A request for a pack holds what the arguments say: the scope that is given (the
/// first of changed files, path, symbol and query), the budget and the format where
/// they are given and the configured ones otherwise, and every switch as it stands.
pub proof fn pack_request_is_as_asked(args: &PackArgs, config: &PackConfig, r: Result<PackRequest, SynapseError>)
    requires
        call_ensures(pack_request, (args, config), r),
    ensures
        r is Err ==> !args.changed && args.path is None && args.symbol is None && args.query is None || PackFormat::named(
            lower(
                match args.format {
                    Some(f) => f@,
                    None => config.default_format@,
                },
            ),
        ) is None,
        r matches Ok(q) ==> {
            &&& args.changed ==> q.mode is Changed
            &&& !args.changed ==> (args.path matches Some(p) ==> (q.mode matches PackMode::Path(x) && x@ == p@))
            &&& !args.changed && args.path is None ==> (args.symbol matches Some(s) ==> (q.mode matches
                PackMode::Symbol(x) && x@ == s@))
            &&& !args.changed && args.path is None && args.symbol is None ==> (args.query matches Some(t) && (q.mode
                matches PackMode::Query(x) && x@ == t@))
            &&& args.budget matches Some(b) ==> q.budget == b
            &&& args.budget is None ==> q.budget == config.default_budget
            &&& q.depth == args.depth
            &&& q.include_tests == args.include_tests
            &&& q.include_config == args.include_config
            &&& q.include_diff == args.include_diff
            &&& q.dry_run == args.dry_run
            &&& q.explain == args.explain
            &&& Some(q.format) == PackFormat::named(
                lower(
                    match args.format {
                        Some(f) => f@,
                        None => config.default_format@,
                    },
                ),
            )
        },
{
    if let Ok(q) = r {
        assert(asked_scope(*args) == Some(scope_of(q.mode)));
    }
}

/// `--explain` shows of every selected file the path and the reason, and marks those
/// that were trimmed.
pub proof fn every_selected_file_is_explained(sel: Seq<SelectedView>, total: usize, i: int)
    requires
        0 <= i < sel.len(),
    ensures
        explanation(sel, total).len() == 2 * sel.len() + 1,
        has(explanation(sel, total)[2 * i + 1], sel[i].path),
        !sel[i].included ==> " [trimmed]"@.len() <= explanation(sel, total)[2 * i + 1].len() && explanation(
            sel,
            total,
        )[2 * i + 1].skip(explanation(sel, total)[2 * i + 1].len() - " [trimmed]"@.len()) == " [trimmed]"@,
        explanation(sel, total)[2 * i + 2] == "       "@ + sel[i].reason,
{
    explained_pairs(sel, i);
    let line = explained_all(sel)[2 * i];
    let f = sel[i];
    assert(explanation(sel, total)[2 * i + 1] == line);
    let pre = "  ["@ + crate::text::decimal(f.tier as nat) + "] "@;
    let n = pre.len() as int;
    assert(line.subrange(n, n + f.path.len()) =~= f.path);
    assert(crate::text::occurs_at(line, f.path, n));
    if !f.included {
        assert(line.skip(line.len() - " [trimmed]"@.len()) =~= " [trimmed]"@);
    }
}

proof fn explained_pairs(sel: Seq<SelectedView>, i: int)
    requires
        0 <= i < sel.len(),
    ensures
        explained_all(sel).len() == 2 * sel.len(),
        explained_all(sel)[2 * i] == explained(sel[i])[0],
        explained_all(sel)[2 * i + 1] == explained(sel[i])[1],
    decreases sel.len(),
{
    let rest = sel.drop_last();
    if sel.len() > 1 {
        explained_pairs(
            rest,
            if i < rest.len() {
                i
            } else {
                0
            },
        );
    } else {
        assert(explained_all(rest).len() == 0);
    }
    if i < rest.len() {
        assert(rest[i] == sel[i]);
    }
}

// --- init and clean -----------------------------------------------------------------------------
/// `init` refuses exactly where a config is there already and it was not forced.
pub proof fn init_refuses_to_overwrite(path: &str, present: bool, args: &InitArgs, r: Result<(), SynapseError>)
    requires
        call_ensures(may_init, (path, present, args), r),
    ensures
        r is Err <==> present && !args.force,
{
}

/// `clean` removes what was asked for, everything with `--all`, and nothing else.
pub proof fn clean_removes_what_is_asked(args: CleanArgs)
    ensures
        cleaned(args).contains("cache"@) <==> args.cache || args.all,
        cleaned(args).contains("graph"@) <==> args.index || args.all,
        cleaned(args).contains("packs"@) <==> args.packs || args.all,
        forall|i: int|
            0 <= i < cleaned(args).len() ==> #[trigger] cleaned(args)[i] == "cache"@ || cleaned(args)[i] == "graph"@
                || cleaned(args)[i] == "packs"@,
{
    reveal_strlit("cache");
    reveal_strlit("graph");
    reveal_strlit("packs");
    assert("cache"@[0] != "graph"@[0] && "cache"@[0] != "packs"@[0] && "graph"@[0] != "packs"@[0]);
    let all = cleaned(args);
    if args.cache || args.all {
        assert(all[0] == "cache"@);
    }
    if args.packs || args.all {
        assert(all[all.len() - 1] == "packs"@);
    }
    if args.index || args.all {
        if args.cache || args.all {
            assert(all[1] == "graph"@);
        } else {
            assert(all[0] == "graph"@);
        }
    }
}

/// What the explorer is asked for is what the arguments say.
pub proof fn explorer_is_as_asked(args: &ExploreArgs, r: ExploreOptions)
    requires
        call_ensures(explore_options, (args,), r),
    ensures
        r.port == args.port,
        r.read_write == args.read_write,
        r.detach == args.detach,
        r.in_memory == args.in_memory,
        r.image@ == args.image@,
        r.tag@ == args.tag@,
{
}

// --- status -----------------------------------------------------------------------------------
/// A candidate is stale where it is not indexed, or where its content has another
/// hash than it was indexed with; one that cannot be read is not.
pub proof fn stale_means_changed(indexed: Seq<FileView>, rel: Seq<char>, bytes: Option<Seq<u8>>, f: FileView)
    ensures
        (forall|g: FileView| #[trigger] indexed.contains(g) ==> g.path != rel) ==> stale(indexed, rel, bytes),
        indexed.contains(f) && f.path == rel && (forall|g: FileView| #[trigger]
            indexed.contains(g) && g.path == rel ==> g == f) ==> (stale(indexed, rel, bytes) <==> bytes is Some
            && blake3_hex(bytes->0) != f.hash),
{
    let p = |g: FileView| g.path == rel;
    first_found(indexed, p);
    if indexed.contains(f) && f.path == rel {
        assert(p(indexed[indexed.index_of(f)]));
    }
}

/// The list of stale files holds exactly the stale candidates.
pub proof fn stale_files_are_the_stale_candidates(
    indexed: Seq<FileView>,
    candidates: Seq<Seq<char>>,
    contents: Seq<Option<Vec<u8>>>,
    n: nat,
    p: Seq<char>,
)
    requires
        n <= candidates.len(),
        contents.len() == candidates.len(),
    ensures
        stale_among(indexed, candidates, contents, n).contains(p) <==> exists|i: int|
            0 <= i < n && #[trigger] candidates[i] == p && stale(
                indexed,
                p,
                match contents[i] {
                    Some(b) => Some(b@),
                    None => None,
                },
            ),
    decreases n,
{
    if n > 0 {
        let i = n - 1;
        stale_files_are_the_stale_candidates(indexed, candidates, contents, i as nat, p);
        let rest = stale_among(indexed, candidates, contents, i as nat);
        let all = stale_among(indexed, candidates, contents, n);
        if rest.contains(p) {
            assert(all[rest.index_of(p)] == p);
        }
        if all.contains(p) {
            let k = all.index_of(p);
            if k < rest.len() {
                assert(rest[k] == p);
            } else {
                assert(candidates[i] == p);
            }
        }
        if all.len() > rest.len() {
            assert(all[rest.len() as int] == candidates[i]);
        }
    }
}

/// The report tells the configured names, the counts that were found, and whether
/// anything is indexed at all.
pub proof fn report_tells_what_was_found(
    config: &SynapseConfig,
    stats: IndexStats,
    indexed: &Vec<IndexedFile>,
    found: &Scan,
    git: GitInfo,
    origin: &Option<Value>,
    head: &Option<String>,
    r: Report,
)
    requires
        call_ensures(report, (config, stats, indexed, found, git, origin, head), r),
    ensures
        r.repo_name@ == config.repo.name@,
        r.backend@ == config.graph.backend@,
        r.graph_path@ == config.graph.path@,
        r.stats == stats,
        r.ready <==> indexed@.len() > 0,
        r.stale == found.stale@.len(),
        r.untracked == found.untracked@.len(),
        r.branch == git.branch,
        r.commit == git.commit,
{
}

/// A pulled graph is stale where its commit and the local one are no abbreviations of
/// each other, and that is not told where one of them is not known.
pub proof fn origin_staleness(graph: Seq<char>, head: Seq<char>, rest: Seq<char>)
    ensures
        origin_stale_of(Some(graph), Some(graph)) == Some(false),
        origin_stale_of(Some(head), Some(head + rest)) == Some(false),
        origin_stale_of(Some(head + rest), Some(head)) == Some(false),
        graph.len() == head.len() && graph != head ==> origin_stale_of(Some(graph), Some(head)) == Some(true),
        origin_stale_of(None, Some(head)) is None,
        origin_stale_of(Some(graph), None) is None,
{
    assert(graph =~= graph.take(graph.len() as int));
    assert(head =~= (head + rest).take(head.len() as int));
    if graph.len() == head.len() && graph.is_prefix_of(head) {
        assert(graph =~= head);
    }
    if graph.len() == head.len() && head.is_prefix_of(graph) {
        assert(graph =~= head);
    }
}

// --- ignoring the graph ---------------------------------------------------------------------------
/// What is written to the ignore file keeps everything that was there.
pub proof fn ignoring_keeps_what_was_there(text: Seq<char>, graph_path: Seq<char>)
    ensures
        text.is_prefix_of(with_entry(text, graph_path)),
        with_entry(text, graph_path).last() == '\n',
        has(with_entry(text, graph_path), ignore_entry(graph_path)),
{
    let w = with_entry(text, graph_path);
    assert(text =~= w.take(text.len() as int));
    reveal_strlit("\n");
    let e = ignore_entry(graph_path);
    let i = w.len() - 1 - e.len();
    assert(w.subrange(i, i + e.len()) =~= e);
    assert(crate::text::occurs_at(w, e, i));
}

/// The entry names the directory of the graph, with one slash behind it; a file that
/// has such a line, or ignores the whole program directory, is covered.
pub proof fn covering_lines(text: Seq<char>, graph_path: Seq<char>, i: int)
    requires
        0 <= i < lines(text).len(),
        trim(lines(text)[i]) == ignore_entry(graph_path) || trim(lines(text)[i]) == ".synapse/"@ || trim(lines(text)[i])
            == ".synapse"@ || trim(lines(text)[i]) == trim_end_char(graph_path, '/') || trim(lines(text)[i])
            == "**/synapse.lbug"@,
    ensures
        is_covered(text, graph_path),
        ignore_entry(graph_path).last() == '/',
{
    reveal_strlit("/");
    assert(covers(lines(text)[i], graph_path));
}

/// The entry stands on a line of its own, below an empty line where the file held
/// anything, and covers the graph: nothing is added a second time.
pub proof fn ignoring_is_done_once(text: Seq<char>, graph_path: Seq<char>)
    requires
        !ignore_entry(graph_path).contains('\n'),
        trim(ignore_entry(graph_path)) == ignore_entry(graph_path),
    ensures
        is_covered(with_entry(text, graph_path), graph_path),
        lines(with_entry(text, graph_path)).contains(ignore_entry(graph_path)),
        text.len() > 0 ==> has(
            with_entry(text, graph_path),
            "\n\n# SimCube Synapse local graph (share via `synapse push`, don't commit)\n"@,
        ),
{
    let e = ignore_entry(graph_path);
    let w = with_entry(text, graph_path);
    let note = "\n# SimCube Synapse local graph (share via `synapse push`, don't commit)\n"@;
    let spaced = "\n\n# SimCube Synapse local graph (share via `synapse push`, don't commit)\n"@;
    reveal_strlit("\n# SimCube Synapse local graph (share via `synapse push`, don't commit)\n");
    reveal_strlit("\n\n# SimCube Synapse local graph (share via `synapse push`, don't commit)\n");
    reveal_strlit("\n");
    reveal_strlit("/");
    let start = if text.len() > 0 && text.last() != '\n' {
        text.push('\n')
    } else {
        text
    };
    assert(spaced =~= seq!['\n'] + note);
    if text.len() > 0 {
        let k = start.len() - 1;
        assert(w.subrange(k, k + spaced.len()) =~= spaced);
        assert(crate::text::occurs_at(w, spaced, k));
    }
    let before = start + note.drop_last();
    assert(note =~= note.drop_last().push('\n'));
    assert(e.last() == '/');
    assert(w =~= before + seq!['\n'] + (e + seq!['\n']));
    last_line_is_a_line(before, e);
    let all = lines(w);
    let i = all.index_of(e);
    assert(all[i] == e);
    assert(covers(all[i], graph_path));
}

proof fn last_line_is_a_line(before: Seq<char>, e: Seq<char>)
    requires
        !e.contains('\n'),
        e.len() > 0,
        e.last() != '\r',
    ensures
        lines(before + seq!['\n'] + (e + seq!['\n'])).contains(e),
    decreases before.len(),
{
    let tail = e + seq!['\n'];
    let w = before + seq!['\n'] + tail;
    crate::text::first_index_bounds(w, '\n');
    let i = crate::text::first_index(w, '\n');
    let rest = w.skip(i + 1);
    assert(w[before.len() as int] == '\n');
    assert(i <= before.len());
    if i == before.len() {
        assert(rest =~= tail);
        first_line_comes_first(e, Seq::empty());
        assert(e + seq!['\n'] + Seq::<char>::empty() =~= tail);
        assert(lines(tail)[0] == e);
        assert(lines(w)[1] == lines(rest)[0]);
    } else {
        let shorter = before.skip(i + 1);
        assert(rest =~= shorter + seq!['\n'] + tail);
        last_line_is_a_line(shorter, e);
        let k = lines(rest).index_of(e);
        assert(lines(w)[k + 1] == lines(rest)[k]);
    }
}

/// The summary of a run tells how many files were indexed, and names what was
/// skipped and removed only where there was any.
pub proof fn summary_tells_the_counts(o: crate::indexer::index::IndexOutcome, s: IndexStats, path: Seq<char>)
    ensures
        index_lines(o, s, path).contains(
            "Indexed "@ + shown_number(o.files_indexed as nat) + " files"@,
        ),
        index_lines(o, s, path).contains(
            "Found "@ + shown_number(s.symbols as nat) + " symbols"@,
        ),
        index_lines(o, s, path).contains(
            "Found "@ + shown_number(s.edges as nat) + " project/package edges"@,
        ),
        o.files_skipped_unchanged > 0 ==> index_lines(o, s, path).contains(
            "Skipped "@ + shown_number(o.files_skipped_unchanged as nat) + " unchanged files"@,
        ),
        o.files_removed > 0 ==> index_lines(o, s, path).contains(
            "Removed "@ + shown_number(o.files_removed as nat) + " deleted files"@,
        ),
        index_lines(o, s, path).contains("Graph stored at "@ + path),
        index_lines(o, s, path).len() == 4 + (if o.files_skipped_unchanged > 0 {
            1int
        } else {
            0
        }) + (if o.files_removed > 0 {
            1int
        } else {
            0
        }),
{
    let all = index_lines(o, s, path);
    assert(all[0] == "Indexed "@ + shown_number(o.files_indexed as nat) + " files"@);
    assert(all[1] == "Found "@ + shown_number(s.symbols as nat) + " symbols"@);
    assert(all[2] == "Found "@ + shown_number(s.edges as nat) + " project/package edges"@);
    assert(all[all.len() - 1] == "Graph stored at "@ + path);
    if o.files_skipped_unchanged > 0 {
        assert(all[3] == "Skipped "@ + shown_number(o.files_skipped_unchanged as nat)
            + " unchanged files"@);
    }
    if o.files_removed > 0 {
        assert(all[all.len() - 2] == "Removed "@ + shown_number(o.files_removed as nat)
            + " deleted files"@);
    }
}

/// The status in JSON tells every count and name under its own key.
pub proof fn status_tells_what_was_found(r: Report, origin: Option<JsonView>)
    ensures
        status_entries(r, origin).contains(item("repo"@, text_unless_empty(r.repo_name@))),
        status_entries(r, origin).contains(item("index"@, JsonView::Text(if r.ready { "ready"@ } else { "empty"@ }))),
        status_entries(r, origin).contains(item("graphBackend"@, JsonView::Text(r.backend@))),
        status_entries(r, origin).contains(item("graphPath"@, JsonView::Text(r.graph_path@))),
        status_entries(r, origin).contains(item("filesIndexed"@, JsonView::Number(decimal(r.stats.files as nat)))),
        status_entries(r, origin).contains(item("symbolsIndexed"@, JsonView::Number(decimal(r.stats.symbols as nat)))),
        status_entries(r, origin).contains(item("projects"@, JsonView::Number(decimal(r.stats.projects as nat)))),
        status_entries(r, origin).contains(item("packages"@, JsonView::Number(decimal(r.stats.packages as nat)))),
        status_entries(r, origin).contains(item("referenceEdges"@, JsonView::Number(decimal(r.stats.reference_edges as nat)))),
        status_entries(r, origin).contains(item("staleFiles"@, JsonView::Number(decimal(r.stale as nat)))),
        status_entries(r, origin).contains(item("untrackedFiles"@, JsonView::Number(decimal(r.untracked as nat)))),
        status_entries(r, origin).contains(item("branch"@, text_or_null(opt_view(r.branch)))),
        status_entries(r, origin).contains(item("commit"@, text_or_null(opt_view(r.commit)))),
        status_entries(r, origin).contains(item("lastIndex"@, JsonView::Text(r.last_index@))),
        origin matches Some(o) ==> status_entries(r, origin).contains(item("origin"@, o)),
        r.origin_stale matches Some(b) ==> status_entries(r, origin).contains(item("originStale"@, JsonView::Bool(b))),
{
    let all = status_entries(r, origin);
    assert(all[0] == item("repo"@, text_unless_empty(r.repo_name@)));
    assert(all[1] == item("index"@, JsonView::Text(if r.ready { "ready"@ } else { "empty"@ })));
    assert(all[2] == item("graphBackend"@, JsonView::Text(r.backend@)));
    assert(all[3] == item("graphPath"@, JsonView::Text(r.graph_path@)));
    assert(all[4] == item("filesIndexed"@, JsonView::Number(decimal(r.stats.files as nat))));
    assert(all[5] == item("symbolsIndexed"@, JsonView::Number(decimal(r.stats.symbols as nat))));
    assert(all[6] == item("projects"@, JsonView::Number(decimal(r.stats.projects as nat))));
    assert(all[7] == item("packages"@, JsonView::Number(decimal(r.stats.packages as nat))));
    assert(all[8] == item("referenceEdges"@, JsonView::Number(decimal(r.stats.reference_edges as nat))));
    assert(all[10] == item("staleFiles"@, JsonView::Number(decimal(r.stale as nat))));
    assert(all[11] == item("untrackedFiles"@, JsonView::Number(decimal(r.untracked as nat))));
    assert(all[12] == item("branch"@, text_or_null(opt_view(r.branch))));
    assert(all[13] == item("commit"@, text_or_null(opt_view(r.commit))));
    assert(all[14] == item("lastIndex"@, JsonView::Text(r.last_index@)));
    if let Some(o) = origin {
        assert(all[15] == item("origin"@, o));
    }
    if let Some(b) = r.origin_stale {
        assert(all[16] == item("originStale"@, JsonView::Bool(b)));
    }
}

/// The status in words tells the same.
pub proof fn status_lines_tell_what_was_found(r: Report, origin: Option<JsonView>)
    ensures
        ({
            let all = status_lines_of(r, origin);
            &&& all.len() >= 9
            &&& all[0] == "Repo: "@ + (if r.repo_name@.len() == 0 {
                "(unnamed)"@
            } else {
                r.repo_name@
            })
            &&& all[1] == "Index: "@ + (if r.ready {
                "ready"@
            } else {
                "empty"@
            })
            &&& all[4] == "Files indexed: "@ + shown_number(r.stats.files as nat)
            &&& all[5] == "Symbols indexed: "@ + shown_number(r.stats.symbols as nat)
            &&& all[6] == "Reference edges: "@ + shown_number(r.stats.reference_edges as nat)
            &&& all[7] == "Stale files: "@ + shown_number(r.stale as nat)
            &&& all[8] == "Untracked files: "@ + shown_number(r.untracked as nat)
            &&& r.last_index@.len() > 0 ==> all.contains("Last index: "@ + r.last_index@)
            &&& origin is None && r.last_index@.len() == 0 ==> all.len() == 9
        }),
{
    let all = status_lines_of(r, origin);
    if r.last_index@.len() > 0 {
        assert(all[9] == "Last index: "@ + r.last_index@);
    }
}

} // verus!
