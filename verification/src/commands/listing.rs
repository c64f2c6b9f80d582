//! Lists for the terminal: symbols, related files, packages and projects.

use crate::cli::{PackagesArgs, RelatedArgs};
use crate::errors::SynapseError;
use crate::graph::model::{
    IndexedPackage, IndexedProject, IndexedSymbol, PackageView, ProjectView, RelatedItem, RelatedView, SymbolView,
};
use crate::graph::store::{GraphStore, StoreWrite};
use crate::lists::{keep, retain, sort_views, take_next, take_none, take_whole, views_push};
use crate::output::table::{cell_texts, render, table, texts};
use crate::pack::related::{related_files_of_file, related_files_of_symbol, related_for_file, related_for_symbol};
use crate::sorting::stable_sort;
use crate::text::{
    before, cat, cat3, contains_ignore_ascii_case, has, lower, opt_view, same, same_ignore_ascii_case, text_le, text_lt,
    views,
};
use vstd::prelude::*;

verus! {

// --- symbols ---------------------------------------------------------------------------------
pub open spec fn symbol_row(s: SymbolView) -> Seq<Seq<char>> {
    seq![s.name, s.kind.name(), s.language.name(), s.file_path]
}

/// The table that `symbols` prints.
pub open spec fn symbol_table_text(symbols: Seq<SymbolView>) -> Seq<char> {
    table(
        seq!["Symbol"@, "Kind"@, "Language"@, "File"@],
        symbols.map_values(|s: SymbolView| symbol_row(s)),
    )
}

fn headers4<'a>(a: &'a str, b: &'a str, c: &'a str, d: &'a str) -> (r: Vec<&'a str>)
    ensures
        texts(r@) == seq![a@, b@, c@, d@],
{
    let mut v: Vec<&'a str> = Vec::new();
    v.push(a);
    v.push(b);
    v.push(c);
    v.push(d);
    assert(texts(v@) =~= seq![a@, b@, c@, d@]);
    v
}

fn row4(a: &str, b: &str, c: &str, d: &str) -> (r: Vec<String>)
    ensures
        views(r@) == seq![a@, b@, c@, d@],
{
    let mut v: Vec<String> = Vec::new();
    v.push(a.to_owned());
    v.push(b.to_owned());
    v.push(c.to_owned());
    v.push(d.to_owned());
    assert(views(v@) =~= seq![a@, b@, c@, d@]);
    v
}

proof fn cell_texts_push(rows: Seq<Vec<String>>, row: Vec<String>)
    ensures
        cell_texts(rows.push(row)) == cell_texts(rows).push(views(row@)),
{
    assert(cell_texts(rows.push(row)) =~= cell_texts(rows).push(views(row@)));
}

/// The table that `symbols` prints.
pub fn symbol_table(symbols: &Vec<IndexedSymbol>) -> (r: String)
    ensures
        r@ == symbol_table_text(views(symbols@)),
{
    let ghost target = views(symbols@).map_values(|s: SymbolView| symbol_row(s));
    let mut rows: Vec<Vec<String>> = Vec::new();
    let mut i: usize = 0;
    assert(cell_texts(rows@) =~= target.take(0));
    while i < symbols.len()
        invariant
            i <= symbols@.len(),
            target == views(symbols@).map_values(|s: SymbolView| symbol_row(s)),
            cell_texts(rows@) == target.take(i as int),
        decreases symbols@.len() - i,
    {
        let s = &symbols[i];
        let row = row4(s.name.as_str(), s.kind.as_str(), s.language.as_str(), s.file_path.as_str());
        proof {
            take_next(target, i as int);
            assert(views(symbols@)[i as int] == s@);
            cell_texts_push(rows@, row);
        }
        rows.push(row);
        i += 1;
    }
    proof {
        take_whole(target);
    }
    let headers = headers4("Symbol", "Kind", "Language", "File");
    render(headers.as_slice(), rows.as_slice())
}

// --- related -----------------------------------------------------------------------------------
/// What `related` prints of the items: a heading whenever the depth changes, then
/// path and reason.
pub open spec fn related_lines(items: Seq<RelatedView>) -> Seq<Seq<char>>
    decreases items.len(),
{
    if items.len() == 0 {
        Seq::empty()
    } else {
        let rest = items.drop_last();
        let x = items.last();
        let header = if x.depth == 0 {
            "Direct:"@
        } else {
            "Related:"@
        };
        let head = if rest.len() == 0 {
            seq![header]
        } else if rest.last().depth != x.depth {
            seq![""@, header]
        } else {
            Seq::empty()
        };
        related_lines(rest) + head + seq!["  "@ + x.path, "    reason: "@ + x.reason]
    }
}

/// The seed that `related` was given: a symbol before a file.
pub open spec fn seed_of(args: RelatedArgs) -> Option<Seq<char>> {
    match opt_view(args.symbol) {
        Some(s) => Some(s),
        None => opt_view(args.file),
    }
}

/// The items related to the seed of the arguments.
pub open spec fn items_asked<S: GraphStore>(h: Seq<StoreWrite>, args: RelatedArgs) -> Seq<RelatedView> {
    match opt_view(args.symbol) {
        Some(s) => related_files_of_symbol::<S>(h, s, args.depth),
        None => related_files_of_file::<S>(h, opt_view(args.file)->0, args.depth),
    }
}

/// The seed and the items that `related` lists. Without a seed it is refused.
pub fn related<S: GraphStore>(store: &S, args: &RelatedArgs) -> (r: Result<(String, Vec<RelatedItem>), SynapseError>)
    requires
        store.valid(),
    ensures
        S::infallible() ==> r is Ok == seed_of(*args) is Some,
        r matches Ok((seed, items)) ==> seed_of(*args) == Some(seed@) && views(items@) == items_asked::<S>(
            store.history(),
            *args,
        ),
        seed_of(*args) is None ==> (r matches Err(e) && e is Invalid && e.text()
            == "provide --symbol <name> or --file <path>"@),
{
    match &args.symbol {
        Some(s) => match related_for_symbol(store, s.as_str(), args.depth) {
            Ok(items) => Ok((s.clone(), items)),
            Err(e) => Err(e),
        },
        None => match &args.file {
            Some(f) => match related_for_file(store, f.as_str(), args.depth) {
                Ok(items) => Ok((f.clone(), items)),
                Err(e) => Err(e),
            },
            None => Err(SynapseError::Invalid("provide --symbol <name> or --file <path>".to_owned())),
        },
    }
}

/// What `related` prints, for a seed.
pub fn related_listing(seed: &str, items: &Vec<RelatedItem>) -> (r: Vec<String>)
    ensures
        views(r@) == seq!["Related to "@ + seed@, ""@] + related_lines(views(items@)),
{
    let ghost all = views(items@);
    let ghost top = seq!["Related to "@ + seed@, ""@];
    let mut out: Vec<String> = Vec::new();
    out.push(cat("Related to ", seed));
    out.push("".to_owned());
    let mut i: usize = 0;
    proof {
        take_none(all);
        assert(views(out@) =~= top + related_lines(all.take(0)));
    }
    while i < items.len()
        invariant
            i <= items@.len(),
            all == views(items@),
            views(out@) == top + related_lines(all.take(i as int)),
        decreases items@.len() - i,
    {
        let ghost start = views(out@);
        let x = &items[i];
        proof {
            take_next(all, i as int);
            assert(all[i as int] == x@);
            if i > 0 {
                assert(all.take(i as int).last() == items@[i - 1]@);
            }
        }
        let header = if x.depth == 0 {
            "Direct:"
        } else {
            "Related:"
        };
        if i == 0 {
            out.push(header.to_owned());
        } else if items[i - 1].depth != x.depth {
            out.push("".to_owned());
            out.push(header.to_owned());
        }
        out.push(cat("  ", x.path.as_str()));
        out.push(cat("    reason: ", x.reason.as_str()));
        proof {
            let head = if i == 0 {
                seq![header@]
            } else if items@[i - 1]@.depth != x@.depth {
                seq![""@, header@]
            } else {
                Seq::empty()
            };
            assert(views(out@) =~= start + (head + seq!["  "@ + x@.path, "    reason: "@ + x@.reason]));
            assert(views(out@) =~= top + related_lines(all.take(i as int + 1)));
        }
        i += 1;
    }
    proof {
        take_whole(all);
    }
    out
}

// --- packages ------------------------------------------------------------------------------------
/// What `packages --importers` prints.
pub open spec fn importer_lines(package: Seq<char>, files: Seq<Seq<char>>) -> Seq<Seq<char>> {
    if files.len() == 0 {
        seq!["No indexed files import `"@ + package + "`."@]
    } else {
        seq!["Files importing `"@ + package + "`:"@] + files.map_values(|f: Seq<char>| "  "@ + f)
    }
}

/// What `packages --importers` prints: the files that import a package.
pub fn importer_listing(package: &str, files: &Vec<String>) -> (r: Vec<String>)
    ensures
        views(r@) == importer_lines(package@, views(files@)),
{
    let mut out: Vec<String> = Vec::new();
    if files.len() == 0 {
        out.push(cat3("No indexed files import `", package, "`."));
        assert(views(out@) =~= importer_lines(package@, views(files@)));
        return out;
    }
    out.push(cat3("Files importing `", package, "`:"));
    let ghost head = seq!["Files importing `"@ + package@ + "`:"@];
    let ghost target = views(files@).map_values(|f: Seq<char>| "  "@ + f);
    let mut i: usize = 0;
    assert(views(out@) =~= head + target.take(0));
    while i < files.len()
        invariant
            i <= files@.len(),
            target == views(files@).map_values(|f: Seq<char>| "  "@ + f),
            views(out@) == head + target.take(i as int),
        decreases files@.len() - i,
    {
        let line = cat("  ", files[i].as_str());
        proof {
            take_next(target, i as int);
            assert(views(files@)[i as int] == files@[i as int]@);
            views_push(out@, line);
            assert(head + target.take(i as int + 1) =~= (head + target.take(i as int)).push(line@));
        }
        out.push(line);
        i += 1;
    }
    proof {
        take_whole(target);
    }
    out
}

/// The name passes the search of the arguments.
pub open spec fn name_passes(args: PackagesArgs, name: Seq<char>) -> bool {
    opt_view(args.query) matches Some(q) ==> has(lower(name), lower(q))
}

fn passes(args: &PackagesArgs, name: &str) -> (r: bool)
    ensures
        r == name_passes(*args, name@),
{
    match &args.query {
        Some(q) => contains_ignore_ascii_case(name, q.as_str()),
        None => true,
    }
}

pub open spec fn project_path_order() -> spec_fn(ProjectView, ProjectView) -> bool {
    |a: ProjectView, b: ProjectView| text_le(a.path, b.path)
}

/// The projects that are asked for, by path: name or path pass the search.
pub open spec fn projects_asked(args: PackagesArgs, all: Seq<ProjectView>) -> Seq<ProjectView> {
    stable_sort(
        keep(all, |p: ProjectView| name_passes(args, p.name) || name_passes(args, p.path)),
        project_path_order(),
    )
}

/// The projects that `packages --projects` lists.
pub fn select_projects(args: &PackagesArgs, all: Vec<IndexedProject>) -> (r: Vec<IndexedProject>)
    ensures
        views(r@) == projects_asked(*args, views(all@)),
{
    let f = |p: &IndexedProject| -> (r: bool)
        ensures
            r == (name_passes(*args, p@.name) || name_passes(*args, p@.path)),
        {
            passes(args, p.name.as_str()) || passes(args, p.path.as_str())
        };
    let kept = retain(
        all,
        f,
        Ghost(|p: ProjectView| name_passes(*args, p.name) || name_passes(*args, p.path)),
    );
    let le = |a: &IndexedProject, b: &IndexedProject| -> (r: bool)
        ensures
            r == text_le(a@.path, b@.path),
        {
            !before(b.path.as_str(), a.path.as_str())
        };
    sort_views(kept, le, Ghost(project_path_order()))
}

pub open spec fn project_row(p: ProjectView) -> Seq<Seq<char>> {
    seq![p.name, p.language.name(), p.kind, p.path]
}

/// The table that `packages --projects` prints.
pub fn project_table(projects: &Vec<IndexedProject>) -> (r: String)
    ensures
        r@ == table(
            seq!["Project"@, "Language"@, "Kind"@, "Path"@],
            views(projects@).map_values(|p: ProjectView| project_row(p)),
        ),
{
    let ghost target = views(projects@).map_values(|p: ProjectView| project_row(p));
    let mut rows: Vec<Vec<String>> = Vec::new();
    let mut i: usize = 0;
    assert(cell_texts(rows@) =~= target.take(0));
    while i < projects.len()
        invariant
            i <= projects@.len(),
            target == views(projects@).map_values(|p: ProjectView| project_row(p)),
            cell_texts(rows@) == target.take(i as int),
        decreases projects@.len() - i,
    {
        let p = &projects[i];
        let row = row4(p.name.as_str(), p.language.as_str(), p.kind.as_str(), p.path.as_str());
        proof {
            take_next(target, i as int);
            assert(views(projects@)[i as int] == p@);
            cell_texts_push(rows@, row);
        }
        rows.push(row);
        i += 1;
    }
    proof {
        take_whole(target);
    }
    let headers = headers4("Project", "Language", "Kind", "Path");
    render(headers.as_slice(), rows.as_slice())
}

pub open spec fn package_name_order() -> spec_fn(PackageView, PackageView) -> bool {
    |a: PackageView, b: PackageView| text_lt(a.name, b.name) || (a.name == b.name && text_le(a.version, b.version))
}

/// The package passes the search and the ecosystem filter of the arguments.
pub open spec fn package_passes(args: PackagesArgs, p: PackageView) -> bool {
    name_passes(args, p.name) && (opt_view(args.ecosystem) matches Some(e) ==> lower(p.ecosystem) == lower(e))
}

/// The packages that are asked for, by name and version.
pub open spec fn packages_asked(args: PackagesArgs, all: Seq<PackageView>) -> Seq<PackageView> {
    stable_sort(keep(all, |p: PackageView| package_passes(args, p)), package_name_order())
}

/// The packages that `packages` lists.
pub fn select_packages(args: &PackagesArgs, all: Vec<IndexedPackage>) -> (r: Vec<IndexedPackage>)
    ensures
        views(r@) == packages_asked(*args, views(all@)),
{
    let f = |p: &IndexedPackage| -> (r: bool)
        ensures
            r == package_passes(*args, p@),
        {
            passes(args, p.name.as_str()) && (match &args.ecosystem {
                Some(e) => same_ignore_ascii_case(p.ecosystem.as_str(), e.as_str()),
                None => true,
            })
        };
    let kept = retain(all, f, Ghost(|p: PackageView| package_passes(*args, p)));
    let le = |a: &IndexedPackage, b: &IndexedPackage| -> (r: bool)
        ensures
            r == package_name_order()(a@, b@),
        {
            before(a.name.as_str(), b.name.as_str()) || (same(a.name.as_str(), b.name.as_str()) && !before(
                b.version.as_str(),
                a.version.as_str(),
            ))
        };
    sort_views(kept, le, Ghost(package_name_order()))
}

pub open spec fn package_row(p: PackageView) -> Seq<Seq<char>> {
    seq![
        p.name,
        if p.version.len() == 0 {
            "(unversioned)"@
        } else {
            p.version
        },
        p.ecosystem,
        p.dependency_kind,
    ]
}

/// The table that `packages` prints.
pub fn package_table(packages: &Vec<IndexedPackage>) -> (r: String)
    ensures
        r@ == table(
            seq!["Package"@, "Version"@, "Ecosystem"@, "Kind"@],
            views(packages@).map_values(|p: PackageView| package_row(p)),
        ),
{
    let ghost target = views(packages@).map_values(|p: PackageView| package_row(p));
    let mut rows: Vec<Vec<String>> = Vec::new();
    let mut i: usize = 0;
    assert(cell_texts(rows@) =~= target.take(0));
    while i < packages.len()
        invariant
            i <= packages@.len(),
            target == views(packages@).map_values(|p: PackageView| package_row(p)),
            cell_texts(rows@) == target.take(i as int),
        decreases packages@.len() - i,
    {
        let p = &packages[i];
        let version = if p.version.as_str().is_empty() {
            "(unversioned)"
        } else {
            p.version.as_str()
        };
        let row = row4(p.name.as_str(), version, p.ecosystem.as_str(), p.dependency_kind.as_str());
        proof {
            take_next(target, i as int);
            assert(views(packages@)[i as int] == p@);
            cell_texts_push(rows@, row);
        }
        rows.push(row);
        i += 1;
    }
    proof {
        take_whole(target);
    }
    let headers = headers4("Package", "Version", "Ecosystem", "Kind");
    render(headers.as_slice(), rows.as_slice())
}

} // verus!
