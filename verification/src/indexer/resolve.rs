//! Resolution of names to graph nodes: imports to packages, supertypes and
//! references to symbols.

use crate::errors::SynapseError;
use crate::graph::model::{
    GraphEdge, IndexedPackage, IndexedSymbol, Language, PackageView, SymbolKind, SymbolQueryView, SymbolSearchQuery,
    SymbolView,
};
use crate::graph::store::{GraphStore, StoreWrite};
use crate::indexer::facts::{
    FileImports, FileImportsView, FileReferences, FileReferencesView, FileSupertypes, FileSupertypesView, Reference,
    ReferenceView, SuperHint, Supertype, SupertypeView,
};
use crate::indexer::ids::{package_id, package_id_of};
use crate::lists::{
    first, flat, flat_views, keep, keep_members, keep_of_range, keep_of_sorted, made, pick, pick_views, picked_from,
    select_clones, sort_views, stable_sort_agrees, take_next, take_none, take_whole, text_le_transitive, views_push,
};
use crate::pack::selector::{path_under_prefix, under};
use crate::sorting::{sorted, stable_sort, stable_sort_keeps, stable_sort_sorted, total_preorder};
use crate::text::{
    among, before, before_last, chars_of, opt_view, same, starts_with, text_before_last, text_le, text_lt,
    text_lt_asymmetric, text_lt_laws, text_lt_total, views,
};
use vstd::prelude::*;

verus! {

// --- imports ---------------------------------------------------------------------
/// `pkg` is `ns` itself or a dotted prefix of it.
pub open spec fn dotted_prefix(ns: Seq<char>, pkg: Seq<char>) -> bool {
    ns == pkg || (pkg.is_prefix_of(ns) && ns.len() > pkg.len() && ns[pkg.len() as int] == '.')
}

/// The longest dotted prefix of `ns` among the packages; the first of equals.
pub open spec fn longest_prefix(ns: Seq<char>, packages: Seq<Seq<char>>) -> Option<Seq<char>>
    decreases packages.len(),
{
    if packages.len() == 0 {
        None
    } else {
        let best = longest_prefix(ns, packages.drop_last());
        let p = packages.last();
        if dotted_prefix(ns, p) && (best matches Some(b) ==> p.len() > b.len()) {
            Some(p)
        } else {
            best
        }
    }
}

/// No package that is a dotted prefix is longer than the one found, and one is
/// found whenever there is one.
pub proof fn longest_prefix_is_longest(ns: Seq<char>, packages: Seq<Seq<char>>)
    ensures
        longest_prefix(ns, packages) matches Some(b) ==> packages.contains(b) && dotted_prefix(ns, b),
        forall|i: int|
            0 <= i < packages.len() && dotted_prefix(ns, #[trigger] packages[i]) ==> longest_prefix(ns, packages) is Some
                && packages[i].len() <= longest_prefix(ns, packages)->0.len(),
    decreases packages.len(),
{
    if packages.len() > 0 {
        let rest = packages.drop_last();
        longest_prefix_is_longest(ns, rest);
        assert(packages[packages.len() - 1] == packages.last());
        if longest_prefix(ns, rest) is Some {
            let b = longest_prefix(ns, rest)->0;
            let i = rest.index_of(b);
            assert(packages[i] == b);
        }
        assert forall|i: int| 0 <= i < packages.len() && dotted_prefix(ns, #[trigger] packages[i]) implies
            longest_prefix(ns, packages) is Some && packages[i].len() <= longest_prefix(ns, packages)->0.len() by {
            if i < rest.len() {
                assert(rest[i] == packages[i]);
            }
        }
    }
}

/// Among `packages`, the one whose name is the longest dotted prefix of the C#
/// namespace `ns` (matching on `.` segment boundaries).
pub fn nuget_prefix_match(ns: &str, packages: &Vec<String>) -> (r: Option<String>)
    ensures
        opt_view(r) == longest_prefix(ns@, views(packages@)),
{
    let v = chars_of(ns);
    let mut best: Option<usize> = None;
    let mut best_len: usize = 0;
    let mut i: usize = 0;
    proof {
        take_none(views(packages@));
    }
    while i < packages.len()
        invariant
            i <= packages@.len(),
            v@ == ns@,
            best is Some == longest_prefix(ns@, views(packages@).take(i as int)) is Some,
            best matches Some(k) ==> k < packages@.len() && longest_prefix(ns@, views(packages@).take(i as int)) == Some(
                packages@[k as int]@,
            ) && best_len == packages@[k as int]@.len(),
        decreases packages@.len() - i,
    {
        proof {
            take_next(views(packages@), i as int);
            assert(views(packages@)[i as int] == packages@[i as int]@);
        }
        let p = chars_of(packages[i].as_str());
        let n: usize = p.len();
        let fits = same(ns, packages[i].as_str()) || (v.len() > n && starts_with(ns, packages[i].as_str()) && v[n]
            == '.');
        if fits && (best.is_none() || n > best_len) {
            best = Some(i);
            best_len = n;
        }
        i += 1;
    }
    proof {
        take_whole(views(packages@));
    }
    match best {
        Some(k) => Some(packages[k].clone()),
        None => None,
    }
}

/// The names of the packages of one ecosystem.
pub open spec fn names_in(packages: Seq<PackageView>, ecosystem: Seq<char>) -> Seq<Seq<char>> {
    pick(
        packages,
        |p: PackageView|
            if p.ecosystem == ecosystem {
                Some(p.name)
            } else {
                None
            },
    )
}

fn collect_names(packages: &Vec<IndexedPackage>, ecosystem: &str) -> (r: Vec<String>)
    ensures
        views(r@) == names_in(views(packages@), ecosystem@),
{
    let ghost want = |p: PackageView|
        if p.ecosystem == ecosystem@ {
            Some(p.name)
        } else {
            None
        };
    let f = |p: &IndexedPackage| -> (r: Option<String>)
        ensures
            opt_view(r) == want(p@),
        {
            if same(p.ecosystem.as_str(), ecosystem) {
                Some(p.name.clone())
            } else {
                None
            }
        };
    pick_views(packages, f, Ghost(want))
}

/// The id of the package that an import names: an npm package of exactly that
/// name for JS/TS, the nuget package with the longest dotted prefix for C#.
pub open spec fn imported_package(
    npm: Seq<Seq<char>>,
    nuget: Seq<Seq<char>>,
    language: Language,
    import: Seq<char>,
) -> Option<Seq<char>> {
    match language {
        Language::JavaScript | Language::TypeScript => if npm.contains(import) {
            Some(package_id_of("npm"@, import))
        } else {
            None
        },
        Language::CSharp => match longest_prefix(import, nuget) {
            Some(n) => Some(package_id_of("nuget"@, n)),
            None => None,
        },
        _ => None,
    }
}

fn resolve_import(npm: &Vec<String>, nuget: &Vec<String>, language: Language, import: &str) -> (r: Option<String>)
    ensures
        opt_view(r) == imported_package(views(npm@), views(nuget@), language, import@),
{
    match language {
        Language::JavaScript | Language::TypeScript => if among(npm, import) {
            Some(package_id("npm", import))
        } else {
            None
        },
        Language::CSharp => match nuget_prefix_match(import, nuget) {
            Some(n) => Some(package_id("nuget", n.as_str())),
            None => None,
        },
        _ => None,
    }
}

/// The elements of `s`, each at its first place only.
pub open spec fn firsts(s: Seq<Seq<char>>) -> Seq<Seq<char>>
    decreases s.len(),
{
    if s.len() == 0 {
        s
    } else {
        let kept = firsts(s.drop_last());
        if kept.contains(s.last()) {
            kept
        } else {
            kept.push(s.last())
        }
    }
}

/// The `IMPORTS_PACKAGE` edges of one file, one per package.
pub open spec fn file_import_writes(npm: Seq<Seq<char>>, nuget: Seq<Seq<char>>, f: FileImportsView) -> Seq<StoreWrite> {
    firsts(pick(f.imports, |i: Seq<char>| imported_package(npm, nuget, f.language, i))).map_values(
        |p: Seq<char>| StoreWrite::ImportsPackage(f.file_id, p),
    )
}

/// The `IMPORTS_PACKAGE` edges of all files.
pub open spec fn import_writes(packages: Seq<PackageView>, pending: Seq<FileImportsView>) -> Seq<StoreWrite> {
    let npm = names_in(packages, "npm"@);
    let nuget = names_in(packages, "nuget"@);
    flat(pending, |f: FileImportsView| file_import_writes(npm, nuget, f))
}

fn file_import_edges(npm: &Vec<String>, nuget: &Vec<String>, f: &FileImports) -> (r: Vec<GraphEdge>)
    ensures
        views(r@) == file_import_writes(views(npm@), views(nuget@), f@),
{
    let ghost resolve = |i: Seq<char>| imported_package(views(npm@), views(nuget@), f.language, i);
    let ghost imports = views(f.imports@);
    let mut linked: Vec<String> = Vec::new();
    let mut out: Vec<GraphEdge> = Vec::new();
    let mut i: usize = 0;
    proof {
        take_none(imports);
        assert(views(linked@) =~= Seq::<Seq<char>>::empty());
        assert(views(out@) =~= views(linked@).map_values(|p: Seq<char>| StoreWrite::ImportsPackage(f.file_id@, p)));
    }
    while i < f.imports.len()
        invariant
            i <= f.imports@.len(),
            imports == views(f.imports@),
            resolve == (|i: Seq<char>| imported_package(views(npm@), views(nuget@), f.language, i)),
            views(linked@) == firsts(pick(imports.take(i as int), resolve)),
            views(out@) == views(linked@).map_values(|p: Seq<char>| StoreWrite::ImportsPackage(f.file_id@, p)),
        decreases f.imports@.len() - i,
    {
        proof {
            take_next(imports, i as int);
            assert(imports[i as int] == f.imports@[i as int]@);
        }
        let ghost before_pick = pick(imports.take(i as int), resolve);
        match resolve_import(npm, nuget, f.language, f.imports[i].as_str()) {
            Some(pkg) => {
                proof {
                    assert(before_pick.push(pkg@).drop_last() =~= before_pick);
                }
                if !among(&linked, pkg.as_str()) {
                    let e = GraphEdge::FileImportsPackage { file: f.file_id.clone(), package: pkg.clone() };
                    proof {
                        views_push(out@, e);
                        views_push(linked@, pkg);
                        assert(views(linked@).push(pkg@).map_values(
                            |p: Seq<char>| StoreWrite::ImportsPackage(f.file_id@, p),
                        ) =~= views(linked@).map_values(
                            |p: Seq<char>| StoreWrite::ImportsPackage(f.file_id@, p),
                        ).push(e@));
                    }
                    linked.push(pkg);
                    out.push(e);
                }
            },
            None => {},
        }
        i += 1;
    }
    proof {
        take_whole(imports);
    }
    out
}

/// The `IMPORTS_PACKAGE` edges of all files.
///
/// Matching is ecosystem-specific:
/// * JS/TS imports match an npm package by exact name.
/// * C# `using` namespaces match a nuget package whose name is a dotted prefix
///   of the namespace (e.g. package `Serilog` matches `Serilog.Sinks.Console`);
///   the longest such prefix wins.
pub fn import_edges(packages: &Vec<IndexedPackage>, pending: &Vec<FileImports>) -> (r: Vec<GraphEdge>)
    ensures
        views(r@) == import_writes(views(packages@), views(pending@)),
{
    let npm = collect_names(packages, "npm");
    let nuget = collect_names(packages, "nuget");
    let ghost npm_names = views(npm@);
    let ghost nuget_names = views(nuget@);
    let ghost want = |f: FileImportsView| file_import_writes(npm_names, nuget_names, f);
    let each = |f: &FileImports| -> (r: Vec<GraphEdge>)
        ensures
            views(r@) == want(f@),
        {
            file_import_edges(&npm, &nuget, f)
        };
    flat_views(pending, each, Ghost(want))
}

/// Resolve collected per-file imports to known package nodes and create
/// `IMPORTS_PACKAGE` edges. Returns the number of edges created.
pub fn resolve_imports<S: GraphStore>(store: &mut S, pending: &Vec<FileImports>) -> (r: Result<usize, SynapseError>)
    requires
        old(store).valid(),
    ensures
        final(store).valid(),
        S::infallible() ==> r is Ok,
        r matches Ok(n) ==> {
            let edges = import_writes(S::all_packages_in(old(store).history()), views(pending@));
            n == edges.len() && final(store).history() == old(store).history() + edges
        },
{
    let packages = match store.all_packages() {
        Ok(v) => v,
        Err(e) => {
            return Err(e);
        },
    };
    let batch = import_edges(&packages, pending);
    let edges: usize = batch.len();
    match store.link_edges(&batch) {
        Ok(_) => Ok(edges),
        Err(e) => Err(e),
    }
}

// --- the symbol index -------------------------------------------------------------
/// By position in the file, then by id.
pub open spec fn position_order() -> spec_fn(SymbolView, SymbolView) -> bool {
    |a: SymbolView, b: SymbolView|
        a.start_line < b.start_line || (a.start_line == b.start_line && (a.end_line < b.end_line || (a.end_line
            == b.end_line && text_le(a.id, b.id))))
}

/// By name, then by position, then by id.
pub open spec fn name_position_order() -> spec_fn(SymbolView, SymbolView) -> bool {
    |a: SymbolView, b: SymbolView| text_lt(a.name, b.name) || (a.name == b.name && position_order()(a, b))
}

/// All symbols called `name`, by position.
pub open spec fn symbols_named(all: Seq<SymbolView>, name: Seq<char>) -> Seq<SymbolView> {
    stable_sort(keep(all, |s: SymbolView| s.name == name), position_order())
}

/// The first declaration called `name` in `file`.
pub open spec fn declared_in(all: Seq<SymbolView>, file: Seq<char>, name: Seq<char>) -> Option<SymbolView> {
    first(symbols_named(all, name), |s: SymbolView| s.file_path == file)
}

proof fn name_position_order_total()
    ensures
        total_preorder(name_position_order()),
{
    let le = name_position_order();
    assert forall|a: SymbolView, b: SymbolView| #![trigger le(a, b)] le(a, b) || le(b, a) by {
        text_lt_total(a.name, b.name);
        if text_lt(b.id, a.id) {
            text_lt_asymmetric(b.id, a.id);
        }
    }
    assert forall|a: SymbolView, b: SymbolView, c: SymbolView|
        #![trigger le(a, b), le(b, c)]
        le(a, b) && le(b, c) implies le(a, c) by {
        text_lt_laws(a.name, b.name, c.name);
        if text_le(a.id, b.id) && text_le(b.id, c.id) {
            text_le_transitive(a.id, b.id, c.id);
        }
    }
}

/// In-memory index over every symbol in the graph, built once from a single full
/// scan so the resolve passes can look symbols up by name and file.
///
/// The symbols are sorted deterministically (by name, `start_line`, `end_line`,
/// `id`), so taking the first of several same-named declarations in a file
/// (overloads, etc.) is stable.
pub struct SymbolIndex {
    list: Vec<IndexedSymbol>,
    all: Ghost<Seq<SymbolView>>,
}

impl SymbolIndex {
    /// The symbols the index was built from.
    pub closed spec fn symbols(&self) -> Seq<SymbolView> {
        self.all@
    }

    pub closed spec fn valid(&self) -> bool {
        views(self.list@) == stable_sort(self.all@, name_position_order())
    }

    /// Index a list of symbols.
    pub fn of(all: Vec<IndexedSymbol>) -> (r: SymbolIndex)
        ensures
            r.valid(),
            r.symbols() == views(all@),
    {
        let ghost given = views(all@);
        let le = |a: &IndexedSymbol, b: &IndexedSymbol| -> (r: bool)
            ensures
                r == name_position_order()(a@, b@),
            {
                before(a.name.as_str(), b.name.as_str()) || (same(a.name.as_str(), b.name.as_str()) && (a.start_line
                    < b.start_line || (a.start_line == b.start_line && (a.end_line < b.end_line || (a.end_line
                    == b.end_line && !before(b.id.as_str(), a.id.as_str()))))))
            };
        SymbolIndex { list: sort_views(all, le, Ghost(name_position_order())), all: Ghost(given) }
    }

    /// Build the index from one full-table symbol scan.
    pub fn build<S: GraphStore>(store: &S) -> (r: Result<SymbolIndex, SynapseError>)
        requires
            store.valid(),
        ensures
            S::infallible() ==> r is Ok,
            r matches Ok(i) ==> i.valid() && i.symbols() == all_symbols::<S>(store.history()),
    {
        match store.symbols_matching(&SymbolSearchQuery::default()) {
            Ok(v) => Ok(SymbolIndex::of(v)),
            Err(e) => Err(e),
        }
    }

    /// Where the symbols called `name` stand in the sorted list.
    fn range(&self, name: &str) -> (r: (usize, usize))
        requires
            self.valid(),
        ensures
            r.0 <= r.1 <= self.list@.len(),
            views(self.list@).subrange(r.0 as int, r.1 as int) == symbols_named(self.symbols(), name@),
    {
        let ghost s = views(self.list@);
        let ghost le = name_position_order();
        proof {
            name_position_order_total();
            stable_sort_sorted(self.all@, le);
        }
        let mut lo: usize = 0;
        let mut hi: usize = self.list.len();
        while lo < hi
            invariant
                lo <= hi <= self.list@.len(),
                s == views(self.list@),
                le == name_position_order(),
                sorted(s, le),
                forall|j: int| 0 <= j < lo ==> text_lt((#[trigger] s[j]).name, name@),
                forall|j: int| hi <= j < s.len() ==> !text_lt((#[trigger] s[j]).name, name@),
            decreases hi - lo,
        {
            let mid: usize = lo + (hi - lo) / 2;
            assert(s[mid as int] == self.list@[mid as int]@);
            if before(self.list[mid].name.as_str(), name) {
                assert forall|j: int| 0 <= j < mid + 1 implies text_lt((#[trigger] s[j]).name, name@) by {
                    if j < mid {
                        assert(le(s[j], s[mid as int]));
                        text_lt_laws(s[j].name, s[mid as int].name, name@);
                    }
                }
                lo = mid + 1;
            } else {
                assert forall|j: int| mid <= j < s.len() implies !text_lt((#[trigger] s[j]).name, name@) by {
                    if j > mid {
                        assert(le(s[mid as int], s[j]));
                        if text_lt(s[j].name, name@) {
                            text_lt_laws(s[mid as int].name, s[j].name, name@);
                        }
                    }
                }
                hi = mid;
            }
        }
        let start: usize = lo;
        let mut end: usize = lo;
        while end < self.list.len() && same(self.list[end].name.as_str(), name)
            invariant
                start <= end <= self.list@.len(),
                s == views(self.list@),
                forall|j: int| start <= j < end ==> (#[trigger] s[j]).name == name@,
            decreases self.list@.len() - end,
        {
            assert(s[end as int] == self.list@[end as int]@);
            end += 1;
        }
        proof {
            let p = |x: SymbolView| x.name == name@;
            assert forall|j: int| 0 <= j < s.len() implies p(#[trigger] s[j]) == (start <= j < end) by {
                if j < start {
                    text_lt_laws(s[j].name, s[j].name, s[j].name);
                } else if j >= end {
                    assert(s[end as int] == self.list@[end as int]@);
                    let e = s[end as int].name;
                    assert(e != name@);
                    assert(!text_lt(e, name@));
                    text_lt_total(e, name@);
                    assert(text_lt(name@, e));
                    if j > end {
                        assert(le(s[end as int], s[j]));
                        if s[j].name == name@ {
                            text_lt_asymmetric(name@, e);
                        }
                    }
                }
            }
            keep_of_range(s, p, start as int, end as int);
            keep_of_sorted(self.all@, le, p);
            let k = keep(self.all@, p);
            crate::lists::keep_members(self.all@, p);
            assert forall|a: SymbolView, b: SymbolView| k.contains(a) && k.contains(b) implies #[trigger] le(a, b)
                == position_order()(a, b) by {
                text_lt_laws(a.name, a.name, a.name);
            }
            stable_sort_agrees(k, le, position_order());
        }
        (start, end)
    }

    /// The first declaration named `name` in `file`, or `None` if the file
    /// declares no such symbol.
    pub fn decl_in_file(&self, file: &str, name: &str) -> (r: Option<&IndexedSymbol>)
        requires
            self.valid(),
        ensures
            r is Some == declared_in(self.symbols(), file@, name@) is Some,
            r matches Some(s) ==> declared_in(self.symbols(), file@, name@) == Some(s@),
    {
        let (lo, hi) = self.range(name);
        let ghost run = views(self.list@).subrange(lo as int, hi as int);
        let ghost p = |s: SymbolView| s.file_path == file@;
        let mut i: usize = lo;
        proof {
            take_none(run);
        }
        while i < hi
            invariant
                lo <= i <= hi <= self.list@.len(),
                run == views(self.list@).subrange(lo as int, hi as int),
                run == symbols_named(self.symbols(), name@),
                p == (|s: SymbolView| s.file_path == file@),
                first(run.take(i - lo), p) is None,
            decreases hi - i,
        {
            proof {
                take_next(run, i - lo);
                assert(run[i - lo] == self.list@[i as int]@);
            }
            if same(self.list[i].file_path.as_str(), file) {
                proof {
                    crate::lists::first_of_prefix(run, p, i - lo + 1);
                }
                return Some(&self.list[i]);
            }
            i += 1;
        }
        proof {
            take_whole(run);
        }
        None
    }

    /// All symbols whose name equals `name`.
    pub fn by_name(&self, name: &str) -> (r: Vec<IndexedSymbol>)
        requires
            self.valid(),
        ensures
            views(r@) == symbols_named(self.symbols(), name@),
    {
        let (lo, hi) = self.range(name);
        let ghost run = views(self.list@).subrange(lo as int, hi as int);
        let mut out: Vec<IndexedSymbol> = Vec::new();
        let mut i: usize = lo;
        assert(views(out@) =~= run.take(0));
        while i < hi
            invariant
                lo <= i <= hi <= self.list@.len(),
                run == views(self.list@).subrange(lo as int, hi as int),
                views(out@) == run.take(i - lo),
            decreases hi - i,
        {
            let c = self.list[i].clone();
            proof {
                take_next(run, i - lo);
                assert(run[i - lo] == self.list@[i as int]@);
                views_push(out@, c);
            }
            out.push(c);
            i += 1;
        }
        proof {
            take_whole(run);
        }
        out
    }
}

/// The search that finds every symbol.
pub open spec fn any_symbol() -> SymbolQueryView {
    SymbolQueryView { name: None, kind: None, language: None, file: None }
}

pub open spec fn all_symbols<S: GraphStore>(h: Seq<StoreWrite>) -> Seq<SymbolView> {
    S::symbols_matching_in(h, any_symbol())
}

// --- targets -----------------------------------------------------------------------
/// `path` lives in the project directory `dir`, or is that directory.
pub open spec fn in_project_dir(path: Seq<char>, dir: Seq<char>) -> bool {
    dir.len() > 0 && (path == dir || under(path, dir))
}

/// Whether `candidate_path` lives in the same project directory as a file whose
/// parent directory is `project_dir`. Segment-safe: `src` does not match
/// `src2/foo` — the match must fall on a `/` boundary (or be the dir itself).
pub fn same_project_dir(candidate_path: &str, project_dir: &str) -> (r: bool)
    ensures
        r == in_project_dir(candidate_path@, project_dir@),
{
    !project_dir.is_empty() && (same(candidate_path, project_dir) || path_under_prefix(candidate_path, project_dir))
}

/// The ambiguity policy: of the candidates, those in the same file; failing
/// that, those in the same directory tree; failing that, all of them.
pub open spec fn preferred(candidates: Seq<SymbolView>, file: Seq<char>) -> Seq<SymbolView> {
    let same_file = keep(candidates, |s: SymbolView| s.file_path == file);
    let same_project = keep(candidates, |s: SymbolView| in_project_dir(s.file_path, before_last(file, '/')));
    if same_file.len() > 0 {
        same_file
    } else if same_project.len() > 0 {
        same_project
    } else {
        candidates
    }
}

/// The symbols that `name`, used by the symbol with id `from` in `file`, stands
/// for.
pub open spec fn targets(all: Seq<SymbolView>, file: Seq<char>, from: Seq<char>, name: Seq<char>) -> Seq<SymbolView> {
    preferred(keep(symbols_named(all, name), |s: SymbolView| s.id != from), file)
}

fn find_targets(index: &SymbolIndex, file: &str, from: &str, name: &str) -> (r: Vec<IndexedSymbol>)
    requires
        index.valid(),
    ensures
        views(r@) == targets(index.symbols(), file@, from@, name@),
{
    let other = |s: &IndexedSymbol| -> (r: bool)
        ensures
            r == (s@.id != from@),
        {
            !same(s.id.as_str(), from)
        };
    let candidates = crate::lists::retain(index.by_name(name), other, Ghost(|s: SymbolView| s.id != from@));
    let in_file = |s: &IndexedSymbol| -> (r: bool)
        ensures
            r == (s@.file_path == file@),
        {
            same(s.file_path.as_str(), file)
        };
    let same_file = select_clones(&candidates, in_file, Ghost(|s: SymbolView| s.file_path == file@));
    if same_file.len() > 0 {
        return same_file;
    }
    let dir = text_before_last(file, '/');
    let dir = dir.as_str();
    let in_project = |s: &IndexedSymbol| -> (r: bool)
        ensures
            r == in_project_dir(s@.file_path, before_last(file@, '/')),
        {
            same_project_dir(s.file_path.as_str(), dir)
        };
    let same_project = select_clones(
        &candidates,
        in_project,
        Ghost(|s: SymbolView| in_project_dir(s.file_path, before_last(file@, '/'))),
    );
    if same_project.len() > 0 {
        same_project
    } else {
        candidates
    }
}

// --- supertypes ----------------------------------------------------------------------
/// The edge is `IMPLEMENTS`: the syntax says so, or it does not say and the target
/// is an interface or a trait.
pub open spec fn implements(hint: SuperHint, target: SymbolKind) -> bool {
    match hint {
        SuperHint::Implements => true,
        SuperHint::Inherits => false,
        SuperHint::Unknown => target == SymbolKind::Interface || target == SymbolKind::Trait,
    }
}

pub open spec fn super_write(child: SymbolView, hint: SuperHint, target: SymbolView) -> StoreWrite {
    if implements(hint, target.kind) {
        StoreWrite::Implements(child.id, target.id)
    } else {
        StoreWrite::Inherits(child.id, target.id)
    }
}

/// The edges of one supertype relationship of `file`.
pub open spec fn super_writes(all: Seq<SymbolView>, file: Seq<char>, st: SupertypeView) -> Seq<StoreWrite> {
    match declared_in(all, file, st.child) {
        Some(child) => targets(all, file, child.id, st.supertype).map_values(
            |t: SymbolView| super_write(child, st.hint, t),
        ),
        None => Seq::empty(),
    }
}

/// The `INHERITS`/`IMPLEMENTS` edges of all files.
pub open spec fn supertype_writes(all: Seq<SymbolView>, pending: Seq<FileSupertypesView>) -> Seq<StoreWrite> {
    flat(
        pending,
        |f: FileSupertypesView| flat(f.supers, |st: SupertypeView| super_writes(all, f.file, st)),
    )
}

fn super_edges(index: &SymbolIndex, file: &str, st: &Supertype) -> (r: Vec<GraphEdge>)
    requires
        index.valid(),
    ensures
        views(r@) == super_writes(index.symbols(), file@, st@),
{
    let mut out: Vec<GraphEdge> = Vec::new();
    match index.decl_in_file(file, st.child.as_str()) {
        Some(child) => {
            let found = find_targets(index, file, child.id.as_str(), st.supertype.as_str());
            let ghost target = views(found@).map_values(|t: SymbolView| super_write(child@, st.hint, t));
            let mut i: usize = 0;
            assert(views(out@) =~= target.take(0));
            while i < found.len()
                invariant
                    i <= found@.len(),
                    target == views(found@).map_values(|t: SymbolView| super_write(child@, st.hint, t)),
                    views(out@) == target.take(i as int),
                decreases found@.len() - i,
            {
                let t = &found[i];
                let is_implementation = match st.hint {
                    SuperHint::Implements => true,
                    SuperHint::Inherits => false,
                    SuperHint::Unknown => t.kind == SymbolKind::Interface || t.kind == SymbolKind::Trait,
                };
                let e = if is_implementation {
                    GraphEdge::SymbolImplements { from: child.id.clone(), to: t.id.clone() }
                } else {
                    GraphEdge::SymbolInherits { from: child.id.clone(), to: t.id.clone() }
                };
                proof {
                    take_next(target, i as int);
                    assert(views(found@)[i as int] == t@);
                    assert(e@ == super_write(child@, st.hint, t@));
                    views_push(out@, e);
                }
                out.push(e);
                i += 1;
            }
            proof {
                take_whole(target);
            }
        },
        None => {
            assert(views(out@) =~= Seq::<StoreWrite>::empty());
        },
    }
    out
}

fn file_super_edges(index: &SymbolIndex, f: &FileSupertypes) -> (r: Vec<GraphEdge>)
    requires
        index.valid(),
    ensures
        views(r@) == flat(f@.supers, |st: SupertypeView| super_writes(index.symbols(), f@.file, st)),
{
    let ghost want = |st: SupertypeView| super_writes(index.symbols(), f.file@, st);
    let each = |st: &Supertype| -> (r: Vec<GraphEdge>)
        ensures
            views(r@) == want(st@),
        {
            super_edges(index, f.file.as_str(), st)
        };
    flat_views(&f.supers, each, Ghost(want))
}

/// Whether progress is due at item `i` of `total`: at the start and roughly every
/// 1% of `total`.
pub open spec fn due(i: nat, total: nat) -> bool {
    if total < 200 {
        true
    } else {
        i % (total / 100) == 0
    }
}

/// Report resolve progress at a coarse cadence — at the start and roughly every
/// 1% of `total` — so the progress bar advances without the callback dominating
/// the per-file work on large repos.
pub fn report_due(i: usize, total: usize) -> (r: bool)
    ensures
        r == due(i as nat, total as nat),
{
    let step: usize = total / 100;
    if step <= 1 {
        proof {
            if total >= 100 {
                assert(total / 100 == 1);
            }
        }
        true
    } else {
        i % step == 0
    }
}

/// The `INHERITS`/`IMPLEMENTS` edges of all files, reporting how many files are
/// done along the way.
///
/// For each `(declaring_file, [child -> supertype])`:
/// * The child symbol is the declaration in that file with the matching name.
/// * Candidate supertype symbols are all symbols with the matching name. If any
///   candidate is in the same file or same project, only those are linked;
///   otherwise every candidate is linked (per the ambiguity policy).
/// * The edge kind comes from the syntactic hint, or — when unknown (e.g. C#
///   base lists) — from the target symbol's kind (interface/trait => IMPLEMENTS,
///   else INHERITS).
pub fn supertype_edges<F: Fn(usize)>(index: &SymbolIndex, pending: &Vec<FileSupertypes>, report: &F) -> (r: Vec<
    GraphEdge,
>)
    requires
        index.valid(),
        forall|n: usize| #[trigger] call_requires(*report, (n,)),
    ensures
        views(r@) == supertype_writes(index.symbols(), views(pending@)),
{
    let ghost all = index.symbols();
    let ghost want = |f: FileSupertypesView| flat(f.supers, |st: SupertypeView| super_writes(all, f.file, st));
    let mut out: Vec<GraphEdge> = Vec::new();
    let mut i: usize = 0;
    proof {
        take_none(views(pending@));
        assert(views(out@) =~= Seq::<StoreWrite>::empty());
    }
    while i < pending.len()
        invariant
            i <= pending@.len(),
            index.valid(),
            all == index.symbols(),
            forall|n: usize| #[trigger] call_requires(*report, (n,)),
            want == (|f: FileSupertypesView| flat(f.supers, |st: SupertypeView| super_writes(all, f.file, st))),
            views(out@) == flat(views(pending@).take(i as int), want),
        decreases pending@.len() - i,
    {
        if report_due(i, pending.len()) {
            report(i);
        }
        let mut more = file_super_edges(index, &pending[i]);
        proof {
            take_next(views(pending@), i as int);
            crate::lists::views_add(out@, more@);
        }
        out.append(&mut more);
        i += 1;
    }
    proof {
        take_whole(views(pending@));
    }
    out
}

/// Resolve collected supertype relationships into `INHERITS`/`IMPLEMENTS` edges.
/// Returns the number of edges created.
pub fn resolve_supertypes<S: GraphStore, F: Fn(usize)>(
    store: &mut S,
    index: &SymbolIndex,
    pending: &Vec<FileSupertypes>,
    report: &F,
) -> (r: Result<usize, SynapseError>)
    requires
        old(store).valid(),
        index.valid(),
        forall|n: usize| #[trigger] call_requires(*report, (n,)),
    ensures
        final(store).valid(),
        S::infallible() ==> r is Ok,
        r matches Ok(n) ==> {
            let edges = supertype_writes(index.symbols(), views(pending@));
            n == edges.len() && final(store).history() == old(store).history() + edges
        },
{
    let batch = supertype_edges(index, pending, report);
    let edges: usize = batch.len();
    match store.link_edges(&batch) {
        Ok(_) => Ok(edges),
        Err(e) => Err(e),
    }
}

// --- references ------------------------------------------------------------------------
pub open spec fn path_id_order() -> spec_fn(SymbolView, SymbolView) -> bool {
    |a: SymbolView, b: SymbolView|
        text_lt(a.file_path, b.file_path) || (a.file_path == b.file_path && text_le(a.id, b.id))
}

/// The edges of one usage in `file`: none where it has no enclosing declaration,
/// where that is not declared in the file, or where the name is not declared
/// anywhere.
pub open spec fn usage_writes(all: Seq<SymbolView>, file: Seq<char>, r: ReferenceView) -> Seq<StoreWrite> {
    if r.from.len() == 0 {
        Seq::empty()
    } else {
        match declared_in(all, file, r.from) {
            Some(from) => stable_sort(targets(all, file, from.id, r.to), path_id_order()).map_values(
                |t: SymbolView| StoreWrite::References(from.id, t.id),
            ),
            None => Seq::empty(),
        }
    }
}

/// The `REFERENCES` edges of all files.
pub open spec fn reference_writes(all: Seq<SymbolView>, pending: Seq<FileReferencesView>) -> Seq<StoreWrite> {
    flat(
        pending,
        |f: FileReferencesView| flat(f.refs, |r: ReferenceView| usage_writes(all, f.file, r)),
    )
}

fn usage_edges(index: &SymbolIndex, file: &str, r: &Reference) -> (out: Vec<GraphEdge>)
    requires
        index.valid(),
    ensures
        views(out@) == usage_writes(index.symbols(), file@, r@),
{
    let mut out: Vec<GraphEdge> = Vec::new();
    assert(views(out@) =~= Seq::<StoreWrite>::empty());
    if r.from.as_str().is_empty() {
        return out;
    }
    match index.decl_in_file(file, r.from.as_str()) {
        Some(from) => {
            let found = find_targets(index, file, from.id.as_str(), r.to.as_str());
            let le = |a: &IndexedSymbol, b: &IndexedSymbol| -> (r: bool)
                ensures
                    r == path_id_order()(a@, b@),
                {
                    before(a.file_path.as_str(), b.file_path.as_str()) || (same(
                        a.file_path.as_str(),
                        b.file_path.as_str(),
                    ) && !before(b.id.as_str(), a.id.as_str()))
                };
            let found = sort_views(found, le, Ghost(path_id_order()));
            let ghost target = views(found@).map_values(|t: SymbolView| StoreWrite::References(from@.id, t.id));
            let mut i: usize = 0;
            assert(views(out@) =~= target.take(0));
            while i < found.len()
                invariant
                    i <= found@.len(),
                    target == views(found@).map_values(|t: SymbolView| StoreWrite::References(from@.id, t.id)),
                    views(out@) == target.take(i as int),
                decreases found@.len() - i,
            {
                let e = GraphEdge::SymbolReferences { from: from.id.clone(), to: found[i].id.clone() };
                proof {
                    take_next(target, i as int);
                    assert(views(found@)[i as int] == found@[i as int]@);
                    views_push(out@, e);
                }
                out.push(e);
                i += 1;
            }
            proof {
                take_whole(target);
            }
        },
        None => {},
    }
    out
}

fn file_usage_edges(index: &SymbolIndex, f: &FileReferences) -> (r: Vec<GraphEdge>)
    requires
        index.valid(),
    ensures
        views(r@) == flat(f@.refs, |r: ReferenceView| usage_writes(index.symbols(), f@.file, r)),
{
    let ghost want = |r: ReferenceView| usage_writes(index.symbols(), f.file@, r);
    let each = |r: &Reference| -> (out: Vec<GraphEdge>)
        ensures
            views(out@) == want(r@),
        {
            usage_edges(index, f.file.as_str(), r)
        };
    flat_views(&f.refs, each, Ghost(want))
}

/// The `REFERENCES` edges of all files, reporting how many files are done along
/// the way.
///
/// For each `(file, [from -> to])`:
/// * `from` (the enclosing declaration) must be a symbol declared in this file.
///   References with no enclosing declaration (top-level/module-scope usages)
///   are skipped — the edge requires a symbol on both ends.
/// * `to` candidates are all symbols with the matching name. The same ambiguity
///   policy as for supertypes applies. Ambiguity yields multiple edges, never a
///   guess.
/// * A `to` that matches no declared symbol yields no edge — this is the guard
///   against local variables shadowing a global name.
pub fn reference_edges<F: Fn(usize)>(index: &SymbolIndex, pending: &Vec<FileReferences>, report: &F) -> (r: Vec<
    GraphEdge,
>)
    requires
        index.valid(),
        forall|n: usize| #[trigger] call_requires(*report, (n,)),
    ensures
        views(r@) == reference_writes(index.symbols(), views(pending@)),
{
    let ghost all = index.symbols();
    let ghost want = |f: FileReferencesView| flat(f.refs, |r: ReferenceView| usage_writes(all, f.file, r));
    let mut out: Vec<GraphEdge> = Vec::new();
    let mut i: usize = 0;
    proof {
        take_none(views(pending@));
        assert(views(out@) =~= Seq::<StoreWrite>::empty());
    }
    while i < pending.len()
        invariant
            i <= pending@.len(),
            index.valid(),
            all == index.symbols(),
            forall|n: usize| #[trigger] call_requires(*report, (n,)),
            want == (|f: FileReferencesView| flat(f.refs, |r: ReferenceView| usage_writes(all, f.file, r))),
            views(out@) == flat(views(pending@).take(i as int), want),
        decreases pending@.len() - i,
    {
        if report_due(i, pending.len()) {
            report(i);
        }
        let mut more = file_usage_edges(index, &pending[i]);
        proof {
            take_next(views(pending@), i as int);
            crate::lists::views_add(out@, more@);
        }
        out.append(&mut more);
        i += 1;
    }
    proof {
        take_whole(views(pending@));
    }
    out
}

/// Resolve collected usage references into `REFERENCES` edges. Returns the number
/// of edges created.
pub fn resolve_references<S: GraphStore, F: Fn(usize)>(
    store: &mut S,
    index: &SymbolIndex,
    pending: &Vec<FileReferences>,
    report: &F,
) -> (r: Result<usize, SynapseError>)
    requires
        old(store).valid(),
        index.valid(),
        forall|n: usize| #[trigger] call_requires(*report, (n,)),
    ensures
        final(store).valid(),
        S::infallible() ==> r is Ok,
        r matches Ok(n) ==> {
            let edges = reference_writes(index.symbols(), views(pending@));
            n == edges.len() && final(store).history() == old(store).history() + edges
        },
{
    let batch = reference_edges(index, pending, report);
    let edges: usize = batch.len();
    match store.link_edges(&batch) {
        Ok(_) => Ok(edges),
        Err(e) => Err(e),
    }
}

/// A usage outside every declaration of its file yields no edge.
pub proof fn usage_needs_a_declaration(all: Seq<SymbolView>, file: Seq<char>, r: ReferenceView)
    requires
        r.from.len() == 0 || declared_in(all, file, r.from) is None,
    ensures
        usage_writes(all, file, r).len() == 0,
{
}

/// A name that no symbol declares yields no edge, whoever uses it.
pub proof fn undeclared_name_yields_no_edge(all: Seq<SymbolView>, file: Seq<char>, r: ReferenceView)
    requires
        forall|i: int| 0 <= i < all.len() ==> (#[trigger] all[i]).name != r.to,
    ensures
        usage_writes(all, file, r).len() == 0,
{
    let p = |s: SymbolView| s.name == r.to;
    keep_members(all, p);
    let k = keep(all, p);
    if k.len() > 0 {
        assert(k.contains(k[0]));
        let i = all.index_of(k[0]);
    }
    assert(k =~= Seq::<SymbolView>::empty());
    let s = symbols_named(all, r.to);
    assert(s =~= Seq::<SymbolView>::empty());
    match declared_in(all, file, r.from) {
        Some(from) => {
            let c = keep(s, |x: SymbolView| x.id != from.id);
            assert(c =~= Seq::<SymbolView>::empty());
            assert(preferred(c, file) =~= Seq::<SymbolView>::empty());
        },
        None => {},
    }
}

/// What a name is resolved to is declared under that name and is never the symbol
/// that uses it. Where the file itself declares the name, nothing outside the file
/// is meant.
pub proof fn targets_are_declared(all: Seq<SymbolView>, file: Seq<char>, from: Seq<char>, name: Seq<char>, t: SymbolView)
    requires
        targets(all, file, from, name).contains(t),
    ensures
        all.contains(t),
        t.name == name,
        t.id != from,
        forall|s: SymbolView| #[trigger]
            all.contains(s) && s.name == name && s.id != from && s.file_path == file ==> t.file_path == file,
{
    let named = symbols_named(all, name);
    let candidates = keep(named, |s: SymbolView| s.id != from);
    keep_members(all, |s: SymbolView| s.name == name);
    stable_sort_keeps(keep(all, |s: SymbolView| s.name == name), position_order());
    keep_members(named, |s: SymbolView| s.id != from);
    let same_file = keep(candidates, |s: SymbolView| s.file_path == file);
    keep_members(candidates, |s: SymbolView| s.file_path == file);
    keep_members(candidates, |s: SymbolView| in_project_dir(s.file_path, before_last(file, '/')));
    assert forall|s: SymbolView| #[trigger]
        all.contains(s) && s.name == name && s.id != from && s.file_path == file implies t.file_path == file by {
        assert(keep(all, |s: SymbolView| s.name == name).contains(s));
        assert(named.contains(s));
        assert(candidates.contains(s));
        assert(same_file.contains(s));
    }
}

/// A name that is declared at all (other than by its user) is resolved to
/// something: to every declaration, where none is nearer than the others.
pub proof fn declared_name_is_resolved(all: Seq<SymbolView>, file: Seq<char>, from: Seq<char>, s: SymbolView)
    requires
        all.contains(s),
        s.id != from,
    ensures
        targets(all, file, from, s.name).len() > 0,
        (forall|t: SymbolView| #[trigger]
            all.contains(t) && t.name == s.name && t.id != from ==> t.file_path != file && !in_project_dir(
                t.file_path,
                before_last(file, '/'),
            )) ==> targets(all, file, from, s.name).contains(s),
{
    let named = symbols_named(all, s.name);
    let candidates = keep(named, |x: SymbolView| x.id != from);
    keep_members(all, |x: SymbolView| x.name == s.name);
    stable_sort_keeps(keep(all, |x: SymbolView| x.name == s.name), position_order());
    keep_members(named, |x: SymbolView| x.id != from);
    keep_members(candidates, |x: SymbolView| x.file_path == file);
    keep_members(candidates, |x: SymbolView| in_project_dir(x.file_path, before_last(file, '/')));
    assert(keep(all, |x: SymbolView| x.name == s.name).contains(s));
    assert(named.contains(s));
    assert(candidates.contains(s));
    let same_file = keep(candidates, |x: SymbolView| x.file_path == file);
    let same_project = keep(candidates, |x: SymbolView| in_project_dir(x.file_path, before_last(file, '/')));
    if same_file.len() > 0 {
        assert(same_file.contains(same_file[0]));
        assert(candidates.contains(same_file[0]));
        assert(named.contains(same_file[0]));
        assert(keep(all, |x: SymbolView| x.name == s.name).contains(same_file[0]));
    }
    if same_project.len() > 0 {
        assert(same_project.contains(same_project[0]));
        assert(candidates.contains(same_project[0]));
        assert(named.contains(same_project[0]));
        assert(keep(all, |x: SymbolView| x.name == s.name).contains(same_project[0]));
    }
}

/// An import is only linked to a package that a manifest declared, of the
/// ecosystem of the language.
pub proof fn imported_package_is_declared(packages: Seq<PackageView>, language: Language, import: Seq<char>)
    ensures
        imported_package(names_in(packages, "npm"@), names_in(packages, "nuget"@), language, import) matches Some(id)
            ==> exists|p: PackageView| #[trigger]
            packages.contains(p) && id == package_id_of(p.ecosystem, p.name) && p.ecosystem == (if language
                == Language::CSharp {
                "nuget"@
            } else {
                "npm"@
            }),
{
    let npm = names_in(packages, "npm"@);
    let nuget = names_in(packages, "nuget"@);
    match language {
        Language::JavaScript | Language::TypeScript => {
            if npm.contains(import) {
                let p = package_behind(packages, "npm"@, import);
                assert(packages.contains(p));
            }
        },
        Language::CSharp => {
            longest_prefix_is_longest(import, nuget);
            if longest_prefix(import, nuget) is Some {
                let p = package_behind(packages, "nuget"@, longest_prefix(import, nuget)->0);
                assert(packages.contains(p));
            }
        },
        _ => {},
    }
}

proof fn package_behind(packages: Seq<PackageView>, ecosystem: Seq<char>, name: Seq<char>) -> (p: PackageView)
    requires
        names_in(packages, ecosystem).contains(name),
    ensures
        packages.contains(p),
        p.ecosystem == ecosystem,
        p.name == name,
{
    let f = |p: PackageView|
        if p.ecosystem == ecosystem {
            Some(p.name)
        } else {
            None
        };
    picked_from(packages, f);
    let i = names_in(packages, ecosystem).index_of(name);
    assert(made(packages, f, pick(packages, f)[i]));
    choose|p: PackageView| #[trigger] packages.contains(p) && f(p) == Some(name)
}

} // verus!
