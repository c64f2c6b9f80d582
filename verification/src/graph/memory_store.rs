//! In-memory [`GraphStore`] for tests and small fixtures.
//!
//! Nodes are kept in lists ordered by key and edges in lists ordered by their
//! two ends, so every query answers in a deterministic order.

use crate::errors::SynapseError;
use crate::graph::model::{
    FileQueryView, FileSearchQuery, FileView, IndexStats, IndexedFile, IndexedPackage, IndexedProject, IndexedSymbol,
    PackageView, ProjectView, RelatedItem, RelatedView, SymbolQueryView, SymbolSearchQuery, SymbolView,
};
use crate::graph::store::{GraphStore, StoreWrite};
use crate::indexer::ids::{file_id, file_id_of};
use crate::lists::{
    clone_all, dedup_views, find_first, first, flat, flat_views, keep, pick, pick_views, put_in_place, retain,
    select_clones, sort_dedup_texts, sort_views, sorted_set, upsert, Ordered,
};
use crate::sorting::{dedup, stable_sort};
use crate::text::{
    before, before_last, cat, cat3, contains_ignore_ascii_case, has, lower, opt_view, same, starts_with, strip_prefix,
    stripped, text_before_last, text_le, text_lt, text_lt_laws, views,
};
use vstd::prelude::*;

verus! {

impl Ordered for IndexedFile {
    open spec fn less(a: Self::V, b: Self::V) -> bool {
        text_lt(a.path, b.path)
    }

    open spec fn alike(a: Self::V, b: Self::V) -> bool {
        a.path == b.path
    }

    fn is_less(&self, other: &Self) -> (r: bool) {
        before(self.path.as_str(), other.path.as_str())
    }

    fn is_alike(&self, other: &Self) -> (r: bool) {
        same(self.path.as_str(), other.path.as_str())
    }

    proof fn order_laws(a: Self::V, b: Self::V, c: Self::V) {
        text_lt_laws(a.path, b.path, c.path);
    }
}

impl Ordered for IndexedSymbol {
    open spec fn less(a: Self::V, b: Self::V) -> bool {
        text_lt(a.id, b.id)
    }

    open spec fn alike(a: Self::V, b: Self::V) -> bool {
        a.id == b.id
    }

    fn is_less(&self, other: &Self) -> (r: bool) {
        before(self.id.as_str(), other.id.as_str())
    }

    fn is_alike(&self, other: &Self) -> (r: bool) {
        same(self.id.as_str(), other.id.as_str())
    }

    proof fn order_laws(a: Self::V, b: Self::V, c: Self::V) {
        text_lt_laws(a.id, b.id, c.id);
    }
}

impl Ordered for IndexedProject {
    open spec fn less(a: Self::V, b: Self::V) -> bool {
        text_lt(a.id, b.id)
    }

    open spec fn alike(a: Self::V, b: Self::V) -> bool {
        a.id == b.id
    }

    fn is_less(&self, other: &Self) -> (r: bool) {
        before(self.id.as_str(), other.id.as_str())
    }

    fn is_alike(&self, other: &Self) -> (r: bool) {
        same(self.id.as_str(), other.id.as_str())
    }

    proof fn order_laws(a: Self::V, b: Self::V, c: Self::V) {
        text_lt_laws(a.id, b.id, c.id);
    }
}

impl Ordered for IndexedPackage {
    open spec fn less(a: Self::V, b: Self::V) -> bool {
        text_lt(a.id, b.id)
    }

    open spec fn alike(a: Self::V, b: Self::V) -> bool {
        a.id == b.id
    }

    fn is_less(&self, other: &Self) -> (r: bool) {
        before(self.id.as_str(), other.id.as_str())
    }

    fn is_alike(&self, other: &Self) -> (r: bool) {
        same(self.id.as_str(), other.id.as_str())
    }

    proof fn order_laws(a: Self::V, b: Self::V, c: Self::V) {
        text_lt_laws(a.id, b.id, c.id);
    }
}

/// A directed edge between two node ids.
pub struct Edge {
    pub from: String,
    pub to: String,
}

/// What `Edge` says, as mathematical values.
pub struct EdgeView {
    pub from: Seq<char>,
    pub to: Seq<char>,
}

impl View for Edge {
    type V = EdgeView;

    open spec fn view(&self) -> EdgeView {
        EdgeView { from: self.from@, to: self.to@ }
    }
}

impl Ordered for Edge {
    open spec fn less(a: Self::V, b: Self::V) -> bool {
        text_lt(a.from, b.from) || (a.from == b.from && text_lt(a.to, b.to))
    }

    open spec fn alike(a: Self::V, b: Self::V) -> bool {
        a == b
    }

    fn is_less(&self, other: &Self) -> (r: bool) {
        before(self.from.as_str(), other.from.as_str()) || (same(self.from.as_str(), other.from.as_str()) && before(
            self.to.as_str(),
            other.to.as_str(),
        ))
    }

    fn is_alike(&self, other: &Self) -> (r: bool) {
        same(self.from.as_str(), other.from.as_str()) && same(self.to.as_str(), other.to.as_str())
    }

    proof fn order_laws(a: Self::V, b: Self::V, c: Self::V) {
        text_lt_laws(a.from, b.from, c.from);
        text_lt_laws(a.to, b.to, c.to);
    }
}

/// The graph that a sequence of writes leaves: nodes in ascending order of their
/// keys, edges in ascending order of their ends.
pub struct Graph {
    pub files: Seq<FileView>,
    pub symbols: Seq<SymbolView>,
    pub projects: Seq<ProjectView>,
    pub packages: Seq<PackageView>,
    pub file_symbols: Seq<EdgeView>,
    pub project_files: Seq<EdgeView>,
    pub project_refs: Seq<EdgeView>,
    pub project_pkgs: Seq<EdgeView>,
    pub file_pkgs: Seq<EdgeView>,
    pub sym_inherits: Seq<EdgeView>,
    pub sym_implements: Seq<EdgeView>,
    pub sym_references: Seq<EdgeView>,
}

pub open spec fn empty_graph() -> Graph {
    Graph {
        files: Seq::empty(),
        symbols: Seq::empty(),
        projects: Seq::empty(),
        packages: Seq::empty(),
        file_symbols: Seq::empty(),
        project_files: Seq::empty(),
        project_refs: Seq::empty(),
        project_pkgs: Seq::empty(),
        file_pkgs: Seq::empty(),
        sym_inherits: Seq::empty(),
        sym_implements: Seq::empty(),
        sym_references: Seq::empty(),
    }
}

pub open spec fn with_edge(edges: Seq<EdgeView>, from: Seq<char>, to: Seq<char>) -> Seq<EdgeView> {
    upsert::<Edge>(edges, EdgeView { from, to })
}

/// Whether the file with id `fid` declares the symbol with id `sid`.
pub open spec fn declares(g: Graph, fid: Seq<char>, sid: Seq<char>) -> bool {
    g.file_symbols.contains(EdgeView { from: fid, to: sid })
}

/// The start of the ids of the symbols in `path`.
pub open spec fn symbol_prefix(path: Seq<char>) -> Seq<char> {
    "sym:"@ + path + "#"@
}

/// The edges that do not start at a symbol of `path`.
pub open spec fn without_source(edges: Seq<EdgeView>, path: Seq<char>) -> Seq<EdgeView> {
    keep(edges, |e: EdgeView| !symbol_prefix(path).is_prefix_of(e.from))
}

/// What is left when a file is forgotten: no node of it, none of its symbols,
/// no edge from it or from its symbols, and no project holds it.
pub open spec fn without_file(g: Graph, path: Seq<char>) -> Graph {
    let fid = file_id_of(path);
    Graph {
        files: keep(g.files, |f: FileView| f.path != path),
        symbols: keep(g.symbols, |s: SymbolView| !declares(g, fid, s.id) && s.file_path != path),
        file_symbols: keep(g.file_symbols, |e: EdgeView| e.from != fid),
        file_pkgs: keep(g.file_pkgs, |e: EdgeView| e.from != fid),
        project_files: keep(g.project_files, |e: EdgeView| e.to != fid),
        sym_inherits: without_source(g.sym_inherits, path),
        sym_implements: without_source(g.sym_implements, path),
        sym_references: without_source(g.sym_references, path),
        ..g
    }
}

/// The graph after one more write.
pub open spec fn step(g: Graph, w: StoreWrite) -> Graph {
    match w {
        StoreWrite::UpsertFile(f) => Graph { files: upsert::<IndexedFile>(g.files, f), ..g },
        StoreWrite::RemoveFile(p) => without_file(g, p),
        StoreWrite::UpsertSymbol(s) => Graph { symbols: upsert::<IndexedSymbol>(g.symbols, s), ..g },
        StoreWrite::UpsertProject(p) => Graph { projects: upsert::<IndexedProject>(g.projects, p), ..g },
        StoreWrite::UpsertPackage(p) => Graph { packages: upsert::<IndexedPackage>(g.packages, p), ..g },
        StoreWrite::ContainsFile(a, b) => Graph { project_files: with_edge(g.project_files, a, b), ..g },
        StoreWrite::Declares(a, b) => Graph { file_symbols: with_edge(g.file_symbols, a, b), ..g },
        StoreWrite::ReferencesProject(a, b) => Graph { project_refs: with_edge(g.project_refs, a, b), ..g },
        StoreWrite::UsesPackage(a, b) => Graph { project_pkgs: with_edge(g.project_pkgs, a, b), ..g },
        StoreWrite::ImportsPackage(a, b) => Graph { file_pkgs: with_edge(g.file_pkgs, a, b), ..g },
        StoreWrite::Inherits(a, b) => Graph { sym_inherits: with_edge(g.sym_inherits, a, b), ..g },
        StoreWrite::Implements(a, b) => Graph { sym_implements: with_edge(g.sym_implements, a, b), ..g },
        StoreWrite::References(a, b) => Graph { sym_references: with_edge(g.sym_references, a, b), ..g },
    }
}

/// The graph that the writes `h` leave.
pub open spec fn replay(h: Seq<StoreWrite>) -> Graph
    decreases h.len(),
{
    if h.len() == 0 {
        empty_graph()
    } else {
        step(replay(h.drop_last()), h.last())
    }
}

pub proof fn replay_push(h: Seq<StoreWrite>, w: StoreWrite)
    ensures
        replay(h.push(w)) == step(replay(h), w),
{
    assert(h.push(w).drop_last() =~= h);
}

// --- what the queries answer ----------------------------------------------------
/// A filter that is not given passes everything.
pub open spec fn passes(filter: Option<Seq<char>>, text: Seq<char>) -> bool {
    filter matches Some(n) ==> has(lower(text), lower(n))
}

pub open spec fn symbol_passes(q: SymbolQueryView, s: SymbolView) -> bool {
    &&& passes(q.name, s.name)
    &&& q.kind matches Some(k) ==> s.kind == k
    &&& q.language matches Some(l) ==> s.language == l
    &&& q.file matches Some(f) ==> s.file_path == f
}

pub open spec fn file_passes(q: FileQueryView, f: FileView) -> bool {
    &&& passes(q.path_contains, f.path)
    &&& q.language matches Some(l) ==> f.language == l
}

pub open spec fn symbol_name_order() -> spec_fn(SymbolView, SymbolView) -> bool {
    |a: SymbolView, b: SymbolView| text_lt(a.name, b.name) || (a.name == b.name && text_le(a.file_path, b.file_path))
}

pub open spec fn file_path_order() -> spec_fn(FileView, FileView) -> bool {
    |a: FileView, b: FileView| text_le(a.path, b.path)
}

pub open spec fn path_order() -> spec_fn(RelatedView, RelatedView) -> bool {
    |a: RelatedView, b: RelatedView| text_le(a.path, b.path)
}

pub open spec fn same_path() -> spec_fn(RelatedView, RelatedView) -> bool {
    |a: RelatedView, b: RelatedView| a.path == b.path
}

pub open spec fn path_reason_order() -> spec_fn(RelatedView, RelatedView) -> bool {
    |a: RelatedView, b: RelatedView| text_lt(a.path, b.path) || (a.path == b.path && text_le(a.reason, b.reason))
}

pub open spec fn same_path_reason() -> spec_fn(RelatedView, RelatedView) -> bool {
    |a: RelatedView, b: RelatedView| a.path == b.path && a.reason == b.reason
}

pub open spec fn path_depth_order() -> spec_fn(RelatedView, RelatedView) -> bool {
    |a: RelatedView, b: RelatedView| text_lt(a.path, b.path) || (a.path == b.path && a.depth <= b.depth)
}

pub open spec fn depth_path_order() -> spec_fn(RelatedView, RelatedView) -> bool {
    |a: RelatedView, b: RelatedView| a.depth < b.depth || (a.depth == b.depth && text_le(a.path, b.path))
}

/// The symbol with id `id`.
pub open spec fn symbol_by_id(g: Graph, id: Seq<char>) -> Option<SymbolView> {
    first(g.symbols, |s: SymbolView| s.id == id)
}

/// Whether `id` is the id of a symbol called `name`.
pub open spec fn names(g: Graph, name: Seq<char>, id: Seq<char>) -> bool {
    exists|i: int| 0 <= i < g.symbols.len() && (#[trigger] g.symbols[i]).name == name && g.symbols[i].id == id
}

/// The file of the symbol with id `id`, one step away, for `reason`.
pub open spec fn file_of_symbol(g: Graph, id: Seq<char>, reason: Seq<char>) -> Option<RelatedView> {
    match symbol_by_id(g, id) {
        Some(s) => Some(RelatedView { path: s.file_path, reason, depth: 1 }),
        None => None,
    }
}

/// The files with a symbol that refers to a symbol called `name`, in edge order.
pub open spec fn referrers(g: Graph, name: Seq<char>) -> Seq<RelatedView> {
    pick(
        g.sym_references,
        |e: EdgeView|
            if names(g, name, e.to) {
                file_of_symbol(g, e.from, "references "@ + name)
            } else {
                None
            },
    )
}

pub open spec fn as_list<T>(o: Option<T>) -> Seq<T> {
    match o {
        Some(x) => seq![x],
        None => Seq::empty(),
    }
}

/// What one type edge tells of the symbols called `name`: the file at its far
/// end, seen from either end.
pub open spec fn type_edge_items(
    g: Graph,
    name: Seq<char>,
    up: Seq<char>,
    down: Seq<char>,
    e: EdgeView,
) -> Seq<RelatedView> {
    let a = if names(g, name, e.from) {
        as_list(file_of_symbol(g, e.to, up))
    } else {
        Seq::empty()
    };
    let b = if names(g, name, e.to) {
        as_list(file_of_symbol(g, e.from, down))
    } else {
        Seq::empty()
    };
    a + b
}

pub open spec fn type_relations(g: Graph, name: Seq<char>) -> Seq<RelatedView> {
    flat(g.sym_inherits, |e: EdgeView| type_edge_items(g, name, "base type (inherits)"@, "subtype (inherits)"@, e))
        + flat(
        g.sym_implements,
        |e: EdgeView| type_edge_items(g, name, "implemented interface/trait"@, "implementor"@, e),
    )
}

/// The files that declare a symbol called `name`, in id order.
pub open spec fn declarations(g: Graph, name: Seq<char>) -> Seq<RelatedView> {
    pick(
        g.symbols,
        |s: SymbolView|
            if s.name == name {
                Some(RelatedView { path: s.file_path, reason: "exact symbol declaration"@, depth: 0 })
            } else {
                None
            },
    )
}

/// Whether `id` is the id of a package called `name`.
pub open spec fn package_named(g: Graph, name: Seq<char>, id: Seq<char>) -> bool {
    exists|i: int| 0 <= i < g.packages.len() && (#[trigger] g.packages[i]).name == name && g.packages[i].id == id
}

pub open spec fn importers(g: Graph, name: Seq<char>) -> Seq<Seq<char>> {
    pick(
        g.file_pkgs,
        |e: EdgeView|
            if package_named(g, name, e.to) {
                stripped(e.from, "file:"@)
            } else {
                None
            },
    )
}

/// The files in the directory of `path`, without `path` itself, in path order.
pub open spec fn neighbours(g: Graph, path: Seq<char>) -> Seq<RelatedView> {
    pick(
        g.files,
        |f: FileView|
            if before_last(f.path, '/') == before_last(path, '/') && f.path != path {
                Some(RelatedView { path: f.path, reason: "same directory"@, depth: 1 })
            } else {
                None
            },
    )
}

/// The name of the project with id `pid`, or the id itself where none is recorded.
pub open spec fn project_label(g: Graph, pid: Seq<char>) -> Seq<char> {
    match first(g.projects, |p: ProjectView| p.id == pid) {
        Some(p) => p.name,
        None => pid,
    }
}

/// The other files of the project `pid`, in edge order.
pub open spec fn members(g: Graph, pid: Seq<char>, fid: Seq<char>) -> Seq<RelatedView> {
    pick(
        g.project_files,
        |e: EdgeView|
            if e.from == pid && e.to != fid {
                match stripped(e.to, "file:"@) {
                    Some(p) => Some(
                        RelatedView { path: p, reason: "same project ("@ + project_label(g, pid) + ")"@, depth: 1 },
                    ),
                    None => None,
                }
            } else {
                None
            },
    )
}

pub open spec fn siblings(g: Graph, path: Seq<char>) -> Seq<RelatedView> {
    let fid = file_id_of(path);
    flat(
        g.project_files,
        |e: EdgeView|
            if e.to == fid {
                members(g, e.from, fid)
            } else {
                Seq::empty()
            },
    )
}

/// Simple, fully-functional in-memory store.
pub struct MemoryGraphStore {
    files: Vec<IndexedFile>,
    symbols: Vec<IndexedSymbol>,
    projects: Vec<IndexedProject>,
    packages: Vec<IndexedPackage>,
    file_symbols: Vec<Edge>,
    project_files: Vec<Edge>,
    project_refs: Vec<Edge>,
    project_pkgs: Vec<Edge>,
    file_pkgs: Vec<Edge>,
    sym_inherits: Vec<Edge>,
    sym_implements: Vec<Edge>,
    sym_references: Vec<Edge>,
    writes: Ghost<Seq<StoreWrite>>,
}

impl MemoryGraphStore {
    /// The graph that the lists hold.
    pub closed spec fn graph(&self) -> Graph {
        Graph {
            files: views(self.files@),
            symbols: views(self.symbols@),
            projects: views(self.projects@),
            packages: views(self.packages@),
            file_symbols: views(self.file_symbols@),
            project_files: views(self.project_files@),
            project_refs: views(self.project_refs@),
            project_pkgs: views(self.project_pkgs@),
            file_pkgs: views(self.file_pkgs@),
            sym_inherits: views(self.sym_inherits@),
            sym_implements: views(self.sym_implements@),
            sym_references: views(self.sym_references@),
        }
    }

    /// An empty store.
    pub fn new() -> (r: Self)
        ensures
            r.valid(),
            r.history() == Seq::<StoreWrite>::empty(),
    {
        let r = MemoryGraphStore {
            files: Vec::new(),
            symbols: Vec::new(),
            projects: Vec::new(),
            packages: Vec::new(),
            file_symbols: Vec::new(),
            project_files: Vec::new(),
            project_refs: Vec::new(),
            project_pkgs: Vec::new(),
            file_pkgs: Vec::new(),
            sym_inherits: Vec::new(),
            sym_implements: Vec::new(),
            sym_references: Vec::new(),
            writes: Ghost(Seq::empty()),
        };
        proof {
            let g = r.graph();
            assert(g.files =~= Seq::<FileView>::empty());
            assert(g.symbols =~= Seq::<SymbolView>::empty());
            assert(g.projects =~= Seq::<ProjectView>::empty());
            assert(g.packages =~= Seq::<PackageView>::empty());
            assert(g.file_symbols =~= Seq::<EdgeView>::empty());
            assert(g.project_files =~= Seq::<EdgeView>::empty());
            assert(g.project_refs =~= Seq::<EdgeView>::empty());
            assert(g.project_pkgs =~= Seq::<EdgeView>::empty());
            assert(g.file_pkgs =~= Seq::<EdgeView>::empty());
            assert(g.sym_inherits =~= Seq::<EdgeView>::empty());
            assert(g.sym_implements =~= Seq::<EdgeView>::empty());
            assert(g.sym_references =~= Seq::<EdgeView>::empty());
        }
        r
    }

    /// Whether `id` is the id of a symbol called `name`.
    fn is_named(&self, name: &str, id: &str) -> (r: bool)
        ensures
            r == names(self.graph(), name@, id@),
    {
        let mut i: usize = 0;
        while i < self.symbols.len()
            invariant
                i <= self.symbols@.len(),
                forall|j: int|
                    0 <= j < i ==> !((#[trigger] self.graph().symbols[j]).name == name@ && self.graph().symbols[j].id
                        == id@),
            decreases self.symbols@.len() - i,
        {
            assert(self.graph().symbols[i as int] == self.symbols@[i as int]@);
            if same(self.symbols[i].name.as_str(), name) && same(self.symbols[i].id.as_str(), id) {
                return true;
            }
            i += 1;
        }
        false
    }

    /// Whether `id` is the id of a package called `name`.
    fn is_package_named(&self, name: &str, id: &str) -> (r: bool)
        ensures
            r == package_named(self.graph(), name@, id@),
    {
        let mut i: usize = 0;
        while i < self.packages.len()
            invariant
                i <= self.packages@.len(),
                forall|j: int|
                    0 <= j < i ==> !((#[trigger] self.graph().packages[j]).name == name@ && self.graph().packages[j].id
                        == id@),
            decreases self.packages@.len() - i,
        {
            assert(self.graph().packages[i as int] == self.packages@[i as int]@);
            if same(self.packages[i].name.as_str(), name) && same(self.packages[i].id.as_str(), id) {
                return true;
            }
            i += 1;
        }
        false
    }

    fn symbol_file(&self, id: &str, reason: &str) -> (r: Option<RelatedItem>)
        ensures
            opt_view(r) == file_of_symbol(self.graph(), id@, reason@),
    {
        let is_it = |s: &IndexedSymbol| -> (r: bool)
            ensures
                r == (s@.id == id@),
            {
                same(s.id.as_str(), id)
            };
        match find_first(&self.symbols, is_it, Ghost(|s: SymbolView| s.id == id@)) {
            Some(s) => Some(RelatedItem { path: s.file_path.clone(), reason: reason.to_owned(), depth: 1 }),
            None => None,
        }
    }

    fn referring_files(&self, name: &str) -> (r: Vec<RelatedItem>)
        ensures
            views(r@) == referrers(self.graph(), name@),
    {
        let reason = cat("references ", name);
        let ghost g = self.graph();
        let ghost want = |e: EdgeView|
            if names(g, name@, e.to) {
                file_of_symbol(g, e.from, "references "@ + name@)
            } else {
                None
            };
        let f = |e: &Edge| -> (r: Option<RelatedItem>)
            ensures
                opt_view(r) == want(e@),
            {
                if self.is_named(name, e.to.as_str()) {
                    self.symbol_file(e.from.as_str(), reason.as_str())
                } else {
                    None
                }
            };
        pick_views(&self.sym_references, f, Ghost(want))
    }

    fn type_edge_files(&self, name: &str, up: &str, down: &str, e: &Edge) -> (r: Vec<RelatedItem>)
        ensures
            views(r@) == type_edge_items(self.graph(), name@, up@, down@, e@),
    {
        let mut out: Vec<RelatedItem> = Vec::new();
        if self.is_named(name, e.from.as_str()) {
            match self.symbol_file(e.to.as_str(), up) {
                Some(item) => {
                    out.push(item);
                },
                None => {},
            }
        }
        if self.is_named(name, e.to.as_str()) {
            match self.symbol_file(e.from.as_str(), down) {
                Some(item) => {
                    out.push(item);
                },
                None => {},
            }
        }
        assert(views(out@) =~= type_edge_items(self.graph(), name@, up@, down@, e@));
        out
    }

    fn label_of(&self, pid: &str) -> (r: String)
        ensures
            r@ == project_label(self.graph(), pid@),
    {
        let is_it = |p: &IndexedProject| -> (r: bool)
            ensures
                r == (p@.id == pid@),
            {
                same(p.id.as_str(), pid)
            };
        match find_first(&self.projects, is_it, Ghost(|p: ProjectView| p.id == pid@)) {
            Some(p) => p.name.clone(),
            None => pid.to_owned(),
        }
    }

    fn member_files(&self, pid: &str, fid: &str) -> (r: Vec<RelatedItem>)
        ensures
            views(r@) == members(self.graph(), pid@, fid@),
    {
        let ghost g = self.graph();
        let label = self.label_of(pid);
        let reason = cat3("same project (", label.as_str(), ")");
        let ghost want = |e: EdgeView|
            if e.from == pid@ && e.to != fid@ {
                match stripped(e.to, "file:"@) {
                    Some(p) => Some(
                        RelatedView { path: p, reason: "same project ("@ + project_label(g, pid@) + ")"@, depth: 1 },
                    ),
                    None => None,
                }
            } else {
                None
            };
        let f = |e: &Edge| -> (r: Option<RelatedItem>)
            ensures
                opt_view(r) == want(e@),
            {
                if same(e.from.as_str(), pid) && !same(e.to.as_str(), fid) {
                    match strip_prefix(e.to.as_str(), "file:") {
                        Some(p) => Some(RelatedItem { path: p, reason: reason.clone(), depth: 1 }),
                        None => None,
                    }
                } else {
                    None
                }
            };
        pick_views(&self.project_files, f, Ghost(want))
    }
}

impl Default for MemoryGraphStore {
    fn default() -> (r: Self)
        ensures
            r.valid(),
            r.history() == Seq::<StoreWrite>::empty(),
    {
        MemoryGraphStore::new()
    }
}

/// Sorted by path, one item per path.
pub open spec fn one_per_path(s: Seq<RelatedView>) -> Seq<RelatedView> {
    dedup(stable_sort(s, path_order()), same_path())
}

/// Sorts by path and keeps one item per path.
pub fn sort_one_per_path(v: Vec<RelatedItem>) -> (r: Vec<RelatedItem>)
    ensures
        views(r@) == one_per_path(views(v@)),
{
    let le = |a: &RelatedItem, b: &RelatedItem| -> (r: bool)
        ensures
            r == text_le(a@.path, b@.path),
        {
            !before(b.path.as_str(), a.path.as_str())
        };
    let s = sort_views(v, le, Ghost(path_order()));
    drop_same_path(s)
}

/// Sorts by path and reason and keeps each pair once.
pub fn sort_path_reason(v: Vec<RelatedItem>) -> (r: Vec<RelatedItem>)
    ensures
        views(r@) == dedup(stable_sort(views(v@), path_reason_order()), same_path_reason()),
{
    let le = |a: &RelatedItem, b: &RelatedItem| -> (r: bool)
        ensures
            r == (text_lt(a@.path, b@.path) || (a@.path == b@.path && text_le(a@.reason, b@.reason))),
        {
            before(a.path.as_str(), b.path.as_str()) || (same(a.path.as_str(), b.path.as_str()) && !before(
                b.reason.as_str(),
                a.reason.as_str(),
            ))
        };
    let eq = |a: &RelatedItem, b: &RelatedItem| -> (r: bool)
        ensures
            r == (a@.path == b@.path && a@.reason == b@.reason),
        { same(a.path.as_str(), b.path.as_str()) && same(a.reason.as_str(), b.reason.as_str()) };
    let s = sort_views(v, le, Ghost(path_reason_order()));
    dedup_views(s, eq, Ghost(same_path_reason()))
}

fn drop_same_path(v: Vec<RelatedItem>) -> (r: Vec<RelatedItem>)
    ensures
        views(r@) == dedup(views(v@), same_path()),
{
    let eq = |a: &RelatedItem, b: &RelatedItem| -> (r: bool)
        ensures
            r == (a@.path == b@.path),
        {
            same(a.path.as_str(), b.path.as_str())
        };
    dedup_views(v, eq, Ghost(same_path()))
}

fn retain_other_sources(v: Vec<Edge>, prefix: &str, Ghost(path): Ghost<Seq<char>>) -> (r: Vec<Edge>)
    requires
        prefix@ == symbol_prefix(path),
    ensures
        views(r@) == without_source(views(v@), path),
{
    let ghost other = |e: EdgeView| !symbol_prefix(path).is_prefix_of(e.from);
    let f = |e: &Edge| -> (r: bool)
        ensures
            r == other(e@),
        {
            !starts_with(e.from.as_str(), prefix)
        };
    retain(v, f, Ghost(other))
}

fn put_edge(v: &mut Vec<Edge>, from: &str, to: &str)
    ensures
        views(final(v)@) == with_edge(views(old(v)@), from@, to@),
{
    put_in_place(v, Edge { from: from.to_owned(), to: to.to_owned() });
}

pub open spec fn capped_sum(a: nat, b: nat) -> usize {
    if a + b <= usize::MAX {
        (a + b) as usize
    } else {
        usize::MAX
    }
}

impl GraphStore for MemoryGraphStore {
    closed spec fn valid(&self) -> bool {
        self.graph() == replay(self.writes@)
    }

    closed spec fn history(&self) -> Seq<StoreWrite> {
        self.writes@
    }

    open spec fn infallible() -> bool {
        true
    }

    open spec fn symbols_matching_in(h: Seq<StoreWrite>, q: SymbolQueryView) -> Seq<SymbolView> {
        stable_sort(keep(replay(h).symbols, |s: SymbolView| symbol_passes(q, s)), symbol_name_order())
    }

    open spec fn files_matching_in(h: Seq<StoreWrite>, q: FileQueryView) -> Seq<FileView> {
        stable_sort(keep(replay(h).files, |f: FileView| file_passes(q, f)), file_path_order())
    }

    open spec fn related_to_symbol_in(h: Seq<StoreWrite>, symbol: Seq<char>, depth: usize) -> Seq<RelatedView> {
        let g = replay(h);
        dedup(stable_sort(declarations(g, symbol) + referrers(g, symbol), path_depth_order()), same_path())
    }

    open spec fn related_to_file_in(h: Seq<StoreWrite>, path: Seq<char>, depth: usize) -> Seq<RelatedView> {
        stable_sort(
            seq![RelatedView { path, reason: "seed file"@, depth: 0 }] + neighbours(replay(h), path),
            depth_path_order(),
        )
    }

    open spec fn stats_in(h: Seq<StoreWrite>) -> IndexStats {
        let g = replay(h);
        IndexStats {
            files: g.files.len() as usize,
            symbols: g.symbols.len() as usize,
            projects: g.projects.len() as usize,
            packages: g.packages.len() as usize,
            edges: capped_sum(g.project_refs.len(), g.project_pkgs.len()),
            reference_edges: g.sym_references.len() as usize,
        }
    }

    open spec fn all_files_in(h: Seq<StoreWrite>) -> Seq<FileView> {
        replay(h).files
    }

    open spec fn file_by_path_in(h: Seq<StoreWrite>, path: Seq<char>) -> Option<FileView> {
        first(replay(h).files, |f: FileView| f.path == path)
    }

    open spec fn all_packages_in(h: Seq<StoreWrite>) -> Seq<PackageView> {
        replay(h).packages
    }

    open spec fn all_projects_in(h: Seq<StoreWrite>) -> Seq<ProjectView> {
        replay(h).projects
    }

    open spec fn files_importing_package_in(h: Seq<StoreWrite>, package: Seq<char>) -> Seq<Seq<char>> {
        sorted_set(importers(replay(h), package))
    }

    open spec fn symbol_type_relations_in(h: Seq<StoreWrite>, symbol: Seq<char>) -> Seq<RelatedView> {
        dedup(stable_sort(type_relations(replay(h), symbol), path_reason_order()), same_path_reason())
    }

    open spec fn symbol_references_in(h: Seq<StoreWrite>, symbol: Seq<char>) -> Seq<RelatedView> {
        one_per_path(referrers(replay(h), symbol))
    }

    open spec fn project_siblings_in(h: Seq<StoreWrite>, path: Seq<char>) -> Seq<RelatedView> {
        one_per_path(siblings(replay(h), path))
    }

    fn initialize_schema(&mut self) -> (r: Result<(), SynapseError>) {
        Ok(())
    }

    fn upsert_file(&mut self, file: IndexedFile) -> (r: Result<(), SynapseError>) {
        proof {
            replay_push(self.writes@, StoreWrite::UpsertFile(file@));
        }
        self.writes = Ghost(self.writes@.push(StoreWrite::UpsertFile(file@)));
        put_in_place(&mut self.files, file);
        Ok(())
    }

    fn remove_file(&mut self, path: &str) -> (r: Result<(), SynapseError>) {
        let ghost g = self.graph();
        let fid = file_id(path);
        let ghost h = self.writes@;
        let fid_of = fid.as_str();
        let declared_to = |e: &Edge| -> (r: Option<String>)
            ensures
                opt_view(r) == (if e@.from == fid@ {
                    Some(e@.to)
                } else {
                    None
                }),
            {
                if same(e.from.as_str(), fid_of) {
                    Some(e.to.clone())
                } else {
                    None
                }
            };
        let ghost to_of = |e: EdgeView|
            if e.from == fid@ {
                Some(e.to)
            } else {
                None
            };
        let declared = pick_views(&self.file_symbols, declared_to, Ghost(to_of));
        proof {
            assert forall|sid: Seq<char>| #[trigger] views(declared@).contains(sid) == declares(g, fid@, sid) by {
                declared_members(g.file_symbols, fid@, to_of, sid);
            }
        }
        let ghost left = |s: SymbolView| !declares(g, fid@, s.id) && s.file_path != path@;
        let stays = |s: &IndexedSymbol| -> (r: bool)
            ensures
                r == left(s@),
            {
                !crate::text::among(&declared, s.id.as_str()) && !same(s.file_path.as_str(), path)
            };
        let other_file = |f: &IndexedFile| -> (r: bool)
            ensures
                r == (f@.path != path@),
            {
                !same(f.path.as_str(), path)
            };
        let other_source = |e: &Edge| -> (r: bool)
            ensures
                r == (e@.from != fid@),
            {
                !same(e.from.as_str(), fid_of)
            };
        let other_source_too = |e: &Edge| -> (r: bool)
            ensures
                r == (e@.from != fid@),
            {
                !same(e.from.as_str(), fid_of)
            };
        let other_target = |e: &Edge| -> (r: bool)
            ensures
                r == (e@.to != fid@),
            {
                !same(e.to.as_str(), fid_of)
            };
        let prefix = cat3("sym:", path, "#");
        let prefix = prefix.as_str();
        let mut old_files: Vec<IndexedFile> = Vec::new();
        let mut old_symbols: Vec<IndexedSymbol> = Vec::new();
        let mut old_file_symbols: Vec<Edge> = Vec::new();
        let mut old_file_pkgs: Vec<Edge> = Vec::new();
        let mut old_project_files: Vec<Edge> = Vec::new();
        let mut old_inherits: Vec<Edge> = Vec::new();
        let mut old_implements: Vec<Edge> = Vec::new();
        let mut old_references: Vec<Edge> = Vec::new();
        std::mem::swap(&mut self.files, &mut old_files);
        std::mem::swap(&mut self.symbols, &mut old_symbols);
        std::mem::swap(&mut self.file_symbols, &mut old_file_symbols);
        std::mem::swap(&mut self.file_pkgs, &mut old_file_pkgs);
        std::mem::swap(&mut self.project_files, &mut old_project_files);
        std::mem::swap(&mut self.sym_inherits, &mut old_inherits);
        std::mem::swap(&mut self.sym_implements, &mut old_implements);
        std::mem::swap(&mut self.sym_references, &mut old_references);
        self.files = retain(old_files, other_file, Ghost(|f: FileView| f.path != path@));
        self.symbols = retain(old_symbols, stays, Ghost(left));
        self.file_symbols = retain(old_file_symbols, other_source, Ghost(|e: EdgeView| e.from != fid@));
        self.file_pkgs = retain(old_file_pkgs, other_source_too, Ghost(|e: EdgeView| e.from != fid@));
        self.project_files = retain(old_project_files, other_target, Ghost(|e: EdgeView| e.to != fid@));
        self.sym_inherits = retain_other_sources(old_inherits, prefix, Ghost(path@));
        self.sym_implements = retain_other_sources(old_implements, prefix, Ghost(path@));
        self.sym_references = retain_other_sources(old_references, prefix, Ghost(path@));
        proof {
            replay_push(h, StoreWrite::RemoveFile(path@));
            assert(self.graph() == without_file(g, path@));
        }
        self.writes = Ghost(self.writes@.push(StoreWrite::RemoveFile(path@)));
        Ok(())
    }

    fn upsert_symbol(&mut self, symbol: IndexedSymbol) -> (r: Result<(), SynapseError>) {
        proof {
            replay_push(self.writes@, StoreWrite::UpsertSymbol(symbol@));
        }
        self.writes = Ghost(self.writes@.push(StoreWrite::UpsertSymbol(symbol@)));
        put_in_place(&mut self.symbols, symbol);
        Ok(())
    }

    fn upsert_project(&mut self, project: IndexedProject) -> (r: Result<(), SynapseError>) {
        proof {
            replay_push(self.writes@, StoreWrite::UpsertProject(project@));
        }
        self.writes = Ghost(self.writes@.push(StoreWrite::UpsertProject(project@)));
        put_in_place(&mut self.projects, project);
        Ok(())
    }

    fn upsert_package(&mut self, package: IndexedPackage) -> (r: Result<(), SynapseError>) {
        proof {
            replay_push(self.writes@, StoreWrite::UpsertPackage(package@));
        }
        self.writes = Ghost(self.writes@.push(StoreWrite::UpsertPackage(package@)));
        put_in_place(&mut self.packages, package);
        Ok(())
    }

    fn link_project_contains_file(&mut self, project_id: &str, file_id: &str) -> (r: Result<(), SynapseError>) {
        proof {
            replay_push(self.writes@, StoreWrite::ContainsFile(project_id@, file_id@));
        }
        self.writes = Ghost(self.writes@.push(StoreWrite::ContainsFile(project_id@, file_id@)));
        put_edge(&mut self.project_files, project_id, file_id);
        Ok(())
    }

    fn link_file_declares_symbol(&mut self, file_id: &str, symbol_id: &str) -> (r: Result<(), SynapseError>) {
        proof {
            replay_push(self.writes@, StoreWrite::Declares(file_id@, symbol_id@));
        }
        self.writes = Ghost(self.writes@.push(StoreWrite::Declares(file_id@, symbol_id@)));
        put_edge(&mut self.file_symbols, file_id, symbol_id);
        Ok(())
    }

    fn link_project_references_project(&mut self, from_project_id: &str, to_project_id: &str) -> (r: Result<(), SynapseError>) {
        proof {
            replay_push(self.writes@, StoreWrite::ReferencesProject(from_project_id@, to_project_id@));
        }
        self.writes = Ghost(self.writes@.push(StoreWrite::ReferencesProject(from_project_id@, to_project_id@)));
        put_edge(&mut self.project_refs, from_project_id, to_project_id);
        Ok(())
    }

    fn link_project_uses_package(&mut self, project_id: &str, package_id: &str) -> (r: Result<(), SynapseError>) {
        proof {
            replay_push(self.writes@, StoreWrite::UsesPackage(project_id@, package_id@));
        }
        self.writes = Ghost(self.writes@.push(StoreWrite::UsesPackage(project_id@, package_id@)));
        put_edge(&mut self.project_pkgs, project_id, package_id);
        Ok(())
    }

    fn link_file_imports_package(&mut self, file_id: &str, package_id: &str) -> (r: Result<(), SynapseError>) {
        proof {
            replay_push(self.writes@, StoreWrite::ImportsPackage(file_id@, package_id@));
        }
        self.writes = Ghost(self.writes@.push(StoreWrite::ImportsPackage(file_id@, package_id@)));
        put_edge(&mut self.file_pkgs, file_id, package_id);
        Ok(())
    }

    fn link_symbol_inherits(&mut self, from_symbol_id: &str, to_symbol_id: &str) -> (r: Result<(), SynapseError>) {
        proof {
            replay_push(self.writes@, StoreWrite::Inherits(from_symbol_id@, to_symbol_id@));
        }
        self.writes = Ghost(self.writes@.push(StoreWrite::Inherits(from_symbol_id@, to_symbol_id@)));
        put_edge(&mut self.sym_inherits, from_symbol_id, to_symbol_id);
        Ok(())
    }

    fn link_symbol_implements(&mut self, from_symbol_id: &str, to_symbol_id: &str) -> (r: Result<(), SynapseError>) {
        proof {
            replay_push(self.writes@, StoreWrite::Implements(from_symbol_id@, to_symbol_id@));
        }
        self.writes = Ghost(self.writes@.push(StoreWrite::Implements(from_symbol_id@, to_symbol_id@)));
        put_edge(&mut self.sym_implements, from_symbol_id, to_symbol_id);
        Ok(())
    }

    fn link_symbol_references(&mut self, from_symbol_id: &str, to_symbol_id: &str) -> (r: Result<(), SynapseError>) {
        proof {
            replay_push(self.writes@, StoreWrite::References(from_symbol_id@, to_symbol_id@));
        }
        self.writes = Ghost(self.writes@.push(StoreWrite::References(from_symbol_id@, to_symbol_id@)));
        put_edge(&mut self.sym_references, from_symbol_id, to_symbol_id);
        Ok(())
    }

    fn symbols_matching(&self, query: &SymbolSearchQuery) -> (r: Result<Vec<IndexedSymbol>, SynapseError>) {
        let f = |s: &IndexedSymbol| -> (r: bool)
            ensures
                r == symbol_passes(query@, s@),
            {
                let name_ok = match &query.name {
                    Some(n) => contains_ignore_ascii_case(s.name.as_str(), n.as_str()),
                    None => true,
                };
                let kind_ok = match query.kind {
                    Some(k) => s.kind == k,
                    None => true,
                };
                let language_ok = match query.language {
                    Some(l) => s.language == l,
                    None => true,
                };
                let file_ok = match &query.file {
                    Some(p) => same(s.file_path.as_str(), p.as_str()),
                    None => true,
                };
                name_ok && kind_ok && language_ok && file_ok
            };
        let out = select_clones(&self.symbols, f, Ghost(|s: SymbolView| symbol_passes(query@, s)));
        let le = |a: &IndexedSymbol, b: &IndexedSymbol| -> (r: bool)
            ensures
                r == (text_lt(a@.name, b@.name) || (a@.name == b@.name && text_le(a@.file_path, b@.file_path))),
            {
                before(a.name.as_str(), b.name.as_str()) || (same(a.name.as_str(), b.name.as_str()) && !before(
                    b.file_path.as_str(),
                    a.file_path.as_str(),
                ))
            };
        Ok(sort_views(out, le, Ghost(symbol_name_order())))
    }

    fn files_matching(&self, query: &FileSearchQuery) -> (r: Result<Vec<IndexedFile>, SynapseError>) {
        let f = |f: &IndexedFile| -> (r: bool)
            ensures
                r == file_passes(query@, f@),
            {
                let path_ok = match &query.path_contains {
                    Some(p) => contains_ignore_ascii_case(f.path.as_str(), p.as_str()),
                    None => true,
                };
                let language_ok = match query.language {
                    Some(l) => f.language == l,
                    None => true,
                };
                path_ok && language_ok
            };
        let out = select_clones(&self.files, f, Ghost(|f: FileView| file_passes(query@, f)));
        let le = |a: &IndexedFile, b: &IndexedFile| -> (r: bool)
            ensures
                r == text_le(a@.path, b@.path),
            {
                !before(b.path.as_str(), a.path.as_str())
            };
        Ok(sort_views(out, le, Ghost(file_path_order())))
    }

    fn related_to_symbol(&self, symbol: &str, depth: usize) -> (r: Result<Vec<RelatedItem>, SynapseError>) {
        let ghost want = |s: SymbolView|
            if s.name == symbol@ {
                Some(RelatedView { path: s.file_path, reason: "exact symbol declaration"@, depth: 0 })
            } else {
                None
            };
        let f = |s: &IndexedSymbol| -> (r: Option<RelatedItem>)
            ensures
                opt_view(r) == want(s@),
            {
                if same(s.name.as_str(), symbol) {
                    Some(
                        RelatedItem {
                            path: s.file_path.clone(),
                            reason: "exact symbol declaration".to_owned(),
                            depth: 0,
                        },
                    )
                } else {
                    None
                }
            };
        let mut out = pick_views(&self.symbols, f, Ghost(want));
        let mut users = self.referring_files(symbol);
        proof {
            crate::lists::views_add(out@, users@);
        }
        out.append(&mut users);
        let le = |a: &RelatedItem, b: &RelatedItem| -> (r: bool)
            ensures
                r == (text_lt(a@.path, b@.path) || (a@.path == b@.path && a@.depth <= b@.depth)),
            {
                before(a.path.as_str(), b.path.as_str()) || (same(a.path.as_str(), b.path.as_str()) && a.depth
                    <= b.depth)
            };
        let out = sort_views(out, le, Ghost(path_depth_order()));
        Ok(drop_same_path(out))
    }

    fn related_to_file(&self, path: &str, depth: usize) -> (r: Result<Vec<RelatedItem>, SynapseError>) {
        let dir = text_before_last(path, '/');
        let dir = dir.as_str();
        let ghost want = |f: FileView|
            if before_last(f.path, '/') == before_last(path@, '/') && f.path != path@ {
                Some(RelatedView { path: f.path, reason: "same directory"@, depth: 1 })
            } else {
                None
            };
        let f = |f: &IndexedFile| -> (r: Option<RelatedItem>)
            ensures
                opt_view(r) == want(f@),
            {
                let file_dir = text_before_last(f.path.as_str(), '/');
                if same(file_dir.as_str(), dir) && !same(f.path.as_str(), path) {
                    Some(RelatedItem { path: f.path.clone(), reason: "same directory".to_owned(), depth: 1 })
                } else {
                    None
                }
            };
        let mut near = pick_views(&self.files, f, Ghost(want));
        let mut out: Vec<RelatedItem> = Vec::new();
        out.push(RelatedItem { path: path.to_owned(), reason: "seed file".to_owned(), depth: 0 });
        proof {
            assert(views(out@) =~= seq![RelatedView { path: path@, reason: "seed file"@, depth: 0 }]);
            crate::lists::views_add(out@, near@);
        }
        out.append(&mut near);
        let le = |a: &RelatedItem, b: &RelatedItem| -> (r: bool)
            ensures
                r == (a@.depth < b@.depth || (a@.depth == b@.depth && text_le(a@.path, b@.path))),
            {
                a.depth < b.depth || (a.depth == b.depth && !before(b.path.as_str(), a.path.as_str()))
            };
        Ok(sort_views(out, le, Ghost(depth_path_order())))
    }

    fn stats(&self) -> (r: Result<IndexStats, SynapseError>) {
        let refs: usize = self.project_refs.len();
        let pkgs: usize = self.project_pkgs.len();
        let edges: usize = if refs <= usize::MAX - pkgs {
            refs + pkgs
        } else {
            usize::MAX
        };
        Ok(
            IndexStats {
                files: self.files.len(),
                symbols: self.symbols.len(),
                projects: self.projects.len(),
                packages: self.packages.len(),
                edges,
                reference_edges: self.sym_references.len(),
            },
        )
    }

    fn all_files(&self) -> (r: Result<Vec<IndexedFile>, SynapseError>) {
        Ok(clone_all(&self.files))
    }

    fn file_by_path(&self, path: &str) -> (r: Result<Option<IndexedFile>, SynapseError>) {
        let is_it = |f: &IndexedFile| -> (r: bool)
            ensures
                r == (f@.path == path@),
            {
                same(f.path.as_str(), path)
            };
        match find_first(&self.files, is_it, Ghost(|f: FileView| f.path == path@)) {
            Some(f) => Ok(Some(f.clone())),
            None => Ok(None),
        }
    }

    fn all_packages(&self) -> (r: Result<Vec<IndexedPackage>, SynapseError>) {
        Ok(clone_all(&self.packages))
    }

    fn all_projects(&self) -> (r: Result<Vec<IndexedProject>, SynapseError>) {
        Ok(clone_all(&self.projects))
    }

    fn files_importing_package(&self, package_name: &str) -> (r: Result<Vec<String>, SynapseError>) {
        let ghost g = self.graph();
        let ghost want = |e: EdgeView|
            if package_named(g, package_name@, e.to) {
                stripped(e.from, "file:"@)
            } else {
                None
            };
        let f = |e: &Edge| -> (r: Option<String>)
            ensures
                opt_view(r) == want(e@),
            {
                if self.is_package_named(package_name, e.to.as_str()) {
                    strip_prefix(e.from.as_str(), "file:")
                } else {
                    None
                }
            };
        Ok(sort_dedup_texts(pick_views(&self.file_pkgs, f, Ghost(want))))
    }

    fn symbol_type_relations(&self, symbol_name: &str) -> (r: Result<Vec<RelatedItem>, SynapseError>) {
        let ghost g = self.graph();
        let ghost inherited = |e: EdgeView|
            type_edge_items(g, symbol_name@, "base type (inherits)"@, "subtype (inherits)"@, e);
        let f = |e: &Edge| -> (r: Vec<RelatedItem>)
            ensures
                views(r@) == inherited(e@),
            { self.type_edge_files(symbol_name, "base type (inherits)", "subtype (inherits)", e) };
        let mut out = flat_views(&self.sym_inherits, f, Ghost(inherited));
        let ghost implemented = |e: EdgeView|
            type_edge_items(g, symbol_name@, "implemented interface/trait"@, "implementor"@, e);
        let f2 = |e: &Edge| -> (r: Vec<RelatedItem>)
            ensures
                views(r@) == implemented(e@),
            { self.type_edge_files(symbol_name, "implemented interface/trait", "implementor", e) };
        let mut more = flat_views(&self.sym_implements, f2, Ghost(implemented));
        proof {
            crate::lists::views_add(out@, more@);
        }
        out.append(&mut more);
        Ok(sort_path_reason(out))
    }

    fn symbol_references(&self, symbol_name: &str) -> (r: Result<Vec<RelatedItem>, SynapseError>) {
        Ok(sort_one_per_path(self.referring_files(symbol_name)))
    }

    fn project_siblings(&self, path: &str) -> (r: Result<Vec<RelatedItem>, SynapseError>) {
        let ghost g = self.graph();
        let fid = file_id(path);
        let fid = fid.as_str();
        let ghost want = |e: EdgeView|
            if e.to == fid@ {
                members(g, e.from, fid@)
            } else {
                Seq::empty()
            };
        let f = |e: &Edge| -> (r: Vec<RelatedItem>)
            ensures
                views(r@) == want(e@),
            {
                if same(e.to.as_str(), fid) {
                    self.member_files(e.from.as_str(), fid)
                } else {
                    let none: Vec<RelatedItem> = Vec::new();
                    assert(views(none@) =~= Seq::<RelatedView>::empty());
                    none
                }
            };
        Ok(sort_one_per_path(flat_views(&self.project_files, f, Ghost(want))))
    }
}

/// The ids picked from the edges that start at `fid` are those declared by it.
proof fn declared_members(
    edges: Seq<EdgeView>,
    fid: Seq<char>,
    to_of: spec_fn(EdgeView) -> Option<Seq<char>>,
    sid: Seq<char>,
)
    requires
        forall|e: EdgeView| #[trigger]
            to_of(e) == (if e.from == fid {
                Some(e.to)
            } else {
                None
            }),
    ensures
        pick(edges, to_of).contains(sid) == edges.contains(EdgeView { from: fid, to: sid }),
    decreases edges.len(),
{
    let e = EdgeView { from: fid, to: sid };
    if edges.len() > 0 {
        let rest = edges.drop_last();
        declared_members(rest, fid, to_of, sid);
        let p = pick(rest, to_of);
        assert(edges.contains(e) == (rest.contains(e) || edges.last() == e)) by {
            if rest.contains(e) {
                let i = rest.index_of(e);
                assert(edges[i] == e);
            }
            if edges.contains(e) && edges.last() != e {
                let i = edges.index_of(e);
                assert(rest[i] == e);
            }
        }
        if edges.last().from == fid {
            let q = p.push(edges.last().to);
            assert(q.contains(sid) == (p.contains(sid) || edges.last().to == sid)) by {
                if p.contains(sid) {
                    let i = p.index_of(sid);
                    assert(q[i] == sid);
                }
                assert(q[p.len() as int] == edges.last().to);
                if q.contains(sid) && edges.last().to != sid {
                    let i = q.index_of(sid);
                    assert(p[i] == sid);
                }
            }
        }
    }
}

} // verus!
