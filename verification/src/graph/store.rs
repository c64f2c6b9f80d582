//! The [`GraphStore`] contract.
//!
//! All persistence and querying of indexed facts goes through this trait so the
//! storage backend stays replaceable. A store is described by its *history*: the
//! writes it has taken, in order. What a query answers is a function of that
//! history alone.

use crate::errors::SynapseError;
use crate::graph::model::{
    FileQueryView, FileSearchQuery, FileView, FileWrite, FileWriteView, GraphEdge, IndexStats, IndexedFile,
    IndexedPackage, IndexedProject, IndexedSymbol, PackageView, ProjectView, RelatedItem, RelatedView, SymbolQueryView,
    SymbolSearchQuery, SymbolView,
};
use crate::text::{opt_view, views};
use vstd::prelude::*;

verus! {

/// One write to a store.
pub enum StoreWrite {
    UpsertFile(FileView),
    RemoveFile(Seq<char>),
    UpsertSymbol(SymbolView),
    UpsertProject(ProjectView),
    UpsertPackage(PackageView),
    ContainsFile(Seq<char>, Seq<char>),
    Declares(Seq<char>, Seq<char>),
    ReferencesProject(Seq<char>, Seq<char>),
    UsesPackage(Seq<char>, Seq<char>),
    ImportsPackage(Seq<char>, Seq<char>),
    Inherits(Seq<char>, Seq<char>),
    Implements(Seq<char>, Seq<char>),
    References(Seq<char>, Seq<char>),
}

/// The write that records an edge.
pub open spec fn edge_write(e: GraphEdge) -> StoreWrite {
    match e {
        GraphEdge::SymbolReferences { from, to } => StoreWrite::References(from@, to@),
        GraphEdge::SymbolInherits { from, to } => StoreWrite::Inherits(from@, to@),
        GraphEdge::SymbolImplements { from, to } => StoreWrite::Implements(from@, to@),
        GraphEdge::FileImportsPackage { file, package } => StoreWrite::ImportsPackage(file@, package@),
        GraphEdge::ProjectContainsFile { project, file } => StoreWrite::ContainsFile(project@, file@),
    }
}

impl View for GraphEdge {
    type V = StoreWrite;

    open spec fn view(&self) -> StoreWrite {
        edge_write(*self)
    }
}

/// The writes of the symbols a file declares: each symbol, then its `DECLARES`
/// edge.
pub open spec fn declare_writes(file_id: Seq<char>, symbols: Seq<SymbolView>) -> Seq<StoreWrite>
    decreases symbols.len(),
{
    if symbols.len() == 0 {
        Seq::empty()
    } else {
        declare_writes(file_id, symbols.drop_last()).push(StoreWrite::UpsertSymbol(symbols.last())).push(
            StoreWrite::Declares(file_id, symbols.last().id),
        )
    }
}

/// The writes of one re-indexed file: forget what was known of it, record it,
/// then record every symbol it declares.
pub open spec fn file_write_steps(fw: FileWriteView) -> Seq<StoreWrite> {
    seq![StoreWrite::RemoveFile(fw.file.path), StoreWrite::UpsertFile(fw.file)] + declare_writes(
        fw.file.id,
        fw.symbols,
    )
}

/// The writes of a batch of re-indexed files, in order.
pub open spec fn batch_writes(files: Seq<FileWriteView>) -> Seq<StoreWrite>
    decreases files.len(),
{
    if files.len() == 0 {
        Seq::empty()
    } else {
        batch_writes(files.drop_last()) + file_write_steps(files.last())
    }
}

/// Persistence + query interface over the indexed repository graph.
///
/// The specification functions are the model of a store: every kind of store says
/// what its history is and what it answers after which writes.
pub trait GraphStore {
    /// What holds of a store that is in use.
    spec fn valid(&self) -> bool;

    /// The writes the store has taken, oldest first.
    spec fn history(&self) -> Seq<StoreWrite>;

    /// Whether no operation of this kind of store ever fails.
    spec fn infallible() -> bool;

    /// What `symbols_matching` answers after the writes `h`.
    spec fn symbols_matching_in(h: Seq<StoreWrite>, q: SymbolQueryView) -> Seq<SymbolView>;

    /// What `files_matching` answers after the writes `h`.
    spec fn files_matching_in(h: Seq<StoreWrite>, q: FileQueryView) -> Seq<FileView>;

    /// What `related_to_symbol` answers after the writes `h`.
    spec fn related_to_symbol_in(h: Seq<StoreWrite>, symbol: Seq<char>, depth: usize) -> Seq<RelatedView>;

    /// What `related_to_file` answers after the writes `h`.
    spec fn related_to_file_in(h: Seq<StoreWrite>, path: Seq<char>, depth: usize) -> Seq<RelatedView>;

    /// What `stats` answers after the writes `h`.
    spec fn stats_in(h: Seq<StoreWrite>) -> IndexStats;

    /// What `all_files` answers after the writes `h`.
    spec fn all_files_in(h: Seq<StoreWrite>) -> Seq<FileView>;

    /// What `file_by_path` answers after the writes `h`.
    spec fn file_by_path_in(h: Seq<StoreWrite>, path: Seq<char>) -> Option<FileView>;

    /// What `all_packages` answers after the writes `h`.
    spec fn all_packages_in(h: Seq<StoreWrite>) -> Seq<PackageView>;

    /// What `all_projects` answers after the writes `h`.
    spec fn all_projects_in(h: Seq<StoreWrite>) -> Seq<ProjectView>;

    /// What `files_importing_package` answers after the writes `h`.
    spec fn files_importing_package_in(h: Seq<StoreWrite>, package: Seq<char>) -> Seq<Seq<char>>;

    /// What `symbol_type_relations` answers after the writes `h`.
    spec fn symbol_type_relations_in(h: Seq<StoreWrite>, symbol: Seq<char>) -> Seq<RelatedView>;

    /// What `symbol_references` answers after the writes `h`.
    spec fn symbol_references_in(h: Seq<StoreWrite>, symbol: Seq<char>) -> Seq<RelatedView>;

    /// What `project_siblings` answers after the writes `h`.
    spec fn project_siblings_in(h: Seq<StoreWrite>, path: Seq<char>) -> Seq<RelatedView>;

    /// Create node/relationship tables if they do not already exist.
    fn initialize_schema(&mut self) -> (r: Result<(), SynapseError>)
        requires
            old(self).valid(),
        ensures
            final(self).valid(),
            Self::infallible() ==> r is Ok,
            final(self).history() == old(self).history(),
    ;

    /// Record a file, replacing what was recorded at its path.
    fn upsert_file(&mut self, file: IndexedFile) -> (r: Result<(), SynapseError>)
        requires
            old(self).valid(),
        ensures
            final(self).valid(),
            Self::infallible() ==> r is Ok,
            r is Ok ==> final(self).history() == old(self).history().push(StoreWrite::UpsertFile(file@)),
    ;

    /// Remove a file and all symbols it declared.
    fn remove_file(&mut self, path: &str) -> (r: Result<(), SynapseError>)
        requires
            old(self).valid(),
        ensures
            final(self).valid(),
            Self::infallible() ==> r is Ok,
            r is Ok ==> final(self).history() == old(self).history().push(StoreWrite::RemoveFile(path@)),
    ;

    /// Record a symbol, replacing what had its id.
    fn upsert_symbol(&mut self, symbol: IndexedSymbol) -> (r: Result<(), SynapseError>)
        requires
            old(self).valid(),
        ensures
            final(self).valid(),
            Self::infallible() ==> r is Ok,
            r is Ok ==> final(self).history() == old(self).history().push(StoreWrite::UpsertSymbol(symbol@)),
    ;

    /// Record a project, replacing what had its id.
    fn upsert_project(&mut self, project: IndexedProject) -> (r: Result<(), SynapseError>)
        requires
            old(self).valid(),
        ensures
            final(self).valid(),
            Self::infallible() ==> r is Ok,
            r is Ok ==> final(self).history() == old(self).history().push(StoreWrite::UpsertProject(project@)),
    ;

    /// Record a package, replacing what had its id.
    fn upsert_package(&mut self, package: IndexedPackage) -> (r: Result<(), SynapseError>)
        requires
            old(self).valid(),
        ensures
            final(self).valid(),
            Self::infallible() ==> r is Ok,
            r is Ok ==> final(self).history() == old(self).history().push(StoreWrite::UpsertPackage(package@)),
    ;

    /// A project contains a file (the `CONTAINS_FILE` edge).
    fn link_project_contains_file(&mut self, project_id: &str, file_id: &str) -> (r: Result<(), SynapseError>)
        requires
            old(self).valid(),
        ensures
            final(self).valid(),
            Self::infallible() ==> r is Ok,
            r is Ok ==> final(self).history() == old(self).history().push(StoreWrite::ContainsFile(project_id@, file_id@)),
    ;

    /// A file declares a symbol (the `DECLARES` edge).
    fn link_file_declares_symbol(&mut self, file_id: &str, symbol_id: &str) -> (r: Result<(), SynapseError>)
        requires
            old(self).valid(),
        ensures
            final(self).valid(),
            Self::infallible() ==> r is Ok,
            r is Ok ==> final(self).history() == old(self).history().push(StoreWrite::Declares(file_id@, symbol_id@)),
    ;

    /// A project references another.
    fn link_project_references_project(&mut self, from_project_id: &str, to_project_id: &str) -> (r: Result<(), SynapseError>)
        requires
            old(self).valid(),
        ensures
            final(self).valid(),
            Self::infallible() ==> r is Ok,
            r is Ok ==> final(self).history() == old(self).history().push(StoreWrite::ReferencesProject(from_project_id@, to_project_id@)),
    ;

    /// A project uses a package.
    fn link_project_uses_package(&mut self, project_id: &str, package_id: &str) -> (r: Result<(), SynapseError>)
        requires
            old(self).valid(),
        ensures
            final(self).valid(),
            Self::infallible() ==> r is Ok,
            r is Ok ==> final(self).history() == old(self).history().push(StoreWrite::UsesPackage(project_id@, package_id@)),
    ;

    /// A file imports/uses a package (the `IMPORTS_PACKAGE` edge).
    fn link_file_imports_package(&mut self, file_id: &str, package_id: &str) -> (r: Result<(), SynapseError>)
        requires
            old(self).valid(),
        ensures
            final(self).valid(),
            Self::infallible() ==> r is Ok,
            r is Ok ==> final(self).history() == old(self).history().push(StoreWrite::ImportsPackage(file_id@, package_id@)),
    ;

    /// One symbol inherits from another (the `INHERITS` edge).
    fn link_symbol_inherits(&mut self, from_symbol_id: &str, to_symbol_id: &str) -> (r: Result<(), SynapseError>)
        requires
            old(self).valid(),
        ensures
            final(self).valid(),
            Self::infallible() ==> r is Ok,
            r is Ok ==> final(self).history() == old(self).history().push(StoreWrite::Inherits(from_symbol_id@, to_symbol_id@)),
    ;

    /// A symbol implements an interface/trait (the `IMPLEMENTS` edge).
    fn link_symbol_implements(&mut self, from_symbol_id: &str, to_symbol_id: &str) -> (r: Result<(), SynapseError>)
        requires
            old(self).valid(),
        ensures
            final(self).valid(),
            Self::infallible() ==> r is Ok,
            r is Ok ==> final(self).history() == old(self).history().push(StoreWrite::Implements(from_symbol_id@, to_symbol_id@)),
    ;

    /// One symbol references another (the `REFERENCES` edge). Direction is
    /// referrer -> referenced.
    fn link_symbol_references(&mut self, from_symbol_id: &str, to_symbol_id: &str) -> (r: Result<(), SynapseError>)
        requires
            old(self).valid(),
        ensures
            final(self).valid(),
            Self::infallible() ==> r is Ok,
            r is Ok ==> final(self).history() == old(self).history().push(StoreWrite::References(from_symbol_id@, to_symbol_id@)),
    ;

    /// Create many relationship edges in a single batch. Backends that support
    /// transactions should write the whole batch in one transaction; the default
    /// writes edge by edge.
    fn link_edges(&mut self, edges: &Vec<GraphEdge>) -> (r: Result<(), SynapseError>)
        requires
            old(self).valid(),
        ensures
            final(self).valid(),
            Self::infallible() ==> r is Ok,
            r is Ok ==> final(self).history() == old(self).history() + views(edges@),
    {
        let mut i: usize = 0;
        proof {
            assert(views(edges@).take(0) =~= Seq::<StoreWrite>::empty());
            assert(self.history() =~= old(self).history() + views(edges@).take(0));
        }
        while i < edges.len()
            invariant
                i <= edges@.len(),
                self.valid(),
                self.history() == old(self).history() + views(edges@).take(i as int),
            decreases edges@.len() - i,
        {
            let r = match &edges[i] {
                GraphEdge::SymbolReferences { from, to } => self.link_symbol_references(from.as_str(), to.as_str()),
                GraphEdge::SymbolInherits { from, to } => self.link_symbol_inherits(from.as_str(), to.as_str()),
                GraphEdge::SymbolImplements { from, to } => self.link_symbol_implements(from.as_str(), to.as_str()),
                GraphEdge::FileImportsPackage { file, package } => self.link_file_imports_package(
                    file.as_str(),
                    package.as_str(),
                ),
                GraphEdge::ProjectContainsFile { project, file } => self.link_project_contains_file(
                    project.as_str(),
                    file.as_str(),
                ),
            };
            match r {
                Ok(_) => {},
                Err(e) => {
                    return Err(e);
                },
            }
            proof {
                assert(views(edges@).take(i as int + 1) =~= views(edges@).take(i as int).push(edges@[i as int]@));
                assert(self.history() =~= old(self).history() + views(edges@).take(i as int + 1));
            }
            i += 1;
        }
        assert(views(edges@).take(edges@.len() as int) =~= views(edges@));
        Ok(())
    }

    /// Apply many files' (re)index writes in one batch. For each [`FileWrite`]:
    /// remove the file's existing nodes, upsert the file, upsert every declared
    /// symbol, and create the `DECLARES` edges. Backends that support
    /// transactions should write the whole batch in one transaction.
    fn write_files_batch(&mut self, files: &Vec<FileWrite>) -> (r: Result<(), SynapseError>)
        requires
            old(self).valid(),
        ensures
            final(self).valid(),
            Self::infallible() ==> r is Ok,
            r is Ok ==> final(self).history() == old(self).history() + batch_writes(views(files@)),
    {
        let mut i: usize = 0;
        proof {
            assert(batch_writes(views(files@).take(0)) =~= Seq::<StoreWrite>::empty());
            assert(self.history() =~= old(self).history() + batch_writes(views(files@).take(0)));
        }
        while i < files.len()
            invariant
                i <= files@.len(),
                self.valid(),
                self.history() == old(self).history() + batch_writes(views(files@).take(i as int)),
            decreases files@.len() - i,
        {
            let fw = &files[i];
            let ghost before = self.history();
            let ghost syms = views(fw.symbols@);
            match self.remove_file(fw.file.path.as_str()) {
                Ok(_) => {},
                Err(e) => {
                    return Err(e);
                },
            }
            match self.upsert_file(fw.file.clone()) {
                Ok(_) => {},
                Err(e) => {
                    return Err(e);
                },
            }
            let ghost steps = seq![StoreWrite::RemoveFile(fw.file.path@), StoreWrite::UpsertFile(fw.file@)];
            let mut j: usize = 0;
            proof {
                assert(declare_writes(fw.file.id@, syms.take(0)) =~= Seq::<StoreWrite>::empty());
                assert(self.history() =~= before + (steps + declare_writes(fw.file.id@, syms.take(0))));
            }
            while j < fw.symbols.len()
                invariant
                    j <= fw.symbols@.len(),
                    syms == views(fw.symbols@),
                    self.valid(),
                    self.history() == before + (steps + declare_writes(fw.file.id@, syms.take(j as int))),
                decreases fw.symbols@.len() - j,
            {
                let sym = &fw.symbols[j];
                match self.upsert_symbol(sym.clone()) {
                    Ok(_) => {},
                    Err(e) => {
                        return Err(e);
                    },
                }
                match self.link_file_declares_symbol(fw.file.id.as_str(), sym.id.as_str()) {
                    Ok(_) => {},
                    Err(e) => {
                        return Err(e);
                    },
                }
                proof {
                    let next = syms.take(j as int + 1);
                    assert(next.drop_last() =~= syms.take(j as int));
                    assert(next.last() == sym@);
                    assert(self.history() =~= before + (steps + declare_writes(fw.file.id@, next)));
                }
                j += 1;
            }
            proof {
                let next = views(files@).take(i as int + 1);
                assert(syms.take(syms.len() as int) =~= syms);
                assert(next.drop_last() =~= views(files@).take(i as int));
                assert(next.last() == fw@);
                assert(self.history() =~= old(self).history() + batch_writes(next));
            }
            i += 1;
        }
        assert(views(files@).take(files@.len() as int) =~= views(files@));
        Ok(())
    }

    /// Symbols that pass the filter.
    fn symbols_matching(&self, query: &SymbolSearchQuery) -> (r: Result<Vec<IndexedSymbol>, SynapseError>)
        requires
            self.valid(),
        ensures
            Self::infallible() ==> r is Ok,
            r matches Ok(v) ==> views(v@) == Self::symbols_matching_in(self.history(), query@),
    ;

    /// Files that pass the filter.
    fn files_matching(&self, query: &FileSearchQuery) -> (r: Result<Vec<IndexedFile>, SynapseError>)
        requires
            self.valid(),
        ensures
            Self::infallible() ==> r is Ok,
            r matches Ok(v) ==> views(v@) == Self::files_matching_in(self.history(), query@),
    ;

    /// Files that declare or use the named symbol.
    fn related_to_symbol(&self, symbol: &str, depth: usize) -> (r: Result<Vec<RelatedItem>, SynapseError>)
        requires
            self.valid(),
        ensures
            Self::infallible() ==> r is Ok,
            r matches Ok(v) ==> views(v@) == Self::related_to_symbol_in(self.history(), symbol@, depth),
    ;

    /// Files related to a file.
    fn related_to_file(&self, path: &str, depth: usize) -> (r: Result<Vec<RelatedItem>, SynapseError>)
        requires
            self.valid(),
        ensures
            Self::infallible() ==> r is Ok,
            r matches Ok(v) ==> views(v@) == Self::related_to_file_in(self.history(), path@, depth),
    ;

    /// Aggregate counts.
    fn stats(&self) -> (r: Result<IndexStats, SynapseError>)
        requires
            self.valid(),
        ensures
            Self::infallible() ==> r is Ok,
            r matches Ok(v) ==> v == Self::stats_in(self.history()),
    ;

    /// Every indexed file, in deterministic order. Used by `status` (stale detection)
    /// and pack selection.
    fn all_files(&self) -> (r: Result<Vec<IndexedFile>, SynapseError>)
        requires
            self.valid(),
        ensures
            Self::infallible() ==> r is Ok,
            r matches Ok(v) ==> views(v@) == Self::all_files_in(self.history()),
    ;

    /// A single file by repo-relative path.
    fn file_by_path(&self, path: &str) -> (r: Result<Option<IndexedFile>, SynapseError>)
        requires
            self.valid(),
        ensures
            Self::infallible() ==> r is Ok,
            r matches Ok(v) ==> opt_view(v) == Self::file_by_path_in(self.history(), path@),
    ;

    /// Every indexed package (dependency), in deterministic order.
    fn all_packages(&self) -> (r: Result<Vec<IndexedPackage>, SynapseError>)
        requires
            self.valid(),
        ensures
            Self::infallible() ==> r is Ok,
            r matches Ok(v) ==> views(v@) == Self::all_packages_in(self.history()),
    ;

    /// Every indexed project, in deterministic order.
    fn all_projects(&self) -> (r: Result<Vec<IndexedProject>, SynapseError>)
        requires
            self.valid(),
        ensures
            Self::infallible() ==> r is Ok,
            r matches Ok(v) ==> views(v@) == Self::all_projects_in(self.history()),
    ;

    /// Repo-relative paths of files that import a package (by package name, any
    /// ecosystem), via the `IMPORTS_PACKAGE` edge.
    fn files_importing_package(&self, package_name: &str) -> (r: Result<Vec<String>, SynapseError>)
        requires
            self.valid(),
        ensures
            Self::infallible() ==> r is Ok,
            r matches Ok(v) ==> views(v@) == Self::files_importing_package_in(self.history(), package_name@),
    ;

    /// Files reached from a symbol via `INHERITS`/`IMPLEMENTS` edges in either
    /// direction. Each item's reason names the relationship.
    fn symbol_type_relations(&self, symbol_name: &str) -> (r: Result<Vec<RelatedItem>, SynapseError>)
        requires
            self.valid(),
        ensures
            Self::infallible() ==> r is Ok,
            r matches Ok(v) ==> views(v@) == Self::symbol_type_relations_in(self.history(), symbol_name@),
    ;

    /// Files that reference the named symbol via incoming `REFERENCES` edges.
    fn symbol_references(&self, symbol_name: &str) -> (r: Result<Vec<RelatedItem>, SynapseError>)
        requires
            self.valid(),
        ensures
            Self::infallible() ==> r is Ok,
            r matches Ok(v) ==> views(v@) == Self::symbol_references_in(self.history(), symbol_name@),
    ;

    /// Files that belong to the same project(s) as `path`, without `path` itself.
    fn project_siblings(&self, path: &str) -> (r: Result<Vec<RelatedItem>, SynapseError>)
        requires
            self.valid(),
        ensures
            Self::infallible() ==> r is Ok,
            r matches Ok(v) ==> views(v@) == Self::project_siblings_in(self.history(), path@),
    ;
}

} // verus!
