//! What the graph store says to a Cypher database: the statements of every write
//! and query, and what the rows that come back mean.
//!
//! `MERGE` keeps upserts idempotent, and every value travels as a parameter
//! (`$name`), never inside the statement.

use crate::graph::memory_store::{
    capped_sum, one_per_path, path_reason_order, same_path_reason, sort_one_per_path, sort_path_reason,
};
use crate::graph::model::{
    FileQueryView, FileSearchQuery, FileView, GraphEdge, IndexStats, IndexedFile, IndexedPackage, IndexedProject,
    IndexedSymbol, Language, PackageView, ProjectView, RelatedItem, RelatedView, SymbolKind, SymbolQueryView,
    SymbolSearchQuery, SymbolView,
};
use crate::graph::store::StoreWrite;
use crate::lists::{take_next, take_none, take_whole, views_push};
use crate::sorting::{dedup, stable_sort};
use crate::text::{ascii_lowercase, cat, cat3, join, join_with, lower, same, views};
use vstd::prelude::*;

verus! {

/// The value of a parameter.
#[derive(Debug, PartialEq, Eq)]
pub enum CypherValue {
    Text(String),
    Int(i64),
    Flag(bool),
}

pub enum CypherView {
    Text(Seq<char>),
    Int(i64),
    Flag(bool),
}

impl View for CypherValue {
    type V = CypherView;

    open spec fn view(&self) -> CypherView {
        match self {
            CypherValue::Text(s) => CypherView::Text(s@),
            CypherValue::Int(n) => CypherView::Int(*n),
            CypherValue::Flag(b) => CypherView::Flag(*b),
        }
    }
}

/// A named parameter of a statement.
#[derive(Debug, PartialEq, Eq)]
pub struct Param {
    pub name: String,
    pub value: CypherValue,
}

pub struct ParamView {
    pub name: Seq<char>,
    pub value: CypherView,
}

impl View for Param {
    type V = ParamView;

    open spec fn view(&self) -> ParamView {
        ParamView { name: self.name@, value: self.value@ }
    }
}

/// A statement with its parameters.
#[derive(Debug, PartialEq, Eq)]
pub struct Statement {
    pub text: String,
    pub params: Vec<Param>,
}

pub struct StatementView {
    pub text: Seq<char>,
    pub params: Seq<ParamView>,
}

impl View for Statement {
    type V = StatementView;

    open spec fn view(&self) -> StatementView {
        StatementView { text: self.text@, params: views(self.params@) }
    }
}

pub open spec fn text_param(name: Seq<char>, value: Seq<char>) -> ParamView {
    ParamView { name, value: CypherView::Text(value) }
}

pub open spec fn int_param(name: Seq<char>, value: i64) -> ParamView {
    ParamView { name, value: CypherView::Int(value) }
}

pub open spec fn flag_param(name: Seq<char>, value: bool) -> ParamView {
    ParamView { name, value: CypherView::Flag(value) }
}

fn text_value(name: &str, value: &str) -> (r: Param)
    ensures
        r@ == text_param(name@, value@),
{
    Param { name: name.to_owned(), value: CypherValue::Text(value.to_owned()) }
}

fn int_value(name: &str, value: i64) -> (r: Param)
    ensures
        r@ == int_param(name@, value),
{
    Param { name: name.to_owned(), value: CypherValue::Int(value) }
}

fn flag_value(name: &str, value: bool) -> (r: Param)
    ensures
        r@ == flag_param(name@, value),
{
    Param { name: name.to_owned(), value: CypherValue::Flag(value) }
}

fn statement1(text: &str, a: Param) -> (r: Statement)
    ensures
        r@ == (StatementView { text: text@, params: seq![a@] }),
{
    let mut params: Vec<Param> = Vec::new();
    params.push(a);
    assert(views(params@) =~= seq![a@]);
    Statement { text: text.to_owned(), params }
}

fn statement2(text: &str, a: Param, b: Param) -> (r: Statement)
    ensures
        r@ == (StatementView { text: text@, params: seq![a@, b@] }),
{
    let mut params: Vec<Param> = Vec::new();
    params.push(a);
    params.push(b);
    assert(views(params@) =~= seq![a@, b@]);
    Statement { text: text.to_owned(), params }
}

fn single(s: Statement) -> (r: Vec<Statement>)
    ensures
        views(r@) == seq![s@],
{
    let mut out: Vec<Statement> = Vec::new();
    out.push(s);
    assert(views(out@) =~= seq![s@]);
    out
}

// --- schema --------------------------------------------------------------------------------------
/// The tables: nodes first, then the relationships between them. `IF NOT EXISTS`
/// keeps it idempotent.
pub open spec fn schema_texts() -> Seq<Seq<char>> {
    seq![
        "CREATE NODE TABLE IF NOT EXISTS Repository(id STRING PRIMARY KEY, name STRING, root STRING)"@,
        "CREATE NODE TABLE IF NOT EXISTS Project(id STRING PRIMARY KEY, name STRING, path STRING, language STRING, kind STRING)"@,
        "CREATE NODE TABLE IF NOT EXISTS Package(id STRING PRIMARY KEY, name STRING, version STRING, ecosystem STRING, dependencyKind STRING)"@,
        "CREATE NODE TABLE IF NOT EXISTS File(id STRING PRIMARY KEY, path STRING, language STRING, hash STRING, sizeBytes INT64, tracked BOOL, lastIndexedAt STRING)"@,
        "CREATE NODE TABLE IF NOT EXISTS Symbol(id STRING PRIMARY KEY, name STRING, fullName STRING, kind STRING, language STRING, filePath STRING, startLine INT64, endLine INT64, visibility STRING, exported BOOL)"@,
        "CREATE REL TABLE IF NOT EXISTS CONTAINS_PROJECT(FROM Repository TO Project)"@,
        "CREATE REL TABLE IF NOT EXISTS CONTAINS_FILE(FROM Project TO File)"@,
        "CREATE REL TABLE IF NOT EXISTS DECLARES(FROM File TO Symbol)"@,
        "CREATE REL TABLE IF NOT EXISTS REFERENCES_PROJECT(FROM Project TO Project)"@,
        "CREATE REL TABLE IF NOT EXISTS USES_PACKAGE(FROM Project TO Package)"@,
        "CREATE REL TABLE IF NOT EXISTS IMPORTS_PACKAGE(FROM File TO Package)"@,
        "CREATE REL TABLE IF NOT EXISTS REFERENCES(FROM Symbol TO Symbol)"@,
        "CREATE REL TABLE IF NOT EXISTS IMPLEMENTS(FROM Symbol TO Symbol)"@,
        "CREATE REL TABLE IF NOT EXISTS INHERITS(FROM Symbol TO Symbol)"@,
        "CREATE REL TABLE IF NOT EXISTS CALLS(FROM Symbol TO Symbol)"@,
    ]
}

/// The statements that create the tables, where they are not there yet.
pub fn schema_statements() -> (r: Vec<String>)
    ensures
        views(r@) == schema_texts(),
{
    let mut out: Vec<String> = Vec::new();
    out.push("CREATE NODE TABLE IF NOT EXISTS Repository(id STRING PRIMARY KEY, name STRING, root STRING)".to_owned());
    out.push("CREATE NODE TABLE IF NOT EXISTS Project(id STRING PRIMARY KEY, name STRING, path STRING, language STRING, kind STRING)".to_owned());
    out.push("CREATE NODE TABLE IF NOT EXISTS Package(id STRING PRIMARY KEY, name STRING, version STRING, ecosystem STRING, dependencyKind STRING)".to_owned());
    out.push("CREATE NODE TABLE IF NOT EXISTS File(id STRING PRIMARY KEY, path STRING, language STRING, hash STRING, sizeBytes INT64, tracked BOOL, lastIndexedAt STRING)".to_owned());
    out.push("CREATE NODE TABLE IF NOT EXISTS Symbol(id STRING PRIMARY KEY, name STRING, fullName STRING, kind STRING, language STRING, filePath STRING, startLine INT64, endLine INT64, visibility STRING, exported BOOL)".to_owned());
    out.push("CREATE REL TABLE IF NOT EXISTS CONTAINS_PROJECT(FROM Repository TO Project)".to_owned());
    out.push("CREATE REL TABLE IF NOT EXISTS CONTAINS_FILE(FROM Project TO File)".to_owned());
    out.push("CREATE REL TABLE IF NOT EXISTS DECLARES(FROM File TO Symbol)".to_owned());
    out.push("CREATE REL TABLE IF NOT EXISTS REFERENCES_PROJECT(FROM Project TO Project)".to_owned());
    out.push("CREATE REL TABLE IF NOT EXISTS USES_PACKAGE(FROM Project TO Package)".to_owned());
    out.push("CREATE REL TABLE IF NOT EXISTS IMPORTS_PACKAGE(FROM File TO Package)".to_owned());
    out.push("CREATE REL TABLE IF NOT EXISTS REFERENCES(FROM Symbol TO Symbol)".to_owned());
    out.push("CREATE REL TABLE IF NOT EXISTS IMPLEMENTS(FROM Symbol TO Symbol)".to_owned());
    out.push("CREATE REL TABLE IF NOT EXISTS INHERITS(FROM Symbol TO Symbol)".to_owned());
    out.push("CREATE REL TABLE IF NOT EXISTS CALLS(FROM Symbol TO Symbol)".to_owned());
    assert(views(out@) =~= schema_texts());
    out
}

// --- writes --------------------------------------------------------------------------------------
pub open spec fn file_params(f: FileView) -> Seq<ParamView> {
    seq![
        text_param("id"@, f.id),
        text_param("path"@, f.path),
        text_param("language"@, f.language.name()),
        text_param("hash"@, f.hash),
        int_param("size"@, f.size_bytes as i64),
        flag_param("tracked"@, f.git_tracked),
        text_param("ts"@, f.last_indexed_at),
    ]
}

pub open spec fn symbol_params(s: SymbolView) -> Seq<ParamView> {
    seq![
        text_param("id"@, s.id),
        text_param("name"@, s.name),
        text_param("full"@, s.full_name),
        text_param("kind"@, s.kind.name()),
        text_param("language"@, s.language.name()),
        text_param("file"@, s.file_path),
        int_param("startln"@, s.start_line as i64),
        int_param("endln"@, s.end_line as i64),
        text_param("vis"@, s.visibility),
        flag_param("exported"@, s.exported),
    ]
}

pub open spec fn project_params(p: ProjectView) -> Seq<ParamView> {
    seq![
        text_param("id"@, p.id),
        text_param("name"@, p.name),
        text_param("path"@, p.path),
        text_param("language"@, p.language.name()),
        text_param("kind"@, p.kind),
    ]
}

pub open spec fn package_params(p: PackageView) -> Seq<ParamView> {
    seq![
        text_param("id"@, p.id),
        text_param("name"@, p.name),
        text_param("version"@, p.version),
        text_param("eco"@, p.ecosystem),
        text_param("kind"@, p.dependency_kind),
    ]
}

/// The statements that a write comes to. The last one has to succeed; those before
/// it only prepare for it.
pub open spec fn statements_of(w: StoreWrite) -> Seq<StatementView> {
    match w {
        StoreWrite::UpsertFile(f) => seq![
            StatementView {
                text: "MERGE (f:File {id: $id}) SET f.path = $path, f.language = $language, f.hash = $hash, f.sizeBytes = $size, f.tracked = $tracked, f.lastIndexedAt = $ts"@,
                params: file_params(f),
            },
        ],
        StoreWrite::RemoveFile(p) => seq![
            StatementView { text: "MATCH (f:File {path: $path})-[:DECLARES]->(s:Symbol) DETACH DELETE s"@, params: seq![text_param("path"@, p)] },
            StatementView { text: "MATCH (s:Symbol {filePath: $path}) DETACH DELETE s"@, params: seq![text_param("path"@, p)] },
            StatementView { text: "MATCH (f:File {path: $path}) DETACH DELETE f"@, params: seq![text_param("path"@, p)] },
        ],
        StoreWrite::UpsertSymbol(s) => seq![
            StatementView {
                text: "MERGE (s:Symbol {id: $id}) SET s.name = $name, s.fullName = $full, s.kind = $kind, s.language = $language, s.filePath = $file, s.startLine = $startln, s.endLine = $endln, s.visibility = $vis, s.exported = $exported"@,
                params: symbol_params(s),
            },
        ],
        StoreWrite::UpsertProject(p) => seq![
            StatementView {
                text: "MERGE (p:Project {id: $id}) SET p.name = $name, p.path = $path, p.language = $language, p.kind = $kind"@,
                params: project_params(p),
            },
        ],
        StoreWrite::UpsertPackage(p) => seq![
            StatementView {
                text: "MERGE (p:Package {id: $id}) SET p.name = $name, p.version = $version, p.ecosystem = $eco, p.dependencyKind = $kind"@,
                params: package_params(p),
            },
        ],
        StoreWrite::ContainsFile(p, f) => seq![
            StatementView { text: "MATCH (p:Project {id: $p}), (f:File {id: $f}) MERGE (p)-[:CONTAINS_FILE]->(f)"@, params: seq![text_param("p"@, p), text_param("f"@, f)] },
        ],
        StoreWrite::Declares(f, s) => seq![
            StatementView { text: "MATCH (f:File {id: $f}), (s:Symbol {id: $s}) MERGE (f)-[:DECLARES]->(s)"@, params: seq![text_param("f"@, f), text_param("s"@, s)] },
        ],
        // The target may not be indexed yet: a stub node lets the edge exist.
        StoreWrite::ReferencesProject(a, b) => seq![
            StatementView { text: "MERGE (t:Project {id: $t})"@, params: seq![text_param("t"@, b)] },
            StatementView {
                text: "MATCH (a:Project {id: $a}), (b:Project {id: $b}) MERGE (a)-[:REFERENCES_PROJECT]->(b)"@,
                params: seq![text_param("a"@, a), text_param("b"@, b)],
            },
        ],
        StoreWrite::UsesPackage(p, k) => seq![
            StatementView { text: "MATCH (p:Project {id: $p}), (k:Package {id: $k}) MERGE (p)-[:USES_PACKAGE]->(k)"@, params: seq![text_param("p"@, p), text_param("k"@, k)] },
        ],
        StoreWrite::ImportsPackage(f, k) => seq![
            StatementView { text: "MATCH (f:File {id: $f}), (k:Package {id: $k}) MERGE (f)-[:IMPORTS_PACKAGE]->(k)"@, params: seq![text_param("f"@, f), text_param("k"@, k)] },
        ],
        StoreWrite::Inherits(a, b) => seq![
            StatementView { text: "MATCH (a:Symbol {id: $a}), (b:Symbol {id: $b}) MERGE (a)-[:INHERITS]->(b)"@, params: seq![text_param("a"@, a), text_param("b"@, b)] },
        ],
        StoreWrite::Implements(a, b) => seq![
            StatementView { text: "MATCH (a:Symbol {id: $a}), (b:Symbol {id: $b}) MERGE (a)-[:IMPLEMENTS]->(b)"@, params: seq![text_param("a"@, a), text_param("b"@, b)] },
        ],
        StoreWrite::References(a, b) => seq![
            StatementView { text: "MATCH (a:Symbol {id: $a}), (b:Symbol {id: $b}) MERGE (a)-[:REFERENCES]->(b)"@, params: seq![text_param("a"@, a), text_param("b"@, b)] },
        ],
    }
}

/// Record a file.
pub fn upsert_file_statements(file: &IndexedFile) -> (r: Vec<Statement>)
    ensures
        views(r@) == statements_of(StoreWrite::UpsertFile(file@)),
{
    let mut params: Vec<Param> = Vec::new();
    params.push(text_value("id", file.id.as_str()));
    params.push(text_value("path", file.path.as_str()));
    params.push(text_value("language", file.language.as_str()));
    params.push(text_value("hash", file.hash.as_str()));
    params.push(int_value("size", #[verifier::truncate] (file.size_bytes as i64)));
    params.push(flag_value("tracked", file.git_tracked));
    params.push(text_value("ts", file.last_indexed_at.as_str()));
    assert(views(params@) =~= file_params(file@));
    single(
        Statement {
            text: "MERGE (f:File {id: $id}) SET f.path = $path, f.language = $language, f.hash = $hash, f.sizeBytes = $size, f.tracked = $tracked, f.lastIndexedAt = $ts".to_owned(),
            params,
        },
    )
}

/// Remove a file: the symbols it declares, by edge and by path, then the file
/// itself.
pub fn remove_file_statements(path: &str) -> (r: Vec<Statement>)
    ensures
        views(r@) == statements_of(StoreWrite::RemoveFile(path@)),
{
    let mut out: Vec<Statement> = Vec::new();
    out.push(statement1("MATCH (f:File {path: $path})-[:DECLARES]->(s:Symbol) DETACH DELETE s", text_value("path", path)));
    out.push(statement1("MATCH (s:Symbol {filePath: $path}) DETACH DELETE s", text_value("path", path)));
    out.push(statement1("MATCH (f:File {path: $path}) DETACH DELETE f", text_value("path", path)));
    assert(views(out@) =~= statements_of(StoreWrite::RemoveFile(path@)));
    out
}

/// Record a symbol.
pub fn upsert_symbol_statements(symbol: &IndexedSymbol) -> (r: Vec<Statement>)
    ensures
        views(r@) == statements_of(StoreWrite::UpsertSymbol(symbol@)),
{
    let mut params: Vec<Param> = Vec::new();
    params.push(text_value("id", symbol.id.as_str()));
    params.push(text_value("name", symbol.name.as_str()));
    params.push(text_value("full", symbol.full_name.as_str()));
    params.push(text_value("kind", symbol.kind.as_str()));
    params.push(text_value("language", symbol.language.as_str()));
    params.push(text_value("file", symbol.file_path.as_str()));
    params.push(int_value("startln", symbol.start_line as i64));
    params.push(int_value("endln", symbol.end_line as i64));
    params.push(text_value("vis", symbol.visibility.as_str()));
    params.push(flag_value("exported", symbol.exported));
    assert(views(params@) =~= symbol_params(symbol@));
    single(
        Statement {
            text: "MERGE (s:Symbol {id: $id}) SET s.name = $name, s.fullName = $full, s.kind = $kind, s.language = $language, s.filePath = $file, s.startLine = $startln, s.endLine = $endln, s.visibility = $vis, s.exported = $exported".to_owned(),
            params,
        },
    )
}

/// Record a project.
pub fn upsert_project_statements(project: &IndexedProject) -> (r: Vec<Statement>)
    ensures
        views(r@) == statements_of(StoreWrite::UpsertProject(project@)),
{
    let mut params: Vec<Param> = Vec::new();
    params.push(text_value("id", project.id.as_str()));
    params.push(text_value("name", project.name.as_str()));
    params.push(text_value("path", project.path.as_str()));
    params.push(text_value("language", project.language.as_str()));
    params.push(text_value("kind", project.kind.as_str()));
    assert(views(params@) =~= project_params(project@));
    single(
        Statement {
            text: "MERGE (p:Project {id: $id}) SET p.name = $name, p.path = $path, p.language = $language, p.kind = $kind".to_owned(),
            params,
        },
    )
}

/// Record a package.
pub fn upsert_package_statements(package: &IndexedPackage) -> (r: Vec<Statement>)
    ensures
        views(r@) == statements_of(StoreWrite::UpsertPackage(package@)),
{
    let mut params: Vec<Param> = Vec::new();
    params.push(text_value("id", package.id.as_str()));
    params.push(text_value("name", package.name.as_str()));
    params.push(text_value("version", package.version.as_str()));
    params.push(text_value("eco", package.ecosystem.as_str()));
    params.push(text_value("kind", package.dependency_kind.as_str()));
    assert(views(params@) =~= package_params(package@));
    single(
        Statement {
            text: "MERGE (p:Package {id: $id}) SET p.name = $name, p.version = $version, p.ecosystem = $eco, p.dependencyKind = $kind".to_owned(),
            params,
        },
    )
}

/// A project contains a file.
pub fn contains_file_statements(project_id: &str, file_id: &str) -> (r: Vec<Statement>)
    ensures
        views(r@) == statements_of(StoreWrite::ContainsFile(project_id@, file_id@)),
{
    single(
        statement2(
            "MATCH (p:Project {id: $p}), (f:File {id: $f}) MERGE (p)-[:CONTAINS_FILE]->(f)",
            text_value("p", project_id),
            text_value("f", file_id),
        ),
    )
}

/// A file declares a symbol.
pub fn declares_statements(file_id: &str, symbol_id: &str) -> (r: Vec<Statement>)
    ensures
        views(r@) == statements_of(StoreWrite::Declares(file_id@, symbol_id@)),
{
    single(
        statement2(
            "MATCH (f:File {id: $f}), (s:Symbol {id: $s}) MERGE (f)-[:DECLARES]->(s)",
            text_value("f", file_id),
            text_value("s", symbol_id),
        ),
    )
}

/// A project references another.
pub fn project_reference_statements(from_project_id: &str, to_project_id: &str) -> (r: Vec<Statement>)
    ensures
        views(r@) == statements_of(StoreWrite::ReferencesProject(from_project_id@, to_project_id@)),
{
    let mut out: Vec<Statement> = Vec::new();
    out.push(statement1("MERGE (t:Project {id: $t})", text_value("t", to_project_id)));
    out.push(
        statement2(
            "MATCH (a:Project {id: $a}), (b:Project {id: $b}) MERGE (a)-[:REFERENCES_PROJECT]->(b)",
            text_value("a", from_project_id),
            text_value("b", to_project_id),
        ),
    );
    assert(views(out@) =~= statements_of(StoreWrite::ReferencesProject(from_project_id@, to_project_id@)));
    out
}

/// A project uses a package.
pub fn uses_package_statements(project_id: &str, package_id: &str) -> (r: Vec<Statement>)
    ensures
        views(r@) == statements_of(StoreWrite::UsesPackage(project_id@, package_id@)),
{
    single(
        statement2(
            "MATCH (p:Project {id: $p}), (k:Package {id: $k}) MERGE (p)-[:USES_PACKAGE]->(k)",
            text_value("p", project_id),
            text_value("k", package_id),
        ),
    )
}

/// A file imports a package.
pub fn imports_package_statements(file_id: &str, package_id: &str) -> (r: Vec<Statement>)
    ensures
        views(r@) == statements_of(StoreWrite::ImportsPackage(file_id@, package_id@)),
{
    single(
        statement2(
            "MATCH (f:File {id: $f}), (k:Package {id: $k}) MERGE (f)-[:IMPORTS_PACKAGE]->(k)",
            text_value("f", file_id),
            text_value("k", package_id),
        ),
    )
}

/// One symbol inherits from another.
pub fn inherits_statements(from: &str, to: &str) -> (r: Vec<Statement>)
    ensures
        views(r@) == statements_of(StoreWrite::Inherits(from@, to@)),
{
    single(
        statement2(
            "MATCH (a:Symbol {id: $a}), (b:Symbol {id: $b}) MERGE (a)-[:INHERITS]->(b)",
            text_value("a", from),
            text_value("b", to),
        ),
    )
}

/// A symbol implements an interface/trait.
pub fn implements_statements(from: &str, to: &str) -> (r: Vec<Statement>)
    ensures
        views(r@) == statements_of(StoreWrite::Implements(from@, to@)),
{
    single(
        statement2(
            "MATCH (a:Symbol {id: $a}), (b:Symbol {id: $b}) MERGE (a)-[:IMPLEMENTS]->(b)",
            text_value("a", from),
            text_value("b", to),
        ),
    )
}

/// One symbol references another.
pub fn references_statements(from: &str, to: &str) -> (r: Vec<Statement>)
    ensures
        views(r@) == statements_of(StoreWrite::References(from@, to@)),
{
    single(
        statement2(
            "MATCH (a:Symbol {id: $a}), (b:Symbol {id: $b}) MERGE (a)-[:REFERENCES]->(b)",
            text_value("a", from),
            text_value("b", to),
        ),
    )
}

/// The statements of one edge of a batch.
pub fn edge_statements(e: &GraphEdge) -> (r: Vec<Statement>)
    ensures
        views(r@) == statements_of(e@),
{
    match e {
        GraphEdge::SymbolReferences { from, to } => references_statements(from.as_str(), to.as_str()),
        GraphEdge::SymbolInherits { from, to } => inherits_statements(from.as_str(), to.as_str()),
        GraphEdge::SymbolImplements { from, to } => implements_statements(from.as_str(), to.as_str()),
        GraphEdge::FileImportsPackage { file, package } => imports_package_statements(file.as_str(), package.as_str()),
        GraphEdge::ProjectContainsFile { project, file } => contains_file_statements(project.as_str(), file.as_str()),
    }
}

/// Every statement of a write carries the values of the write as parameters only:
/// its text is the same whatever they are.
pub proof fn texts_hold_no_values(a: StoreWrite, b: StoreWrite, i: int)
    requires
        same_kind_of_write(a, b),
        0 <= i < statements_of(a).len(),
    ensures
        statements_of(a).len() == statements_of(b).len(),
        statements_of(a)[i].text == statements_of(b)[i].text,
{
}

/// Two writes of the same kind.
pub open spec fn same_kind_of_write(a: StoreWrite, b: StoreWrite) -> bool {
    match a {
        StoreWrite::UpsertFile(_) => b is UpsertFile,
        StoreWrite::RemoveFile(_) => b is RemoveFile,
        StoreWrite::UpsertSymbol(_) => b is UpsertSymbol,
        StoreWrite::UpsertProject(_) => b is UpsertProject,
        StoreWrite::UpsertPackage(_) => b is UpsertPackage,
        StoreWrite::ContainsFile(_, _) => b is ContainsFile,
        StoreWrite::Declares(_, _) => b is Declares,
        StoreWrite::ReferencesProject(_, _) => b is ReferencesProject,
        StoreWrite::UsesPackage(_, _) => b is UsesPackage,
        StoreWrite::ImportsPackage(_, _) => b is ImportsPackage,
        StoreWrite::Inherits(_, _) => b is Inherits,
        StoreWrite::Implements(_, _) => b is Implements,
        StoreWrite::References(_, _) => b is References,
    }
}

// --- queries -------------------------------------------------------------------------------------
/// The filter of a query, from its conditions.
pub open spec fn where_clause(conditions: Seq<Seq<char>>) -> Seq<char> {
    if conditions.len() == 0 {
        ""@
    } else {
        "WHERE "@ + join(conditions, " AND "@)
    }
}

fn filter_text(conditions: &Vec<String>) -> (r: String)
    ensures
        r@ == where_clause(views(conditions@)),
{
    if conditions.len() == 0 {
        "".to_owned()
    } else {
        let all = join_with(conditions, " AND ");
        cat("WHERE ", all.as_str())
    }
}

/// A condition, where it is asked for.
pub open spec fn condition(asked: bool, text: Seq<char>) -> Seq<Seq<char>> {
    if asked {
        seq![text]
    } else {
        Seq::empty()
    }
}

/// A text parameter, where it is asked for.
pub open spec fn asked_param(name: Seq<char>, value: Option<Seq<char>>) -> Seq<ParamView> {
    match value {
        Some(v) => seq![text_param(name, v)],
        None => Seq::empty(),
    }
}

pub open spec fn lowered(o: Option<Seq<char>>) -> Option<Seq<char>> {
    match o {
        Some(s) => Some(lower(s)),
        None => None,
    }
}

pub open spec fn kind_name(o: Option<SymbolKind>) -> Option<Seq<char>> {
    match o {
        Some(k) => Some(k.name()),
        None => None,
    }
}

pub open spec fn language_name(o: Option<Language>) -> Option<Seq<char>> {
    match o {
        Some(l) => Some(l.name()),
        None => None,
    }
}

/// The search for symbols, by name and file.
pub open spec fn symbols_query(q: SymbolQueryView) -> StatementView {
    let conditions = condition(q.name is Some, "contains(lower(s.name), $name)"@) + condition(
        q.kind is Some,
        "s.kind = $kind"@,
    ) + condition(q.language is Some, "s.language = $language"@) + condition(q.file is Some, "s.filePath = $file"@);
    StatementView {
        text: "MATCH (s:Symbol) "@ + where_clause(conditions)
            + " RETURN s.id, s.name, s.fullName, s.kind, s.language, s.filePath, s.startLine, s.endLine, s.visibility, s.exported ORDER BY s.name, s.filePath"@,
        params: asked_param("name"@, lowered(q.name)) + asked_param("kind"@, kind_name(q.kind)) + asked_param(
            "language"@,
            language_name(q.language),
        ) + asked_param("file"@, q.file),
    }
}

/// The search for symbols.
pub fn symbols_statement(query: &SymbolSearchQuery) -> (r: Statement)
    ensures
        r@ == symbols_query(query@),
{
    let mut conditions: Vec<String> = Vec::new();
    let mut params: Vec<Param> = Vec::new();
    match &query.name {
        Some(n) => {
            let n = ascii_lowercase(n.as_str());
            conditions.push("contains(lower(s.name), $name)".to_owned());
            params.push(text_value("name", n.as_str()));
        },
        None => {},
    }
    match query.kind {
        Some(k) => {
            conditions.push("s.kind = $kind".to_owned());
            params.push(text_value("kind", k.as_str()));
        },
        None => {},
    }
    match query.language {
        Some(l) => {
            conditions.push("s.language = $language".to_owned());
            params.push(text_value("language", l.as_str()));
        },
        None => {},
    }
    match &query.file {
        Some(f) => {
            conditions.push("s.filePath = $file".to_owned());
            params.push(text_value("file", f.as_str()));
        },
        None => {},
    }
    let q = filter_text(&conditions);
    let text = cat3(
        "MATCH (s:Symbol) ",
        q.as_str(),
        " RETURN s.id, s.name, s.fullName, s.kind, s.language, s.filePath, s.startLine, s.endLine, s.visibility, s.exported ORDER BY s.name, s.filePath",
    );
    proof {
        let v = query@;
        assert(views(conditions@) =~= condition(v.name is Some, "contains(lower(s.name), $name)"@) + condition(
            v.kind is Some,
            "s.kind = $kind"@,
        ) + condition(v.language is Some, "s.language = $language"@) + condition(
            v.file is Some,
            "s.filePath = $file"@,
        ));
        assert(views(params@) =~= symbols_query(v).params);
    }
    Statement { text, params }
}

/// The search for files, by path.
pub open spec fn files_query(q: FileQueryView) -> StatementView {
    let conditions = condition(q.path_contains is Some, "contains(lower(f.path), $path)"@) + condition(
        q.language is Some,
        "f.language = $language"@,
    );
    StatementView {
        text: "MATCH (f:File) "@ + where_clause(conditions)
            + " RETURN f.id, f.path, f.language, f.hash, f.sizeBytes, f.tracked, f.lastIndexedAt ORDER BY f.path"@,
        params: asked_param("path"@, lowered(q.path_contains)) + asked_param("language"@, language_name(q.language)),
    }
}

/// The search for files.
pub fn files_statement(query: &FileSearchQuery) -> (r: Statement)
    ensures
        r@ == files_query(query@),
{
    let mut conditions: Vec<String> = Vec::new();
    let mut params: Vec<Param> = Vec::new();
    match &query.path_contains {
        Some(p) => {
            let p = ascii_lowercase(p.as_str());
            conditions.push("contains(lower(f.path), $path)".to_owned());
            params.push(text_value("path", p.as_str()));
        },
        None => {},
    }
    match query.language {
        Some(l) => {
            conditions.push("f.language = $language".to_owned());
            params.push(text_value("language", l.as_str()));
        },
        None => {},
    }
    let q = filter_text(&conditions);
    let text = cat3(
        "MATCH (f:File) ",
        q.as_str(),
        " RETURN f.id, f.path, f.language, f.hash, f.sizeBytes, f.tracked, f.lastIndexedAt ORDER BY f.path",
    );
    proof {
        let v = query@;
        assert(views(conditions@) =~= condition(v.path_contains is Some, "contains(lower(f.path), $path)"@) + condition(
            v.language is Some,
            "f.language = $language"@,
        ));
        assert(views(params@) =~= files_query(v).params);
    }
    Statement { text, params }
}

/// The searches for the type relations of a symbol, one per relation. Names match
/// in any case, like the seed of a pack.
pub open spec fn type_queries(name: Seq<char>) -> Seq<StatementView> {
    let params = seq![text_param("n"@, lower(name))];
    seq![
        StatementView { text: "MATCH (s:Symbol)-[:INHERITS]->(t:Symbol) WHERE lower(s.name) = $n RETURN DISTINCT t.filePath"@, params },
        StatementView { text: "MATCH (s:Symbol)-[:INHERITS]->(t:Symbol) WHERE lower(t.name) = $n RETURN DISTINCT s.filePath"@, params },
        StatementView { text: "MATCH (s:Symbol)-[:IMPLEMENTS]->(t:Symbol) WHERE lower(s.name) = $n RETURN DISTINCT t.filePath"@, params },
        StatementView { text: "MATCH (s:Symbol)-[:IMPLEMENTS]->(t:Symbol) WHERE lower(t.name) = $n RETURN DISTINCT s.filePath"@, params },
    ]
}

/// How each of these relations is called.
pub open spec fn type_reasons() -> Seq<Seq<char>> {
    seq!["base type (inherits)"@, "subtype (inherits)"@, "implemented interface/trait"@, "implementor"@]
}

/// The searches for the type relations of a symbol.
pub fn type_relation_statements(name: &str) -> (r: Vec<Statement>)
    ensures
        views(r@) == type_queries(name@),
{
    let n = ascii_lowercase(name);
    let n = n.as_str();
    let mut out: Vec<Statement> = Vec::new();
    out.push(statement1("MATCH (s:Symbol)-[:INHERITS]->(t:Symbol) WHERE lower(s.name) = $n RETURN DISTINCT t.filePath", text_value("n", n)));
    out.push(statement1("MATCH (s:Symbol)-[:INHERITS]->(t:Symbol) WHERE lower(t.name) = $n RETURN DISTINCT s.filePath", text_value("n", n)));
    out.push(statement1("MATCH (s:Symbol)-[:IMPLEMENTS]->(t:Symbol) WHERE lower(s.name) = $n RETURN DISTINCT t.filePath", text_value("n", n)));
    out.push(statement1("MATCH (s:Symbol)-[:IMPLEMENTS]->(t:Symbol) WHERE lower(t.name) = $n RETURN DISTINCT s.filePath", text_value("n", n)));
    assert(views(out@) =~= type_queries(name@));
    out
}

fn type_reason(i: usize) -> (r: String)
    requires
        i < type_reasons().len(),
    ensures
        r@ == type_reasons()[i as int],
{
    if i == 0 {
        "base type (inherits)".to_owned()
    } else if i == 1 {
        "subtype (inherits)".to_owned()
    } else if i == 2 {
        "implemented interface/trait".to_owned()
    } else {
        "implementor".to_owned()
    }
}

/// The files at `paths`, one step away, for `reason`.
pub open spec fn items_at(paths: Seq<Seq<char>>, reason: Seq<char>, depth: usize) -> Seq<RelatedView> {
    paths.map_values(|p: Seq<char>| RelatedView { path: p, reason, depth })
}

fn items_for(paths: &Vec<String>, reason: &str, depth: usize) -> (r: Vec<RelatedItem>)
    ensures
        views(r@) == items_at(views(paths@), reason@, depth),
{
    let ghost target = items_at(views(paths@), reason@, depth);
    let mut out: Vec<RelatedItem> = Vec::new();
    let mut i: usize = 0;
    assert(views(out@) =~= target.take(0));
    while i < paths.len()
        invariant
            i <= paths@.len(),
            target == items_at(views(paths@), reason@, depth),
            views(out@) == target.take(i as int),
        decreases paths@.len() - i,
    {
        let item = RelatedItem { path: paths[i].clone(), reason: reason.to_owned(), depth };
        proof {
            take_next(target, i as int);
            assert(views(paths@)[i as int] == paths@[i as int]@);
            views_push(out@, item);
        }
        out.push(item);
        i += 1;
    }
    proof {
        take_whole(target);
    }
    out
}

/// The paths that each of the first `n` searches found, with what they were found
/// for.
pub open spec fn found_items(found: Seq<Vec<String>>, n: nat) -> Seq<RelatedView>
    decreases n,
{
    if n == 0 {
        Seq::empty()
    } else {
        found_items(found, (n - 1) as nat) + items_at(views(found[n - 1]@), type_reasons()[n - 1], 1)
    }
}

/// The type relations of a symbol, from the paths that each of the searches found:
/// sorted by path and reason, each once.
pub fn type_relations_of(found: &Vec<Vec<String>>) -> (r: Vec<RelatedItem>)
    requires
        found@.len() == type_reasons().len(),
    ensures
        views(r@) == dedup(
            stable_sort(found_items(found@, type_reasons().len()), path_reason_order()),
            same_path_reason(),
        ),
{
    let mut out: Vec<RelatedItem> = Vec::new();
    let mut i: usize = 0;
    assert(views(out@) =~= Seq::<RelatedView>::empty());
    while i < found.len()
        invariant
            i <= found@.len(),
            found@.len() == type_reasons().len(),
            views(out@) == found_items(found@, i as nat),
        decreases found@.len() - i,
    {
        let reason = type_reason(i);
        let mut more = items_for(&found[i], reason.as_str(), 1);
        proof {
            crate::lists::views_add(out@, more@);
        }
        out.append(&mut more);
        i += 1;
    }
    sort_path_reason(out)
}

/// The search for the files that reference a symbol.
pub open spec fn references_query(name: Seq<char>) -> StatementView {
    StatementView {
        text: "MATCH (s:Symbol)-[:REFERENCES]->(t:Symbol) WHERE lower(t.name) = $n RETURN DISTINCT s.filePath"@,
        params: seq![text_param("n"@, lower(name))],
    }
}

/// The search for the files that reference a symbol (incoming `REFERENCES` edges).
pub fn symbol_references_statement(name: &str) -> (r: Statement)
    ensures
        r@ == references_query(name@),
{
    let n = ascii_lowercase(name);
    statement1(
        "MATCH (s:Symbol)-[:REFERENCES]->(t:Symbol) WHERE lower(t.name) = $n RETURN DISTINCT s.filePath",
        text_value("n", n.as_str()),
    )
}

/// The files that reference a symbol, from the paths that the search found.
pub open spec fn referring(name: Seq<char>, paths: Seq<Seq<char>>) -> Seq<RelatedView> {
    one_per_path(items_at(paths, "references "@ + name, 1))
}

/// The files that reference a symbol, from the paths that the search found.
pub fn symbol_references_of(name: &str, paths: &Vec<String>) -> (r: Vec<RelatedItem>)
    ensures
        views(r@) == referring(name@, views(paths@)),
{
    let reason = cat("references ", name);
    sort_one_per_path(items_for(paths, reason.as_str(), 1))
}

/// The search for the files that declare a symbol.
pub open spec fn declaring_query(name: Seq<char>) -> StatementView {
    StatementView {
        text: "MATCH (s:Symbol) WHERE lower(s.name) = $name RETURN DISTINCT s.filePath ORDER BY s.filePath"@,
        params: seq![text_param("name"@, lower(name))],
    }
}

/// The search for the files that declare a symbol.
pub fn declaring_files_statement(name: &str) -> (r: Statement)
    ensures
        r@ == declaring_query(name@),
{
    let n = ascii_lowercase(name);
    statement1(
        "MATCH (s:Symbol) WHERE lower(s.name) = $name RETURN DISTINCT s.filePath ORDER BY s.filePath",
        text_value("name", n.as_str()),
    )
}

pub open spec fn has_path(items: Seq<RelatedView>, path: Seq<char>) -> bool {
    exists|i: int| 0 <= i < items.len() && (#[trigger] items[i]).path == path
}

/// The items, and then those of `more` whose path is not there yet.
pub open spec fn with_new_paths(items: Seq<RelatedView>, more: Seq<RelatedView>) -> Seq<RelatedView>
    decreases more.len(),
{
    if more.len() == 0 {
        items
    } else {
        let before = with_new_paths(items, more.drop_last());
        if has_path(before, more.last().path) {
            before
        } else {
            before.push(more.last())
        }
    }
}

fn knows_path(items: &Vec<RelatedItem>, path: &str) -> (r: bool)
    ensures
        r == has_path(views(items@), path@),
{
    let mut i: usize = 0;
    while i < items.len()
        invariant
            i <= items@.len(),
            forall|j: int| 0 <= j < i ==> (#[trigger] views(items@)[j]).path != path@,
        decreases items@.len() - i,
    {
        assert(views(items@)[i as int] == items@[i as int]@);
        if same(items[i].path.as_str(), path) {
            return true;
        }
        i += 1;
    }
    false
}

/// The files related to a symbol: those that declare it, then those that only
/// reference it. Declaring files take precedence.
pub fn related_to_symbol_of(declaring: &Vec<String>, referring: Vec<RelatedItem>) -> (r: Vec<RelatedItem>)
    ensures
        views(r@) == with_new_paths(
            items_at(views(declaring@), "exact symbol declaration"@, 0),
            views(referring@),
        ),
{
    let mut out = items_for(declaring, "exact symbol declaration", 0);
    let ghost first = views(out@);
    let ghost all = views(referring@);
    let mut i: usize = 0;
    proof {
        take_none(all);
    }
    while i < referring.len()
        invariant
            i <= referring@.len(),
            all == views(referring@),
            views(out@) == with_new_paths(first, all.take(i as int)),
        decreases referring@.len() - i,
    {
        proof {
            take_next(all, i as int);
            assert(all[i as int] == referring@[i as int]@);
        }
        if !knows_path(&out, referring[i].path.as_str()) {
            let item = referring[i].clone();
            proof {
                views_push(out@, item);
            }
            out.push(item);
        }
        i += 1;
    }
    proof {
        take_whole(all);
    }
    out
}

/// The search for the files that import a package.
pub fn importers_statement(package_name: &str) -> (r: Statement)
    ensures
        r@ == (StatementView {
            text: "MATCH (f:File)-[:IMPORTS_PACKAGE]->(k:Package {name: $name}) RETURN DISTINCT f.path ORDER BY f.path"@,
            params: seq![text_param("name"@, package_name@)],
        }),
{
    statement1(
        "MATCH (f:File)-[:IMPORTS_PACKAGE]->(k:Package {name: $name}) RETURN DISTINCT f.path ORDER BY f.path",
        text_value("name", package_name),
    )
}

/// The search for the other files of the projects that own a file.
pub fn siblings_statement(path: &str) -> (r: Statement)
    ensures
        r@ == (StatementView {
            text: "MATCH (p:Project)-[:CONTAINS_FILE]->(seed:File {path: $path}) MATCH (p)-[:CONTAINS_FILE]->(sib:File) WHERE sib.path <> $path RETURN DISTINCT sib.path, p.name ORDER BY sib.path"@,
            params: seq![text_param("path"@, path@)],
        }),
{
    statement1(
        "MATCH (p:Project)-[:CONTAINS_FILE]->(seed:File {path: $path}) MATCH (p)-[:CONTAINS_FILE]->(sib:File) WHERE sib.path <> $path RETURN DISTINCT sib.path, p.name ORDER BY sib.path",
        text_value("path", path),
    )
}

/// A sibling of a file, from its path and the name of the project.
pub fn sibling_of(path: String, project: &str) -> (r: RelatedItem)
    ensures
        r@ == (RelatedView { path: path@, reason: "same project ("@ + project@ + ")"@, depth: 1 }),
{
    RelatedItem { path, reason: cat3("same project (", project, ")"), depth: 1 }
}

/// The search for all packages.
pub const PACKAGES_QUERY: &'static str = "MATCH (p:Package) RETURN p.id, p.name, p.version, p.ecosystem, p.dependencyKind ORDER BY p.name, p.version";

/// The search for all projects.
pub const PROJECTS_QUERY: &'static str = "MATCH (p:Project) RETURN p.id, p.name, p.path, p.language, p.kind ORDER BY p.path";

/// The query that counts the nodes with a label.
pub fn count_nodes_text(label: &str) -> (r: String)
    ensures
        r@ == "MATCH (n:"@ + label@ + ") RETURN count(n)"@,
{
    cat3("MATCH (n:", label, ") RETURN count(n)")
}

/// The query that counts the edges with a label.
pub fn count_edges_text(label: &str) -> (r: String)
    ensures
        r@ == "MATCH ()-[r:"@ + label@ + "]->() RETURN count(r)"@,
{
    cat3("MATCH ()-[r:", label, "]->() RETURN count(r)")
}

/// The counts of the store. The edges are those between projects and those from
/// projects to packages.
pub fn stats_of(
    files: usize,
    symbols: usize,
    projects: usize,
    packages: usize,
    project_references: usize,
    package_uses: usize,
    symbol_references: usize,
) -> (r: IndexStats)
    ensures
        r == (IndexStats {
            files,
            symbols,
            projects,
            packages,
            edges: capped_sum(project_references as nat, package_uses as nat),
            reference_edges: symbol_references,
        }),
{
    let edges: usize = if project_references <= usize::MAX - package_uses {
        project_references + package_uses
    } else {
        usize::MAX
    };
    IndexStats { files, symbols, projects, packages, edges, reference_edges: symbol_references }
}

// --- rows ----------------------------------------------------------------------------------------
/// The columns of a file.
#[derive(Debug)]
pub struct FileRow {
    pub id: String,
    pub path: String,
    pub language: String,
    pub hash: String,
    pub size_bytes: i64,
    pub git_tracked: bool,
    pub last_indexed_at: String,
}

/// The columns of a symbol.
#[derive(Debug)]
pub struct SymbolRow {
    pub id: String,
    pub name: String,
    pub full_name: String,
    pub kind: String,
    pub language: String,
    pub file_path: String,
    pub start_line: i64,
    pub end_line: i64,
    pub visibility: String,
    pub exported: bool,
}

/// The columns of a project.
#[derive(Debug)]
pub struct ProjectRow {
    pub id: String,
    pub name: String,
    pub path: String,
    pub language: String,
    pub kind: String,
}

/// The language with a stored name; `Other` where the name is not known.
pub open spec fn stored_language(name: Seq<char>) -> Language {
    match Language::named(lower(name)) {
        Some(l) => l,
        None => Language::Other,
    }
}

/// The kind with a stored name; a function where the name is not known.
pub open spec fn stored_kind(name: Seq<char>) -> SymbolKind {
    match SymbolKind::named(lower(name)) {
        Some(k) => k,
        None => SymbolKind::Function,
    }
}

fn parse_lang(s: &str) -> (r: Language)
    ensures
        r == stored_language(s@),
{
    match Language::from_str_opt(s) {
        Some(l) => l,
        None => Language::Other,
    }
}

fn parse_kind(s: &str) -> (r: SymbolKind)
    ensures
        r == stored_kind(s@),
{
    match SymbolKind::from_str_opt(s) {
        Some(k) => k,
        None => SymbolKind::Function,
    }
}

/// The file that a row tells of.
pub fn file_of_row(row: FileRow) -> (r: IndexedFile)
    ensures
        r@ == (FileView {
            id: row.id@,
            path: row.path@,
            language: stored_language(row.language@),
            hash: row.hash@,
            size_bytes: row.size_bytes as u64,
            git_tracked: row.git_tracked,
            last_indexed_at: row.last_indexed_at@,
        }),
{
    IndexedFile {
        id: row.id,
        path: row.path,
        language: parse_lang(row.language.as_str()),
        hash: row.hash,
        size_bytes: #[verifier::truncate] (row.size_bytes as u64),
        git_tracked: row.git_tracked,
        last_indexed_at: row.last_indexed_at,
    }
}

/// The symbol that a row tells of.
pub fn symbol_of_row(row: SymbolRow) -> (r: IndexedSymbol)
    ensures
        r@ == (SymbolView {
            id: row.id@,
            name: row.name@,
            full_name: row.full_name@,
            kind: stored_kind(row.kind@),
            language: stored_language(row.language@),
            file_path: row.file_path@,
            start_line: row.start_line as u32,
            end_line: row.end_line as u32,
            visibility: row.visibility@,
            exported: row.exported,
        }),
{
    IndexedSymbol {
        id: row.id,
        name: row.name,
        full_name: row.full_name,
        kind: parse_kind(row.kind.as_str()),
        language: parse_lang(row.language.as_str()),
        file_path: row.file_path,
        start_line: #[verifier::truncate] (row.start_line as u32),
        end_line: #[verifier::truncate] (row.end_line as u32),
        visibility: row.visibility,
        exported: row.exported,
    }
}

/// The project that a row tells of.
pub fn project_of_row(row: ProjectRow) -> (r: IndexedProject)
    ensures
        r@ == (ProjectView {
            id: row.id@,
            name: row.name@,
            path: row.path@,
            language: stored_language(row.language@),
            kind: row.kind@,
        }),
{
    IndexedProject {
        id: row.id,
        name: row.name,
        path: row.path,
        language: parse_lang(row.language.as_str()),
        kind: row.kind,
    }
}

} // verus!
