//! What the statements for a Cypher database say and ask, and what comes back.

use crate::graph::cypher::{
    asked_param, condition, file_of_row, file_params, files_query, items_at, kind_name, language_name, lowered,
    project_of_row, project_params, referring, statements_of, stats_of, symbol_of_row, symbol_params, symbols_query,
    type_queries, type_reasons, where_clause, with_new_paths, CypherView, FileRow, ParamView, ProjectRow, SymbolRow,
};
use crate::graph::edge_laws::{one_per_path_is_part, something_at_path};
use crate::graph::memory_store::one_per_path;
use crate::graph::model::{
    language_name_round_trips, symbol_kind_name_round_trips, FileQueryView, FileView, IndexStats, IndexedFile,
    IndexedProject, IndexedSymbol, PackageView, ProjectView, RelatedView, SymbolQueryView, SymbolView,
};
use crate::graph::store::StoreWrite;
use crate::text::{has, join, lower, occurs_at};
use vstd::prelude::*;

verus! {

// --- writes ---------------------------------------------------------------------------------------
/// The edge is merged between the two nodes that its ends name.
pub proof fn contains_file_is_merged(from: Seq<char>, to: Seq<char>)
    ensures
        ({
            let all = statements_of(StoreWrite::ContainsFile(from, to));
            &&& all.len() == 1
            &&& has(all[0].text, "MERGE (p)-[:CONTAINS_FILE]->(f)"@)
            &&& has(all[0].text, "(p:Project {id: $p})"@)
            &&& has(all[0].text, "(f:File {id: $f})"@)
            &&& all[0].params.len() == 2
            &&& all[0].params.contains(ParamView { name: "p"@, value: CypherView::Text(from) })
            &&& all[0].params.contains(ParamView { name: "f"@, value: CypherView::Text(to) })
        }),
{
    let all = statements_of(StoreWrite::ContainsFile(from, to));
    let text = all[0].text;
    reveal_strlit("MATCH (p:Project {id: $p}), (f:File {id: $f}) MERGE (p)-[:CONTAINS_FILE]->(f)");
    reveal_strlit("MERGE (p)-[:CONTAINS_FILE]->(f)");
    assert(text.subrange(46, 77) =~= "MERGE (p)-[:CONTAINS_FILE]->(f)"@);
    assert(occurs_at(text, "MERGE (p)-[:CONTAINS_FILE]->(f)"@, 46));
    reveal_strlit("MATCH (p:Project {id: $p}), (f:File {id: $f}) MERGE (p)-[:CONTAINS_FILE]->(f)");
    reveal_strlit("(p:Project {id: $p})");
    assert(text.subrange(6, 26) =~= "(p:Project {id: $p})"@);
    assert(occurs_at(text, "(p:Project {id: $p})"@, 6));
    reveal_strlit("MATCH (p:Project {id: $p}), (f:File {id: $f}) MERGE (p)-[:CONTAINS_FILE]->(f)");
    reveal_strlit("(f:File {id: $f})");
    assert(text.subrange(28, 45) =~= "(f:File {id: $f})"@);
    assert(occurs_at(text, "(f:File {id: $f})"@, 28));
    assert(all[0].params[0] == (ParamView { name: "p"@, value: CypherView::Text(from) }));
    assert(all[0].params[1] == (ParamView { name: "f"@, value: CypherView::Text(to) }));
}

/// The edge is merged between the two nodes that its ends name.
pub proof fn declares_is_merged(from: Seq<char>, to: Seq<char>)
    ensures
        ({
            let all = statements_of(StoreWrite::Declares(from, to));
            &&& all.len() == 1
            &&& has(all[0].text, "MERGE (f)-[:DECLARES]->(s)"@)
            &&& has(all[0].text, "(f:File {id: $f})"@)
            &&& has(all[0].text, "(s:Symbol {id: $s})"@)
            &&& all[0].params.len() == 2
            &&& all[0].params.contains(ParamView { name: "f"@, value: CypherView::Text(from) })
            &&& all[0].params.contains(ParamView { name: "s"@, value: CypherView::Text(to) })
        }),
{
    let all = statements_of(StoreWrite::Declares(from, to));
    let text = all[0].text;
    reveal_strlit("MATCH (f:File {id: $f}), (s:Symbol {id: $s}) MERGE (f)-[:DECLARES]->(s)");
    reveal_strlit("MERGE (f)-[:DECLARES]->(s)");
    assert(text.subrange(45, 71) =~= "MERGE (f)-[:DECLARES]->(s)"@);
    assert(occurs_at(text, "MERGE (f)-[:DECLARES]->(s)"@, 45));
    reveal_strlit("MATCH (f:File {id: $f}), (s:Symbol {id: $s}) MERGE (f)-[:DECLARES]->(s)");
    reveal_strlit("(f:File {id: $f})");
    assert(text.subrange(6, 23) =~= "(f:File {id: $f})"@);
    assert(occurs_at(text, "(f:File {id: $f})"@, 6));
    reveal_strlit("MATCH (f:File {id: $f}), (s:Symbol {id: $s}) MERGE (f)-[:DECLARES]->(s)");
    reveal_strlit("(s:Symbol {id: $s})");
    assert(text.subrange(25, 44) =~= "(s:Symbol {id: $s})"@);
    assert(occurs_at(text, "(s:Symbol {id: $s})"@, 25));
    assert(all[0].params[0] == (ParamView { name: "f"@, value: CypherView::Text(from) }));
    assert(all[0].params[1] == (ParamView { name: "s"@, value: CypherView::Text(to) }));
}

/// The edge is merged between the two nodes that its ends name.
pub proof fn uses_package_is_merged(from: Seq<char>, to: Seq<char>)
    ensures
        ({
            let all = statements_of(StoreWrite::UsesPackage(from, to));
            &&& all.len() == 1
            &&& has(all[0].text, "MERGE (p)-[:USES_PACKAGE]->(k)"@)
            &&& has(all[0].text, "(p:Project {id: $p})"@)
            &&& has(all[0].text, "(k:Package {id: $k})"@)
            &&& all[0].params.len() == 2
            &&& all[0].params.contains(ParamView { name: "p"@, value: CypherView::Text(from) })
            &&& all[0].params.contains(ParamView { name: "k"@, value: CypherView::Text(to) })
        }),
{
    let all = statements_of(StoreWrite::UsesPackage(from, to));
    let text = all[0].text;
    reveal_strlit("MATCH (p:Project {id: $p}), (k:Package {id: $k}) MERGE (p)-[:USES_PACKAGE]->(k)");
    reveal_strlit("MERGE (p)-[:USES_PACKAGE]->(k)");
    assert(text.subrange(49, 79) =~= "MERGE (p)-[:USES_PACKAGE]->(k)"@);
    assert(occurs_at(text, "MERGE (p)-[:USES_PACKAGE]->(k)"@, 49));
    reveal_strlit("MATCH (p:Project {id: $p}), (k:Package {id: $k}) MERGE (p)-[:USES_PACKAGE]->(k)");
    reveal_strlit("(p:Project {id: $p})");
    assert(text.subrange(6, 26) =~= "(p:Project {id: $p})"@);
    assert(occurs_at(text, "(p:Project {id: $p})"@, 6));
    reveal_strlit("MATCH (p:Project {id: $p}), (k:Package {id: $k}) MERGE (p)-[:USES_PACKAGE]->(k)");
    reveal_strlit("(k:Package {id: $k})");
    assert(text.subrange(28, 48) =~= "(k:Package {id: $k})"@);
    assert(occurs_at(text, "(k:Package {id: $k})"@, 28));
    assert(all[0].params[0] == (ParamView { name: "p"@, value: CypherView::Text(from) }));
    assert(all[0].params[1] == (ParamView { name: "k"@, value: CypherView::Text(to) }));
}

/// The edge is merged between the two nodes that its ends name.
pub proof fn imports_package_is_merged(from: Seq<char>, to: Seq<char>)
    ensures
        ({
            let all = statements_of(StoreWrite::ImportsPackage(from, to));
            &&& all.len() == 1
            &&& has(all[0].text, "MERGE (f)-[:IMPORTS_PACKAGE]->(k)"@)
            &&& has(all[0].text, "(f:File {id: $f})"@)
            &&& has(all[0].text, "(k:Package {id: $k})"@)
            &&& all[0].params.len() == 2
            &&& all[0].params.contains(ParamView { name: "f"@, value: CypherView::Text(from) })
            &&& all[0].params.contains(ParamView { name: "k"@, value: CypherView::Text(to) })
        }),
{
    let all = statements_of(StoreWrite::ImportsPackage(from, to));
    let text = all[0].text;
    reveal_strlit("MATCH (f:File {id: $f}), (k:Package {id: $k}) MERGE (f)-[:IMPORTS_PACKAGE]->(k)");
    reveal_strlit("MERGE (f)-[:IMPORTS_PACKAGE]->(k)");
    assert(text.subrange(46, 79) =~= "MERGE (f)-[:IMPORTS_PACKAGE]->(k)"@);
    assert(occurs_at(text, "MERGE (f)-[:IMPORTS_PACKAGE]->(k)"@, 46));
    reveal_strlit("MATCH (f:File {id: $f}), (k:Package {id: $k}) MERGE (f)-[:IMPORTS_PACKAGE]->(k)");
    reveal_strlit("(f:File {id: $f})");
    assert(text.subrange(6, 23) =~= "(f:File {id: $f})"@);
    assert(occurs_at(text, "(f:File {id: $f})"@, 6));
    reveal_strlit("MATCH (f:File {id: $f}), (k:Package {id: $k}) MERGE (f)-[:IMPORTS_PACKAGE]->(k)");
    reveal_strlit("(k:Package {id: $k})");
    assert(text.subrange(25, 45) =~= "(k:Package {id: $k})"@);
    assert(occurs_at(text, "(k:Package {id: $k})"@, 25));
    assert(all[0].params[0] == (ParamView { name: "f"@, value: CypherView::Text(from) }));
    assert(all[0].params[1] == (ParamView { name: "k"@, value: CypherView::Text(to) }));
}

/// The edge is merged between the two nodes that its ends name.
pub proof fn inherits_is_merged(from: Seq<char>, to: Seq<char>)
    ensures
        ({
            let all = statements_of(StoreWrite::Inherits(from, to));
            &&& all.len() == 1
            &&& has(all[0].text, "MERGE (a)-[:INHERITS]->(b)"@)
            &&& has(all[0].text, "(a:Symbol {id: $a})"@)
            &&& has(all[0].text, "(b:Symbol {id: $b})"@)
            &&& all[0].params.len() == 2
            &&& all[0].params.contains(ParamView { name: "a"@, value: CypherView::Text(from) })
            &&& all[0].params.contains(ParamView { name: "b"@, value: CypherView::Text(to) })
        }),
{
    let all = statements_of(StoreWrite::Inherits(from, to));
    let text = all[0].text;
    reveal_strlit("MATCH (a:Symbol {id: $a}), (b:Symbol {id: $b}) MERGE (a)-[:INHERITS]->(b)");
    reveal_strlit("MERGE (a)-[:INHERITS]->(b)");
    assert(text.subrange(47, 73) =~= "MERGE (a)-[:INHERITS]->(b)"@);
    assert(occurs_at(text, "MERGE (a)-[:INHERITS]->(b)"@, 47));
    reveal_strlit("MATCH (a:Symbol {id: $a}), (b:Symbol {id: $b}) MERGE (a)-[:INHERITS]->(b)");
    reveal_strlit("(a:Symbol {id: $a})");
    assert(text.subrange(6, 25) =~= "(a:Symbol {id: $a})"@);
    assert(occurs_at(text, "(a:Symbol {id: $a})"@, 6));
    reveal_strlit("MATCH (a:Symbol {id: $a}), (b:Symbol {id: $b}) MERGE (a)-[:INHERITS]->(b)");
    reveal_strlit("(b:Symbol {id: $b})");
    assert(text.subrange(27, 46) =~= "(b:Symbol {id: $b})"@);
    assert(occurs_at(text, "(b:Symbol {id: $b})"@, 27));
    assert(all[0].params[0] == (ParamView { name: "a"@, value: CypherView::Text(from) }));
    assert(all[0].params[1] == (ParamView { name: "b"@, value: CypherView::Text(to) }));
}

/// The edge is merged between the two nodes that its ends name.
pub proof fn implements_is_merged(from: Seq<char>, to: Seq<char>)
    ensures
        ({
            let all = statements_of(StoreWrite::Implements(from, to));
            &&& all.len() == 1
            &&& has(all[0].text, "MERGE (a)-[:IMPLEMENTS]->(b)"@)
            &&& has(all[0].text, "(a:Symbol {id: $a})"@)
            &&& has(all[0].text, "(b:Symbol {id: $b})"@)
            &&& all[0].params.len() == 2
            &&& all[0].params.contains(ParamView { name: "a"@, value: CypherView::Text(from) })
            &&& all[0].params.contains(ParamView { name: "b"@, value: CypherView::Text(to) })
        }),
{
    let all = statements_of(StoreWrite::Implements(from, to));
    let text = all[0].text;
    reveal_strlit("MATCH (a:Symbol {id: $a}), (b:Symbol {id: $b}) MERGE (a)-[:IMPLEMENTS]->(b)");
    reveal_strlit("MERGE (a)-[:IMPLEMENTS]->(b)");
    assert(text.subrange(47, 75) =~= "MERGE (a)-[:IMPLEMENTS]->(b)"@);
    assert(occurs_at(text, "MERGE (a)-[:IMPLEMENTS]->(b)"@, 47));
    reveal_strlit("MATCH (a:Symbol {id: $a}), (b:Symbol {id: $b}) MERGE (a)-[:IMPLEMENTS]->(b)");
    reveal_strlit("(a:Symbol {id: $a})");
    assert(text.subrange(6, 25) =~= "(a:Symbol {id: $a})"@);
    assert(occurs_at(text, "(a:Symbol {id: $a})"@, 6));
    reveal_strlit("MATCH (a:Symbol {id: $a}), (b:Symbol {id: $b}) MERGE (a)-[:IMPLEMENTS]->(b)");
    reveal_strlit("(b:Symbol {id: $b})");
    assert(text.subrange(27, 46) =~= "(b:Symbol {id: $b})"@);
    assert(occurs_at(text, "(b:Symbol {id: $b})"@, 27));
    assert(all[0].params[0] == (ParamView { name: "a"@, value: CypherView::Text(from) }));
    assert(all[0].params[1] == (ParamView { name: "b"@, value: CypherView::Text(to) }));
}

/// The edge is merged between the two nodes that its ends name.
pub proof fn references_is_merged(from: Seq<char>, to: Seq<char>)
    ensures
        ({
            let all = statements_of(StoreWrite::References(from, to));
            &&& all.len() == 1
            &&& has(all[0].text, "MERGE (a)-[:REFERENCES]->(b)"@)
            &&& has(all[0].text, "(a:Symbol {id: $a})"@)
            &&& has(all[0].text, "(b:Symbol {id: $b})"@)
            &&& all[0].params.len() == 2
            &&& all[0].params.contains(ParamView { name: "a"@, value: CypherView::Text(from) })
            &&& all[0].params.contains(ParamView { name: "b"@, value: CypherView::Text(to) })
        }),
{
    let all = statements_of(StoreWrite::References(from, to));
    let text = all[0].text;
    reveal_strlit("MATCH (a:Symbol {id: $a}), (b:Symbol {id: $b}) MERGE (a)-[:REFERENCES]->(b)");
    reveal_strlit("MERGE (a)-[:REFERENCES]->(b)");
    assert(text.subrange(47, 75) =~= "MERGE (a)-[:REFERENCES]->(b)"@);
    assert(occurs_at(text, "MERGE (a)-[:REFERENCES]->(b)"@, 47));
    reveal_strlit("MATCH (a:Symbol {id: $a}), (b:Symbol {id: $b}) MERGE (a)-[:REFERENCES]->(b)");
    reveal_strlit("(a:Symbol {id: $a})");
    assert(text.subrange(6, 25) =~= "(a:Symbol {id: $a})"@);
    assert(occurs_at(text, "(a:Symbol {id: $a})"@, 6));
    reveal_strlit("MATCH (a:Symbol {id: $a}), (b:Symbol {id: $b}) MERGE (a)-[:REFERENCES]->(b)");
    reveal_strlit("(b:Symbol {id: $b})");
    assert(text.subrange(27, 46) =~= "(b:Symbol {id: $b})"@);
    assert(occurs_at(text, "(b:Symbol {id: $b})"@, 27));
    assert(all[0].params[0] == (ParamView { name: "a"@, value: CypherView::Text(from) }));
    assert(all[0].params[1] == (ParamView { name: "b"@, value: CypherView::Text(to) }));
}

/// A file is merged by its id, and each of its fields is set from the value of its own.
pub proof fn file_is_merged(f: FileView)
    ensures
        ({
            let all = statements_of(StoreWrite::UpsertFile(f));
            &&& all.len() == 1
            &&& all[0].params.len() == 7
            &&& has(all[0].text, "MERGE (f:File"@)
            &&& has(all[0].text, "id: $id"@) && all[0].params.contains(
                ParamView { name: "id"@, value: CypherView::Text(f.id) },
            )
            &&& has(all[0].text, "f.path = $path"@) && all[0].params.contains(
                ParamView { name: "path"@, value: CypherView::Text(f.path) },
            )
            &&& has(all[0].text, "f.language = $language"@) && all[0].params.contains(
                ParamView { name: "language"@, value: CypherView::Text(f.language.name()) },
            )
            &&& has(all[0].text, "f.hash = $hash"@) && all[0].params.contains(
                ParamView { name: "hash"@, value: CypherView::Text(f.hash) },
            )
            &&& has(all[0].text, "f.sizeBytes = $size"@) && all[0].params.contains(
                ParamView { name: "size"@, value: CypherView::Int(f.size_bytes as i64) },
            )
            &&& has(all[0].text, "f.tracked = $tracked"@) && all[0].params.contains(
                ParamView { name: "tracked"@, value: CypherView::Flag(f.git_tracked) },
            )
            &&& has(all[0].text, "f.lastIndexedAt = $ts"@) && all[0].params.contains(
                ParamView { name: "ts"@, value: CypherView::Text(f.last_indexed_at) },
            )
        }),
{
    let all = statements_of(StoreWrite::UpsertFile(f));
    let text = all[0].text;
    reveal_strlit("MERGE (f:File {id: $id}) SET f.path = $path, f.language = $language, f.hash = $hash, f.sizeBytes = $size, f.tracked = $tracked, f.lastIndexedAt = $ts");
    reveal_strlit("MERGE (f:File");
    assert(text.subrange(0, 13) =~= "MERGE (f:File"@);
    assert(occurs_at(text, "MERGE (f:File"@, 0));
    reveal_strlit("MERGE (f:File {id: $id}) SET f.path = $path, f.language = $language, f.hash = $hash, f.sizeBytes = $size, f.tracked = $tracked, f.lastIndexedAt = $ts");
    reveal_strlit("id: $id");
    assert(text.subrange(15, 22) =~= "id: $id"@);
    assert(occurs_at(text, "id: $id"@, 15));
    assert(all[0].params[0] == (ParamView { name: "id"@, value: CypherView::Text(f.id) }));
    reveal_strlit("MERGE (f:File {id: $id}) SET f.path = $path, f.language = $language, f.hash = $hash, f.sizeBytes = $size, f.tracked = $tracked, f.lastIndexedAt = $ts");
    reveal_strlit("f.path = $path");
    assert(text.subrange(29, 43) =~= "f.path = $path"@);
    assert(occurs_at(text, "f.path = $path"@, 29));
    assert(all[0].params[1] == (ParamView { name: "path"@, value: CypherView::Text(f.path) }));
    reveal_strlit("MERGE (f:File {id: $id}) SET f.path = $path, f.language = $language, f.hash = $hash, f.sizeBytes = $size, f.tracked = $tracked, f.lastIndexedAt = $ts");
    reveal_strlit("f.language = $language");
    assert(text.subrange(45, 67) =~= "f.language = $language"@);
    assert(occurs_at(text, "f.language = $language"@, 45));
    assert(all[0].params[2] == (ParamView { name: "language"@, value: CypherView::Text(f.language.name()) }));
    reveal_strlit("MERGE (f:File {id: $id}) SET f.path = $path, f.language = $language, f.hash = $hash, f.sizeBytes = $size, f.tracked = $tracked, f.lastIndexedAt = $ts");
    reveal_strlit("f.hash = $hash");
    assert(text.subrange(69, 83) =~= "f.hash = $hash"@);
    assert(occurs_at(text, "f.hash = $hash"@, 69));
    assert(all[0].params[3] == (ParamView { name: "hash"@, value: CypherView::Text(f.hash) }));
    reveal_strlit("MERGE (f:File {id: $id}) SET f.path = $path, f.language = $language, f.hash = $hash, f.sizeBytes = $size, f.tracked = $tracked, f.lastIndexedAt = $ts");
    reveal_strlit("f.sizeBytes = $size");
    assert(text.subrange(85, 104) =~= "f.sizeBytes = $size"@);
    assert(occurs_at(text, "f.sizeBytes = $size"@, 85));
    assert(all[0].params[4] == (ParamView { name: "size"@, value: CypherView::Int(f.size_bytes as i64) }));
    reveal_strlit("MERGE (f:File {id: $id}) SET f.path = $path, f.language = $language, f.hash = $hash, f.sizeBytes = $size, f.tracked = $tracked, f.lastIndexedAt = $ts");
    reveal_strlit("f.tracked = $tracked");
    assert(text.subrange(106, 126) =~= "f.tracked = $tracked"@);
    assert(occurs_at(text, "f.tracked = $tracked"@, 106));
    assert(all[0].params[5] == (ParamView { name: "tracked"@, value: CypherView::Flag(f.git_tracked) }));
    reveal_strlit("MERGE (f:File {id: $id}) SET f.path = $path, f.language = $language, f.hash = $hash, f.sizeBytes = $size, f.tracked = $tracked, f.lastIndexedAt = $ts");
    reveal_strlit("f.lastIndexedAt = $ts");
    assert(text.subrange(128, 149) =~= "f.lastIndexedAt = $ts"@);
    assert(occurs_at(text, "f.lastIndexedAt = $ts"@, 128));
    assert(all[0].params[6] == (ParamView { name: "ts"@, value: CypherView::Text(f.last_indexed_at) }));
}

/// A symbol is merged by its id, and each of its fields is set from the value of its own.
pub proof fn symbol_is_merged(s: SymbolView)
    ensures
        ({
            let all = statements_of(StoreWrite::UpsertSymbol(s));
            &&& all.len() == 1
            &&& all[0].params.len() == 10
            &&& has(all[0].text, "MERGE (s:Symbol"@)
            &&& has(all[0].text, "id: $id"@) && all[0].params.contains(
                ParamView { name: "id"@, value: CypherView::Text(s.id) },
            )
            &&& has(all[0].text, "s.name = $name"@) && all[0].params.contains(
                ParamView { name: "name"@, value: CypherView::Text(s.name) },
            )
            &&& has(all[0].text, "s.fullName = $full"@) && all[0].params.contains(
                ParamView { name: "full"@, value: CypherView::Text(s.full_name) },
            )
            &&& has(all[0].text, "s.kind = $kind"@) && all[0].params.contains(
                ParamView { name: "kind"@, value: CypherView::Text(s.kind.name()) },
            )
            &&& has(all[0].text, "s.language = $language"@) && all[0].params.contains(
                ParamView { name: "language"@, value: CypherView::Text(s.language.name()) },
            )
            &&& has(all[0].text, "s.filePath = $file"@) && all[0].params.contains(
                ParamView { name: "file"@, value: CypherView::Text(s.file_path) },
            )
            &&& has(all[0].text, "s.startLine = $startln"@) && all[0].params.contains(
                ParamView { name: "startln"@, value: CypherView::Int(s.start_line as i64) },
            )
            &&& has(all[0].text, "s.endLine = $endln"@) && all[0].params.contains(
                ParamView { name: "endln"@, value: CypherView::Int(s.end_line as i64) },
            )
            &&& has(all[0].text, "s.visibility = $vis"@) && all[0].params.contains(
                ParamView { name: "vis"@, value: CypherView::Text(s.visibility) },
            )
            &&& has(all[0].text, "s.exported = $exported"@) && all[0].params.contains(
                ParamView { name: "exported"@, value: CypherView::Flag(s.exported) },
            )
        }),
{
    let all = statements_of(StoreWrite::UpsertSymbol(s));
    let text = all[0].text;
    reveal_strlit("MERGE (s:Symbol {id: $id}) SET s.name = $name, s.fullName = $full, s.kind = $kind, s.language = $language, s.filePath = $file, s.startLine = $startln, s.endLine = $endln, s.visibility = $vis, s.exported = $exported");
    reveal_strlit("MERGE (s:Symbol");
    assert(text.subrange(0, 15) =~= "MERGE (s:Symbol"@);
    assert(occurs_at(text, "MERGE (s:Symbol"@, 0));
    reveal_strlit("MERGE (s:Symbol {id: $id}) SET s.name = $name, s.fullName = $full, s.kind = $kind, s.language = $language, s.filePath = $file, s.startLine = $startln, s.endLine = $endln, s.visibility = $vis, s.exported = $exported");
    reveal_strlit("id: $id");
    assert(text.subrange(17, 24) =~= "id: $id"@);
    assert(occurs_at(text, "id: $id"@, 17));
    assert(all[0].params[0] == (ParamView { name: "id"@, value: CypherView::Text(s.id) }));
    reveal_strlit("MERGE (s:Symbol {id: $id}) SET s.name = $name, s.fullName = $full, s.kind = $kind, s.language = $language, s.filePath = $file, s.startLine = $startln, s.endLine = $endln, s.visibility = $vis, s.exported = $exported");
    reveal_strlit("s.name = $name");
    assert(text.subrange(31, 45) =~= "s.name = $name"@);
    assert(occurs_at(text, "s.name = $name"@, 31));
    assert(all[0].params[1] == (ParamView { name: "name"@, value: CypherView::Text(s.name) }));
    reveal_strlit("MERGE (s:Symbol {id: $id}) SET s.name = $name, s.fullName = $full, s.kind = $kind, s.language = $language, s.filePath = $file, s.startLine = $startln, s.endLine = $endln, s.visibility = $vis, s.exported = $exported");
    reveal_strlit("s.fullName = $full");
    assert(text.subrange(47, 65) =~= "s.fullName = $full"@);
    assert(occurs_at(text, "s.fullName = $full"@, 47));
    assert(all[0].params[2] == (ParamView { name: "full"@, value: CypherView::Text(s.full_name) }));
    reveal_strlit("MERGE (s:Symbol {id: $id}) SET s.name = $name, s.fullName = $full, s.kind = $kind, s.language = $language, s.filePath = $file, s.startLine = $startln, s.endLine = $endln, s.visibility = $vis, s.exported = $exported");
    reveal_strlit("s.kind = $kind");
    assert(text.subrange(67, 81) =~= "s.kind = $kind"@);
    assert(occurs_at(text, "s.kind = $kind"@, 67));
    assert(all[0].params[3] == (ParamView { name: "kind"@, value: CypherView::Text(s.kind.name()) }));
    reveal_strlit("MERGE (s:Symbol {id: $id}) SET s.name = $name, s.fullName = $full, s.kind = $kind, s.language = $language, s.filePath = $file, s.startLine = $startln, s.endLine = $endln, s.visibility = $vis, s.exported = $exported");
    reveal_strlit("s.language = $language");
    assert(text.subrange(83, 105) =~= "s.language = $language"@);
    assert(occurs_at(text, "s.language = $language"@, 83));
    assert(all[0].params[4] == (ParamView { name: "language"@, value: CypherView::Text(s.language.name()) }));
    reveal_strlit("MERGE (s:Symbol {id: $id}) SET s.name = $name, s.fullName = $full, s.kind = $kind, s.language = $language, s.filePath = $file, s.startLine = $startln, s.endLine = $endln, s.visibility = $vis, s.exported = $exported");
    reveal_strlit("s.filePath = $file");
    assert(text.subrange(107, 125) =~= "s.filePath = $file"@);
    assert(occurs_at(text, "s.filePath = $file"@, 107));
    assert(all[0].params[5] == (ParamView { name: "file"@, value: CypherView::Text(s.file_path) }));
    reveal_strlit("MERGE (s:Symbol {id: $id}) SET s.name = $name, s.fullName = $full, s.kind = $kind, s.language = $language, s.filePath = $file, s.startLine = $startln, s.endLine = $endln, s.visibility = $vis, s.exported = $exported");
    reveal_strlit("s.startLine = $startln");
    assert(text.subrange(127, 149) =~= "s.startLine = $startln"@);
    assert(occurs_at(text, "s.startLine = $startln"@, 127));
    assert(all[0].params[6] == (ParamView { name: "startln"@, value: CypherView::Int(s.start_line as i64) }));
    reveal_strlit("MERGE (s:Symbol {id: $id}) SET s.name = $name, s.fullName = $full, s.kind = $kind, s.language = $language, s.filePath = $file, s.startLine = $startln, s.endLine = $endln, s.visibility = $vis, s.exported = $exported");
    reveal_strlit("s.endLine = $endln");
    assert(text.subrange(151, 169) =~= "s.endLine = $endln"@);
    assert(occurs_at(text, "s.endLine = $endln"@, 151));
    assert(all[0].params[7] == (ParamView { name: "endln"@, value: CypherView::Int(s.end_line as i64) }));
    reveal_strlit("MERGE (s:Symbol {id: $id}) SET s.name = $name, s.fullName = $full, s.kind = $kind, s.language = $language, s.filePath = $file, s.startLine = $startln, s.endLine = $endln, s.visibility = $vis, s.exported = $exported");
    reveal_strlit("s.visibility = $vis");
    assert(text.subrange(171, 190) =~= "s.visibility = $vis"@);
    assert(occurs_at(text, "s.visibility = $vis"@, 171));
    assert(all[0].params[8] == (ParamView { name: "vis"@, value: CypherView::Text(s.visibility) }));
    reveal_strlit("MERGE (s:Symbol {id: $id}) SET s.name = $name, s.fullName = $full, s.kind = $kind, s.language = $language, s.filePath = $file, s.startLine = $startln, s.endLine = $endln, s.visibility = $vis, s.exported = $exported");
    reveal_strlit("s.exported = $exported");
    assert(text.subrange(192, 214) =~= "s.exported = $exported"@);
    assert(occurs_at(text, "s.exported = $exported"@, 192));
    assert(all[0].params[9] == (ParamView { name: "exported"@, value: CypherView::Flag(s.exported) }));
}

/// A project is merged by its id, and each of its fields is set from the value of its own.
pub proof fn project_is_merged(p: ProjectView)
    ensures
        ({
            let all = statements_of(StoreWrite::UpsertProject(p));
            &&& all.len() == 1
            &&& all[0].params.len() == 5
            &&& has(all[0].text, "MERGE (p:Project"@)
            &&& has(all[0].text, "id: $id"@) && all[0].params.contains(
                ParamView { name: "id"@, value: CypherView::Text(p.id) },
            )
            &&& has(all[0].text, "p.name = $name"@) && all[0].params.contains(
                ParamView { name: "name"@, value: CypherView::Text(p.name) },
            )
            &&& has(all[0].text, "p.path = $path"@) && all[0].params.contains(
                ParamView { name: "path"@, value: CypherView::Text(p.path) },
            )
            &&& has(all[0].text, "p.language = $language"@) && all[0].params.contains(
                ParamView { name: "language"@, value: CypherView::Text(p.language.name()) },
            )
            &&& has(all[0].text, "p.kind = $kind"@) && all[0].params.contains(
                ParamView { name: "kind"@, value: CypherView::Text(p.kind) },
            )
        }),
{
    let all = statements_of(StoreWrite::UpsertProject(p));
    let text = all[0].text;
    reveal_strlit("MERGE (p:Project {id: $id}) SET p.name = $name, p.path = $path, p.language = $language, p.kind = $kind");
    reveal_strlit("MERGE (p:Project");
    assert(text.subrange(0, 16) =~= "MERGE (p:Project"@);
    assert(occurs_at(text, "MERGE (p:Project"@, 0));
    reveal_strlit("MERGE (p:Project {id: $id}) SET p.name = $name, p.path = $path, p.language = $language, p.kind = $kind");
    reveal_strlit("id: $id");
    assert(text.subrange(18, 25) =~= "id: $id"@);
    assert(occurs_at(text, "id: $id"@, 18));
    assert(all[0].params[0] == (ParamView { name: "id"@, value: CypherView::Text(p.id) }));
    reveal_strlit("MERGE (p:Project {id: $id}) SET p.name = $name, p.path = $path, p.language = $language, p.kind = $kind");
    reveal_strlit("p.name = $name");
    assert(text.subrange(32, 46) =~= "p.name = $name"@);
    assert(occurs_at(text, "p.name = $name"@, 32));
    assert(all[0].params[1] == (ParamView { name: "name"@, value: CypherView::Text(p.name) }));
    reveal_strlit("MERGE (p:Project {id: $id}) SET p.name = $name, p.path = $path, p.language = $language, p.kind = $kind");
    reveal_strlit("p.path = $path");
    assert(text.subrange(48, 62) =~= "p.path = $path"@);
    assert(occurs_at(text, "p.path = $path"@, 48));
    assert(all[0].params[2] == (ParamView { name: "path"@, value: CypherView::Text(p.path) }));
    reveal_strlit("MERGE (p:Project {id: $id}) SET p.name = $name, p.path = $path, p.language = $language, p.kind = $kind");
    reveal_strlit("p.language = $language");
    assert(text.subrange(64, 86) =~= "p.language = $language"@);
    assert(occurs_at(text, "p.language = $language"@, 64));
    assert(all[0].params[3] == (ParamView { name: "language"@, value: CypherView::Text(p.language.name()) }));
    reveal_strlit("MERGE (p:Project {id: $id}) SET p.name = $name, p.path = $path, p.language = $language, p.kind = $kind");
    reveal_strlit("p.kind = $kind");
    assert(text.subrange(88, 102) =~= "p.kind = $kind"@);
    assert(occurs_at(text, "p.kind = $kind"@, 88));
    assert(all[0].params[4] == (ParamView { name: "kind"@, value: CypherView::Text(p.kind) }));
}

/// A package is merged by its id, and each of its fields is set from the value of its own.
pub proof fn package_is_merged(p: PackageView)
    ensures
        ({
            let all = statements_of(StoreWrite::UpsertPackage(p));
            &&& all.len() == 1
            &&& all[0].params.len() == 5
            &&& has(all[0].text, "MERGE (p:Package"@)
            &&& has(all[0].text, "id: $id"@) && all[0].params.contains(
                ParamView { name: "id"@, value: CypherView::Text(p.id) },
            )
            &&& has(all[0].text, "p.name = $name"@) && all[0].params.contains(
                ParamView { name: "name"@, value: CypherView::Text(p.name) },
            )
            &&& has(all[0].text, "p.version = $version"@) && all[0].params.contains(
                ParamView { name: "version"@, value: CypherView::Text(p.version) },
            )
            &&& has(all[0].text, "p.ecosystem = $eco"@) && all[0].params.contains(
                ParamView { name: "eco"@, value: CypherView::Text(p.ecosystem) },
            )
            &&& has(all[0].text, "p.dependencyKind = $kind"@) && all[0].params.contains(
                ParamView { name: "kind"@, value: CypherView::Text(p.dependency_kind) },
            )
        }),
{
    let all = statements_of(StoreWrite::UpsertPackage(p));
    let text = all[0].text;
    reveal_strlit("MERGE (p:Package {id: $id}) SET p.name = $name, p.version = $version, p.ecosystem = $eco, p.dependencyKind = $kind");
    reveal_strlit("MERGE (p:Package");
    assert(text.subrange(0, 16) =~= "MERGE (p:Package"@);
    assert(occurs_at(text, "MERGE (p:Package"@, 0));
    reveal_strlit("MERGE (p:Package {id: $id}) SET p.name = $name, p.version = $version, p.ecosystem = $eco, p.dependencyKind = $kind");
    reveal_strlit("id: $id");
    assert(text.subrange(18, 25) =~= "id: $id"@);
    assert(occurs_at(text, "id: $id"@, 18));
    assert(all[0].params[0] == (ParamView { name: "id"@, value: CypherView::Text(p.id) }));
    reveal_strlit("MERGE (p:Package {id: $id}) SET p.name = $name, p.version = $version, p.ecosystem = $eco, p.dependencyKind = $kind");
    reveal_strlit("p.name = $name");
    assert(text.subrange(32, 46) =~= "p.name = $name"@);
    assert(occurs_at(text, "p.name = $name"@, 32));
    assert(all[0].params[1] == (ParamView { name: "name"@, value: CypherView::Text(p.name) }));
    reveal_strlit("MERGE (p:Package {id: $id}) SET p.name = $name, p.version = $version, p.ecosystem = $eco, p.dependencyKind = $kind");
    reveal_strlit("p.version = $version");
    assert(text.subrange(48, 68) =~= "p.version = $version"@);
    assert(occurs_at(text, "p.version = $version"@, 48));
    assert(all[0].params[2] == (ParamView { name: "version"@, value: CypherView::Text(p.version) }));
    reveal_strlit("MERGE (p:Package {id: $id}) SET p.name = $name, p.version = $version, p.ecosystem = $eco, p.dependencyKind = $kind");
    reveal_strlit("p.ecosystem = $eco");
    assert(text.subrange(70, 88) =~= "p.ecosystem = $eco"@);
    assert(occurs_at(text, "p.ecosystem = $eco"@, 70));
    assert(all[0].params[3] == (ParamView { name: "eco"@, value: CypherView::Text(p.ecosystem) }));
    reveal_strlit("MERGE (p:Package {id: $id}) SET p.name = $name, p.version = $version, p.ecosystem = $eco, p.dependencyKind = $kind");
    reveal_strlit("p.dependencyKind = $kind");
    assert(text.subrange(90, 114) =~= "p.dependencyKind = $kind"@);
    assert(occurs_at(text, "p.dependencyKind = $kind"@, 90));
    assert(all[0].params[4] == (ParamView { name: "kind"@, value: CypherView::Text(p.dependency_kind) }));
}

/// Removing a file deletes the symbols it declares, the symbols at its path, and the
/// file, each by the path.
pub proof fn removal_deletes_everything_of_the_file(path: Seq<char>)
    ensures
        ({
            let all = statements_of(StoreWrite::RemoveFile(path));
            &&& all.len() == 3
            &&& has(all[0].text, "(f:File {path: $path})-[:DECLARES]->(s:Symbol) DETACH DELETE s"@)
            &&& has(all[1].text, "(s:Symbol {filePath: $path}) DETACH DELETE s"@)
            &&& has(all[2].text, "(f:File {path: $path}) DETACH DELETE f"@)
            &&& forall|i: int|
                0 <= i < 3 ==> (#[trigger] all[i]).params == seq![ParamView { name: "path"@, value: CypherView::Text(path) }]
        }),
{
    let all = statements_of(StoreWrite::RemoveFile(path));
    let a = all[0].text;
    let b = all[1].text;
    let c = all[2].text;
    reveal_strlit("MATCH (f:File {path: $path})-[:DECLARES]->(s:Symbol) DETACH DELETE s");
    reveal_strlit("(f:File {path: $path})-[:DECLARES]->(s:Symbol) DETACH DELETE s");
    assert(a.subrange(6, 68) =~= "(f:File {path: $path})-[:DECLARES]->(s:Symbol) DETACH DELETE s"@);
    assert(occurs_at(a, "(f:File {path: $path})-[:DECLARES]->(s:Symbol) DETACH DELETE s"@, 6));
    reveal_strlit("MATCH (s:Symbol {filePath: $path}) DETACH DELETE s");
    reveal_strlit("(s:Symbol {filePath: $path}) DETACH DELETE s");
    assert(b.subrange(6, 50) =~= "(s:Symbol {filePath: $path}) DETACH DELETE s"@);
    assert(occurs_at(b, "(s:Symbol {filePath: $path}) DETACH DELETE s"@, 6));
    reveal_strlit("MATCH (f:File {path: $path}) DETACH DELETE f");
    reveal_strlit("(f:File {path: $path}) DETACH DELETE f");
    assert(c.subrange(6, 44) =~= "(f:File {path: $path}) DETACH DELETE f"@);
    assert(occurs_at(c, "(f:File {path: $path}) DETACH DELETE f"@, 6));
}

/// A reference between projects is merged, with a node for the target where there is
/// none yet.
pub proof fn project_reference_is_merged(from: Seq<char>, to: Seq<char>)
    ensures
        ({
            let all = statements_of(StoreWrite::ReferencesProject(from, to));
            &&& all.len() == 2
            &&& all[0].text == "MERGE (t:Project {id: $t})"@
            &&& all[0].params == seq![ParamView { name: "t"@, value: CypherView::Text(to) }]
            &&& has(all[1].text, "MERGE (a)-[:REFERENCES_PROJECT]->(b)"@)
            &&& has(all[1].text, "(a:Project {id: $a})"@)
            &&& has(all[1].text, "(b:Project {id: $b})"@)
            &&& all[1].params == seq![
                ParamView { name: "a"@, value: CypherView::Text(from) },
                ParamView { name: "b"@, value: CypherView::Text(to) },
            ]
        }),
{
    let all = statements_of(StoreWrite::ReferencesProject(from, to));
    let text = all[1].text;
    reveal_strlit("MATCH (a:Project {id: $a}), (b:Project {id: $b}) MERGE (a)-[:REFERENCES_PROJECT]->(b)");
    reveal_strlit("MERGE (a)-[:REFERENCES_PROJECT]->(b)");
    assert(text.subrange(49, 85) =~= "MERGE (a)-[:REFERENCES_PROJECT]->(b)"@);
    assert(occurs_at(text, "MERGE (a)-[:REFERENCES_PROJECT]->(b)"@, 49));
    reveal_strlit("MATCH (a:Project {id: $a}), (b:Project {id: $b}) MERGE (a)-[:REFERENCES_PROJECT]->(b)");
    reveal_strlit("(a:Project {id: $a})");
    assert(text.subrange(6, 26) =~= "(a:Project {id: $a})"@);
    assert(occurs_at(text, "(a:Project {id: $a})"@, 6));
    reveal_strlit("MATCH (a:Project {id: $a}), (b:Project {id: $b}) MERGE (a)-[:REFERENCES_PROJECT]->(b)");
    reveal_strlit("(b:Project {id: $b})");
    assert(text.subrange(28, 48) =~= "(b:Project {id: $b})"@);
    assert(occurs_at(text, "(b:Project {id: $b})"@, 28));
}

// --- reads ----------------------------------------------------------------------------------------
/// Every joined part stands in the whole.
proof fn joined_has(parts: Seq<Seq<char>>, sep: Seq<char>, i: int)
    requires
        0 <= i < parts.len(),
    ensures
        has(join(parts, sep), parts[i]),
    decreases parts.len(),
{
    let all = join(parts, sep);
    if parts.len() == 1 {
        assert(all.subrange(0, all.len() as int) =~= all);
        assert(occurs_at(all, parts[i], 0));
    } else {
        let rest = parts.drop_last();
        let front = join(rest, sep);
        if i == parts.len() - 1 {
            let k = (front.len() + sep.len()) as int;
            assert(all.subrange(k, k + parts[i].len()) =~= parts[i]);
            assert(occurs_at(all, parts[i], k));
        } else {
            joined_has(rest, sep, i);
            let k = choose|k: int| occurs_at(front, rest[i], k);
            assert(all.subrange(k, k + parts[i].len()) =~= front.subrange(k, k + parts[i].len()));
            assert(occurs_at(all, parts[i], k));
        }
    }
}

proof fn shown_between(a: Seq<char>, p: Seq<char>, b: Seq<char>, x: Seq<char>)
    requires
        has(p, x),
    ensures
        has(a + p + b, x),
{
    let i = choose|i: int| occurs_at(p, x, i);
    let s = a + p + b;
    assert(s.subrange(a.len() + i, a.len() + i + x.len()) =~= p.subrange(i, i + x.len()));
    assert(occurs_at(s, x, a.len() + i));
}

/// A search for symbols asks the database for each filter that is set, with its
/// value, and for no other.
pub proof fn symbol_search_asks_for_its_filters(q: SymbolQueryView)
    ensures
        ({
            let s = symbols_query(q);
            &&& q.name matches Some(n) ==> has(s.text, "contains(lower(s.name), $name)"@) && s.params.contains(
                ParamView { name: "name"@, value: CypherView::Text(lower(n)) },
            )
            &&& q.kind matches Some(k) ==> has(s.text, "s.kind = $kind"@) && s.params.contains(
                ParamView { name: "kind"@, value: CypherView::Text(k.name()) },
            )
            &&& q.language matches Some(l) ==> has(s.text, "s.language = $language"@) && s.params.contains(
                ParamView { name: "language"@, value: CypherView::Text(l.name()) },
            )
            &&& q.file matches Some(f) ==> has(s.text, "s.filePath = $file"@) && s.params.contains(
                ParamView { name: "file"@, value: CypherView::Text(f) },
            )
            &&& s.params.len() == (if q.name is Some {
                1int
            } else {
                0
            }) + (if q.kind is Some {
                1int
            } else {
                0
            }) + (if q.language is Some {
                1int
            } else {
                0
            }) + (if q.file is Some {
                1int
            } else {
                0
            })
        }),
{
    let s = symbols_query(q);
    let c1 = condition(q.name is Some, "contains(lower(s.name), $name)"@);
    let c2 = condition(q.kind is Some, "s.kind = $kind"@);
    let c3 = condition(q.language is Some, "s.language = $language"@);
    let c4 = condition(q.file is Some, "s.filePath = $file"@);
    let cs = c1 + c2 + c3 + c4;
    let a1 = asked_param("name"@, lowered(q.name));
    let a2 = asked_param("kind"@, kind_name(q.kind));
    let a3 = asked_param("language"@, language_name(q.language));
    let a4 = asked_param("file"@, q.file);
    let ps = a1 + a2 + a3 + a4;
    assert(s.params =~= ps);
    let w = where_clause(cs);
    assert(s.text.subrange("MATCH (s:Symbol) "@.len() as int, ("MATCH (s:Symbol) "@.len() + w.len()) as int) =~= w);
    assert(occurs_at(s.text, w, "MATCH (s:Symbol) "@.len() as int));
    if q.name is Some {
        assert(cs[0] == "contains(lower(s.name), $name)"@);
        asked_condition(cs, 0, s.text);
        assert(ps[0] == a1[0]);
    }
    if q.kind is Some {
        let k = c1.len() as int;
        assert(cs[k] == "s.kind = $kind"@);
        asked_condition(cs, k, s.text);
        assert(ps[a1.len() as int] == a2[0]);
    }
    if q.language is Some {
        let k = (c1 + c2).len() as int;
        assert(cs[k] == "s.language = $language"@);
        asked_condition(cs, k, s.text);
        assert(ps[(a1 + a2).len() as int] == a3[0]);
    }
    if q.file is Some {
        let k = (c1 + c2 + c3).len() as int;
        assert(cs[k] == "s.filePath = $file"@);
        asked_condition(cs, k, s.text);
        assert(ps[(a1 + a2 + a3).len() as int] == a4[0]);
    }
}

/// A search for files asks the database for each filter that is set, with its value,
/// and for no other.
pub proof fn file_search_asks_for_its_filters(q: FileQueryView)
    ensures
        ({
            let s = files_query(q);
            &&& q.path_contains matches Some(p) ==> has(s.text, "contains(lower(f.path), $path)"@) && s.params.contains(
                ParamView { name: "path"@, value: CypherView::Text(lower(p)) },
            )
            &&& q.language matches Some(l) ==> has(s.text, "f.language = $language"@) && s.params.contains(
                ParamView { name: "language"@, value: CypherView::Text(l.name()) },
            )
            &&& s.params.len() == (if q.path_contains is Some {
                1int
            } else {
                0
            }) + (if q.language is Some {
                1int
            } else {
                0
            })
        }),
{
    let s = files_query(q);
    let c1 = condition(q.path_contains is Some, "contains(lower(f.path), $path)"@);
    let c2 = condition(q.language is Some, "f.language = $language"@);
    let cs = c1 + c2;
    let a1 = asked_param("path"@, lowered(q.path_contains));
    let a2 = asked_param("language"@, language_name(q.language));
    let ps = a1 + a2;
    assert(s.params =~= ps);
    let w = where_clause(cs);
    assert(s.text.subrange("MATCH (f:File) "@.len() as int, ("MATCH (f:File) "@.len() + w.len()) as int) =~= w);
    assert(occurs_at(s.text, w, "MATCH (f:File) "@.len() as int));
    if q.path_contains is Some {
        assert(cs[0] == "contains(lower(f.path), $path)"@);
        asked_condition(cs, 0, s.text);
        assert(ps[0] == a1[0]);
    }
    if q.language is Some {
        let k = c1.len() as int;
        assert(cs[k] == "f.language = $language"@);
        asked_condition(cs, k, s.text);
        assert(ps[a1.len() as int] == a2[0]);
    }
}

proof fn asked_condition(cs: Seq<Seq<char>>, k: int, text: Seq<char>)
    requires
        0 <= k < cs.len(),
        has(text, where_clause(cs)),
    ensures
        has(text, cs[k]),
{
    joined_has(cs, " AND "@, k);
    let w = where_clause(cs);
    assert(w =~= "WHERE "@ + join(cs, " AND "@) + Seq::<char>::empty());
    shown_between("WHERE "@, join(cs, " AND "@), Seq::empty(), cs[k]);
    let i = choose|i: int| occurs_at(text, w, i);
    let a = text.take(i);
    let b = text.skip(i + w.len());
    assert(text =~= a + w + b) by {
        assert(text.subrange(i, i + w.len()) =~= w);
    }
    shown_between(a, w, b, cs[k]);
}

/// Type relations are asked for by the name in any case of letters, each of the four
/// kinds once, and come back under the reason of their kind.
pub proof fn type_relations_are_asked_for(name: Seq<char>, i: int)
    requires
        0 <= i < 4,
    ensures
        type_queries(name).len() == 4,
        type_reasons().len() == 4,
        type_queries(name)[i].params == seq![ParamView { name: "n"@, value: CypherView::Text(lower(name)) }],
        type_queries(name)[0].text == "MATCH (s:Symbol)-[:INHERITS]->(t:Symbol) WHERE lower(s.name) = $n RETURN DISTINCT t.filePath"@ && type_reasons()[0]
            == "base type (inherits)"@,
        type_queries(name)[1].text == "MATCH (s:Symbol)-[:INHERITS]->(t:Symbol) WHERE lower(t.name) = $n RETURN DISTINCT s.filePath"@ && type_reasons()[1]
            == "subtype (inherits)"@,
        type_queries(name)[2].text == "MATCH (s:Symbol)-[:IMPLEMENTS]->(t:Symbol) WHERE lower(s.name) = $n RETURN DISTINCT t.filePath"@ && type_reasons()[2]
            == "implemented interface/trait"@,
        type_queries(name)[3].text == "MATCH (s:Symbol)-[:IMPLEMENTS]->(t:Symbol) WHERE lower(t.name) = $n RETURN DISTINCT s.filePath"@ && type_reasons()[3]
            == "implementor"@,
{
}

// --- rows -----------------------------------------------------------------------------------------
/// A symbol that was written comes back as it was.
pub proof fn stored_symbols_come_back(s: SymbolView, row: SymbolRow, r: IndexedSymbol)
    requires
        call_ensures(symbol_of_row, (row,), r),
        symbol_params(s) == seq![
            ParamView { name: "id"@, value: CypherView::Text(row.id@) },
            ParamView { name: "name"@, value: CypherView::Text(row.name@) },
            ParamView { name: "full"@, value: CypherView::Text(row.full_name@) },
            ParamView { name: "kind"@, value: CypherView::Text(row.kind@) },
            ParamView { name: "language"@, value: CypherView::Text(row.language@) },
            ParamView { name: "file"@, value: CypherView::Text(row.file_path@) },
            ParamView { name: "startln"@, value: CypherView::Int(row.start_line) },
            ParamView { name: "endln"@, value: CypherView::Int(row.end_line) },
            ParamView { name: "vis"@, value: CypherView::Text(row.visibility@) },
            ParamView { name: "exported"@, value: CypherView::Flag(row.exported) },
        ],
    ensures
        r@ == s,
{
    let p = symbol_params(s);
    assert(p[0].value == CypherView::Text(row.id@));
    assert(p[1].value == CypherView::Text(row.name@));
    assert(p[2].value == CypherView::Text(row.full_name@));
    assert(p[3].value == CypherView::Text(row.kind@));
    assert(p[4].value == CypherView::Text(row.language@));
    assert(p[5].value == CypherView::Text(row.file_path@));
    assert(p[6].value == CypherView::Int(row.start_line));
    assert(p[7].value == CypherView::Int(row.end_line));
    assert(p[8].value == CypherView::Text(row.visibility@));
    assert(p[9].value == CypherView::Flag(row.exported));
    symbol_kind_name_round_trips(s.kind);
    language_name_round_trips(s.language);
}

/// A file that was written comes back as it was.
pub proof fn stored_files_come_back(f: FileView, row: FileRow, r: IndexedFile)
    requires
        call_ensures(file_of_row, (row,), r),
        f.size_bytes <= i64::MAX,
        file_params(f) == seq![
            ParamView { name: "id"@, value: CypherView::Text(row.id@) },
            ParamView { name: "path"@, value: CypherView::Text(row.path@) },
            ParamView { name: "language"@, value: CypherView::Text(row.language@) },
            ParamView { name: "hash"@, value: CypherView::Text(row.hash@) },
            ParamView { name: "size"@, value: CypherView::Int(row.size_bytes) },
            ParamView { name: "tracked"@, value: CypherView::Flag(row.git_tracked) },
            ParamView { name: "ts"@, value: CypherView::Text(row.last_indexed_at@) },
        ],
    ensures
        r@ == f,
{
    let p = file_params(f);
    assert(p[0].value == CypherView::Text(row.id@));
    assert(p[1].value == CypherView::Text(row.path@));
    assert(p[2].value == CypherView::Text(row.language@));
    assert(p[3].value == CypherView::Text(row.hash@));
    assert(p[4].value == CypherView::Int(row.size_bytes));
    assert(p[5].value == CypherView::Flag(row.git_tracked));
    assert(p[6].value == CypherView::Text(row.last_indexed_at@));
    language_name_round_trips(f.language);
}

/// A project that was written comes back as it was.
pub proof fn stored_projects_come_back(p: ProjectView, row: ProjectRow, r: IndexedProject)
    requires
        call_ensures(project_of_row, (row,), r),
        project_params(p) == seq![
            ParamView { name: "id"@, value: CypherView::Text(row.id@) },
            ParamView { name: "name"@, value: CypherView::Text(row.name@) },
            ParamView { name: "path"@, value: CypherView::Text(row.path@) },
            ParamView { name: "language"@, value: CypherView::Text(row.language@) },
            ParamView { name: "kind"@, value: CypherView::Text(row.kind@) },
        ],
    ensures
        r@ == p,
{
    let q = project_params(p);
    assert(q[0].value == CypherView::Text(row.id@));
    assert(q[1].value == CypherView::Text(row.name@));
    assert(q[2].value == CypherView::Text(row.path@));
    assert(q[3].value == CypherView::Text(row.language@));
    assert(q[4].value == CypherView::Text(row.kind@));
    language_name_round_trips(p.language);
}

/// The counts that the database gives are told as they are.
pub proof fn counts_are_told(
    files: usize,
    symbols: usize,
    projects: usize,
    packages: usize,
    project_references: usize,
    package_uses: usize,
    symbol_references: usize,
    r: IndexStats,
)
    requires
        call_ensures(
            stats_of,
            (files, symbols, projects, packages, project_references, package_uses, symbol_references),
            r,
        ),
    ensures
        r.files == files,
        r.symbols == symbols,
        r.projects == projects,
        r.packages == packages,
        r.reference_edges == symbol_references,
        project_references + package_uses <= usize::MAX ==> r.edges == project_references + package_uses,
{
}

/// Every file that declares a symbol is related to it, and every file that refers to
/// it, unless it declares it too.
pub proof fn declaring_files_come_first(items: Seq<RelatedView>, more: Seq<RelatedView>, x: RelatedView)
    ensures
        items.contains(x) ==> with_new_paths(items, more).contains(x),
        more.contains(x) ==> exists|y: RelatedView| #[trigger] with_new_paths(items, more).contains(y) && y.path == x.path,
        with_new_paths(items, more).contains(x) ==> items.contains(x) || more.contains(x),
    decreases more.len(),
{
    if more.len() > 0 {
        let rest = more.drop_last();
        declaring_files_come_first(items, rest, x);
        let before = with_new_paths(items, rest);
        let all = with_new_paths(items, more);
        let z = more.last();
        assert(more[more.len() - 1] == z);
        if before.contains(x) {
            assert(all[before.index_of(x)] == x);
        }
        if rest.contains(x) {
            assert(more[rest.index_of(x)] == x);
            let y = choose|y: RelatedView| #[trigger] before.contains(y) && y.path == x.path;
            assert(all[before.index_of(y)] == y);
            assert(all.contains(y));
        }
        if more.contains(x) && !rest.contains(x) {
            let k = more.index_of(x);
            if k < rest.len() {
                assert(rest[k] == x);
            }
            assert(x == z);
            if crate::graph::cypher::has_path(before, z.path) {
                let i = choose|i: int| 0 <= i < before.len() && (#[trigger] before[i]).path == z.path;
                assert(all.contains(all[i]));
            } else {
                assert(all[all.len() - 1] == z);
                assert(all.contains(z));
            }
        }
        if all.contains(x) && !before.contains(x) {
            let k = all.index_of(x);
            if k < before.len() {
                assert(before[k] == x);
            }
        }
    }
}

/// Every file that the search for references found is told once, by the symbol that it
/// refers to, and no other is.
pub proof fn referring_files_are_told(name: Seq<char>, paths: Seq<Seq<char>>, path: Seq<char>)
    ensures
        paths.contains(path) <==> referring(name, paths).contains(
            RelatedView { path, reason: "references "@ + name, depth: 1 },
        ),
        forall|y: RelatedView| #[trigger]
            referring(name, paths).contains(y) ==> y.reason == "references "@ + name && y.depth == 1,
{
    let reason = "references "@ + name;
    let all = items_at(paths, reason, 1);
    let x = RelatedView { path, reason, depth: 1 };
    assert forall|y: RelatedView| #[trigger] referring(name, paths).contains(y) implies y.reason == reason && y.depth == 1
        && paths.contains(y.path) by {
        one_per_path_is_part(all, y);
        let k = all.index_of(y);
        assert(all[k] == y);
        assert(paths[k] == y.path);
    }
    if paths.contains(path) {
        let k = paths.index_of(path);
        assert(all[k] == x);
        assert(all.contains(x));
        something_at_path(all, x);
        let y = choose|y: RelatedView| #[trigger] one_per_path(all).contains(y) && y.path == x.path;
        assert(referring(name, paths).contains(y));
        assert(y == x);
    }
}

} // verus!
