//! Renders a selected pack as structured JSON: selection, metadata and symbols,
//! plus full file contents (omitted in `--dry-run`). Intended for programmatic
//! callers (agents, scripts).

use crate::config::SynapseConfig;
use crate::errors::SynapseError;
use crate::git::GitInfo;
use crate::graph::model::{IndexedSymbol, SymbolView};
use crate::graph::store::GraphStore;
use crate::indexer::languages::{detect, language_of};
use crate::json::{
    boolean, entry, item, json_view, json_views, json_views_push, list, number, object, object_members, pretty,
    pretty_json, string, string_or_null, string_unless_empty, text_or_null, text_unless_empty, JsonEntry, JsonEntryView, JsonView,
};
use crate::lists::{take_next, take_none, take_whole, views_push};
use crate::pack::request::{PackMode, PackRequest, SelectedFile, SelectedView};
use crate::pack::symbols::{collect_symbols, included_symbols};
use crate::text::{decimal, opt_view, views};
use serde_json::Value;
use vstd::prelude::*;

verus! {

pub open spec fn number_of(n: nat) -> JsonView {
    JsonView::Number(decimal(n))
}

/// What is told of a selected file.
pub open spec fn selected_entries(f: SelectedView) -> Seq<JsonEntryView> {
    seq![
        item("path"@, JsonView::Text(f.path)),
        item("reason"@, JsonView::Text(f.reason)),
        item("tier"@, number_of(f.tier as nat)),
        item("estimatedTokens"@, number_of(f.estimated_tokens as nat)),
        item("included"@, JsonView::Bool(f.included)),
    ]
}

/// A selected file, trimmed or not.
pub open spec fn selected_json(f: SelectedView) -> JsonView {
    JsonView::Object(object_members(selected_entries(f)))
}

/// What is told of a symbol.
pub open spec fn symbol_entries(s: SymbolView) -> Seq<JsonEntryView> {
    seq![
        item("name"@, JsonView::Text(s.name)),
        item("fullName"@, JsonView::Text(s.full_name)),
        item("kind"@, JsonView::Text(s.kind.name())),
        item("language"@, JsonView::Text(s.language.name())),
        item("file"@, JsonView::Text(s.file_path)),
        item("startLine"@, number_of(s.start_line as nat)),
        item("endLine"@, number_of(s.end_line as nat)),
        item("exported"@, JsonView::Bool(s.exported)),
    ]
}

pub open spec fn symbol_json(s: SymbolView) -> JsonView {
    JsonView::Object(object_members(symbol_entries(s)))
}

/// What is told of an included file.
pub open spec fn file_entries(f: SelectedView, contents: Seq<char>) -> Seq<JsonEntryView> {
    seq![
        item("path"@, JsonView::Text(f.path)),
        item("reason"@, JsonView::Text(f.reason)),
        item("language"@, JsonView::Text(language_of(f.path).name())),
        item("contents"@, JsonView::Text(contents)),
    ]
}

pub open spec fn file_json(f: SelectedView, contents: Seq<char>) -> JsonView {
    JsonView::Object(object_members(file_entries(f, contents)))
}

/// The included files with their contents, in order.
pub open spec fn files_json(sel: Seq<SelectedView>, contents: Seq<Seq<char>>) -> Seq<JsonView>
    decreases sel.len(),
{
    if sel.len() == 0 {
        Seq::empty()
    } else {
        let rest = files_json(sel.drop_last(), contents);
        if sel.last().included {
            rest.push(file_json(sel.last(), contents[sel.len() - 1]))
        } else {
            rest
        }
    }
}

/// What is told of the request.
pub open spec fn request_entries(req: PackRequest) -> Seq<JsonEntryView> {
    seq![
        item("mode"@, JsonView::Text(req.mode.label_text())),
        item("query"@, JsonView::Text(req.mode.asked())),
        item("budget"@, number_of(req.budget as nat)),
        item("dryRun"@, JsonView::Bool(req.dry_run)),
    ]
}

/// What a pack says of the request.
pub open spec fn request_json(req: PackRequest) -> JsonView {
    JsonView::Object(object_members(request_entries(req)))
}

/// What is told of the repository.
pub open spec fn repository_entries(name: Seq<char>, git: GitInfo, req: PackRequest) -> Seq<JsonEntryView> {
    seq![
        item("name"@, text_unless_empty(name)),
        item("branch"@, text_or_null(opt_view(git.branch))),
        item("commit"@, text_or_null(opt_view(git.commit))),
        item("changedFilesIncluded"@, JsonView::Bool(req.mode is Changed)),
        item("graphBackend"@, JsonView::Text("LadybugDB"@)),
    ]
}

/// What a pack says of the repository.
pub open spec fn repository_json(name: Seq<char>, git: GitInfo, req: PackRequest) -> JsonView {
    JsonView::Object(object_members(repository_entries(name, git, req)))
}

/// What a JSON pack tells.
pub open spec fn pack_entries(
    name: Seq<char>,
    git: GitInfo,
    req: PackRequest,
    sel: Seq<SelectedView>,
    symbols: Seq<SymbolView>,
    contents: Seq<Seq<char>>,
    diff: Option<Seq<char>>,
) -> Seq<JsonEntryView> {
    let files = if req.dry_run {
        Seq::empty()
    } else {
        files_json(sel, contents)
    };
    let body = seq![
        item("tool"@, JsonView::Text("synapse"@)),
        item("request"@, request_json(req)),
        item("repository"@, repository_json(name, git, req)),
        item("selection"@, JsonView::List(sel.map_values(|f: SelectedView| selected_json(f)))),
        item("symbols"@, JsonView::List(symbols.map_values(|s: SymbolView| symbol_json(s)))),
        item("files"@, JsonView::List(files)),
    ];
    if req.include_diff && diff is Some {
        body.push(item("diff"@, JsonView::Text(diff->0)))
    } else {
        body
    }
}

/// The document of a pack. The diff comes last, where it is asked for and there
/// is one.
pub open spec fn pack_document(
    name: Seq<char>,
    git: GitInfo,
    req: PackRequest,
    sel: Seq<SelectedView>,
    symbols: Seq<SymbolView>,
    contents: Seq<Seq<char>>,
    diff: Option<Seq<char>>,
) -> JsonView {
    JsonView::Object(object_members(pack_entries(name, git, req, sel, symbols, contents, diff)))
}

fn selected_value(f: &SelectedFile) -> (r: Value)
    ensures
        json_view(r) == selected_json(f@),
{
    let mut e: Vec<JsonEntry> = Vec::new();
    e.push(entry("path", string(f.path.as_str())));
    e.push(entry("reason", string(f.reason.as_str())));
    e.push(entry("tier", number(f.tier as u64)));
    e.push(entry("estimatedTokens", number(f.estimated_tokens as u64)));
    e.push(entry("included", boolean(f.included)));
    assert(views(e@) =~= seq![
        item("path"@, JsonView::Text(f@.path)),
        item("reason"@, JsonView::Text(f@.reason)),
        item("tier"@, number_of(f@.tier as nat)),
        item("estimatedTokens"@, number_of(f@.estimated_tokens as nat)),
        item("included"@, JsonView::Bool(f@.included)),
    ]);
    object(e)
}

fn symbol_value(s: &IndexedSymbol) -> (r: Value)
    ensures
        json_view(r) == symbol_json(s@),
{
    let mut e: Vec<JsonEntry> = Vec::new();
    e.push(entry("name", string(s.name.as_str())));
    e.push(entry("fullName", string(s.full_name.as_str())));
    e.push(entry("kind", string(s.kind.as_str())));
    e.push(entry("language", string(s.language.as_str())));
    e.push(entry("file", string(s.file_path.as_str())));
    e.push(entry("startLine", number(s.start_line as u64)));
    e.push(entry("endLine", number(s.end_line as u64)));
    e.push(entry("exported", boolean(s.exported)));
    assert(views(e@) =~= seq![
        item("name"@, JsonView::Text(s@.name)),
        item("fullName"@, JsonView::Text(s@.full_name)),
        item("kind"@, JsonView::Text(s@.kind.name())),
        item("language"@, JsonView::Text(s@.language.name())),
        item("file"@, JsonView::Text(s@.file_path)),
        item("startLine"@, number_of(s@.start_line as nat)),
        item("endLine"@, number_of(s@.end_line as nat)),
        item("exported"@, JsonView::Bool(s@.exported)),
    ]);
    object(e)
}

fn file_value(f: &SelectedFile, contents: &str) -> (r: Value)
    ensures
        json_view(r) == file_json(f@, contents@),
{
    let mut e: Vec<JsonEntry> = Vec::new();
    e.push(entry("path", string(f.path.as_str())));
    e.push(entry("reason", string(f.reason.as_str())));
    e.push(entry("language", string(detect(f.path.as_str()).as_str())));
    e.push(entry("contents", string(contents)));
    assert(views(e@) =~= seq![
        item("path"@, JsonView::Text(f@.path)),
        item("reason"@, JsonView::Text(f@.reason)),
        item("language"@, JsonView::Text(language_of(f@.path).name())),
        item("contents"@, JsonView::Text(contents@)),
    ]);
    object(e)
}

fn selection_values(sel: &Vec<SelectedFile>) -> (r: Vec<Value>)
    ensures
        json_views(r@) == views(sel@).map_values(|f: SelectedView| selected_json(f)),
{
    let ghost target = views(sel@).map_values(|f: SelectedView| selected_json(f));
    let mut out: Vec<Value> = Vec::new();
    let mut i: usize = 0;
    assert(json_views(out@) =~= target.take(0));
    while i < sel.len()
        invariant
            i <= sel@.len(),
            target == views(sel@).map_values(|f: SelectedView| selected_json(f)),
            json_views(out@) == target.take(i as int),
        decreases sel@.len() - i,
    {
        let v = selected_value(&sel[i]);
        proof {
            take_next(target, i as int);
            assert(views(sel@)[i as int] == sel@[i as int]@);
            json_views_push(out@, v);
        }
        out.push(v);
        i += 1;
    }
    proof {
        take_whole(target);
    }
    out
}

fn symbol_values(symbols: &Vec<IndexedSymbol>) -> (r: Vec<Value>)
    ensures
        json_views(r@) == views(symbols@).map_values(|s: SymbolView| symbol_json(s)),
{
    let ghost target = views(symbols@).map_values(|s: SymbolView| symbol_json(s));
    let mut out: Vec<Value> = Vec::new();
    let mut i: usize = 0;
    assert(json_views(out@) =~= target.take(0));
    while i < symbols.len()
        invariant
            i <= symbols@.len(),
            target == views(symbols@).map_values(|s: SymbolView| symbol_json(s)),
            json_views(out@) == target.take(i as int),
        decreases symbols@.len() - i,
    {
        let v = symbol_value(&symbols[i]);
        proof {
            take_next(target, i as int);
            assert(views(symbols@)[i as int] == symbols@[i as int]@);
            json_views_push(out@, v);
        }
        out.push(v);
        i += 1;
    }
    proof {
        take_whole(target);
    }
    out
}

fn file_values(sel: &Vec<SelectedFile>, contents: &Vec<String>) -> (r: Vec<Value>)
    requires
        contents@.len() == sel@.len(),
    ensures
        json_views(r@) == files_json(views(sel@), views(contents@)),
{
    let ghost all = views(sel@);
    let ghost texts = views(contents@);
    let mut out: Vec<Value> = Vec::new();
    let mut i: usize = 0;
    proof {
        take_none(all);
        assert(json_views(out@) =~= Seq::<JsonView>::empty());
    }
    while i < sel.len()
        invariant
            i <= sel@.len(),
            contents@.len() == sel@.len(),
            all == views(sel@),
            texts == views(contents@),
            json_views(out@) == files_json(all.take(i as int), texts),
        decreases sel@.len() - i,
    {
        proof {
            take_next(all, i as int);
            assert(all[i as int] == sel@[i as int]@);
            assert(texts[i as int] == contents@[i as int]@);
        }
        if sel[i].included {
            let v = file_value(&sel[i], contents[i].as_str());
            proof {
                json_views_push(out@, v);
            }
            out.push(v);
        }
        i += 1;
    }
    proof {
        take_whole(all);
    }
    out
}

/// The JSON pack, from the selection and the symbols of its files. `contents`
/// holds the text of each selected file, `diff` the working-tree diff.
pub fn render_document(
    name: &str,
    git: &GitInfo,
    req: &PackRequest,
    sel: &Vec<SelectedFile>,
    symbols: &Vec<IndexedSymbol>,
    contents: &Vec<String>,
    diff: &Option<String>,
) -> (r: String)
    requires
        contents@.len() == sel@.len(),
    ensures
        r@ == pretty_json(
            pack_document(name@, *git, *req, views(sel@), views(symbols@), views(contents@), opt_view(*diff)),
        ),
{
    let is_changed = match req.mode {
        PackMode::Changed => true,
        _ => false,
    };
    let mut q: Vec<JsonEntry> = Vec::new();
    q.push(entry("mode", string(req.mode.label())));
    let asked = req.mode.query_text();
    q.push(entry("query", string(asked.as_str())));
    q.push(entry("budget", number(req.budget as u64)));
    q.push(entry("dryRun", boolean(req.dry_run)));
    assert(views(q@) =~= seq![
        item("mode"@, JsonView::Text(req.mode.label_text())),
        item("query"@, JsonView::Text(req.mode.asked())),
        item("budget"@, number_of(req.budget as nat)),
        item("dryRun"@, JsonView::Bool(req.dry_run)),
    ]);
    let mut p: Vec<JsonEntry> = Vec::new();
    p.push(entry("name", string_unless_empty(name)));
    p.push(entry("branch", string_or_null(&git.branch)));
    p.push(entry("commit", string_or_null(&git.commit)));
    p.push(entry("changedFilesIncluded", boolean(is_changed)));
    p.push(entry("graphBackend", string("LadybugDB")));
    assert(views(p@) =~= seq![
        item("name"@, text_unless_empty(name@)),
        item("branch"@, text_or_null(opt_view(git.branch))),
        item("commit"@, text_or_null(opt_view(git.commit))),
        item("changedFilesIncluded"@, JsonView::Bool(req.mode is Changed)),
        item("graphBackend"@, JsonView::Text("LadybugDB"@)),
    ]);
    let files: Vec<Value> = if req.dry_run {
        Vec::new()
    } else {
        file_values(sel, contents)
    };
    let ghost file_list = if req.dry_run {
        Seq::empty()
    } else {
        files_json(views(sel@), views(contents@))
    };
    assert(json_views(files@) =~= file_list);
    let mut e: Vec<JsonEntry> = Vec::new();
    e.push(entry("tool", string("synapse")));
    e.push(entry("request", object(q)));
    e.push(entry("repository", object(p)));
    e.push(entry("selection", list(selection_values(sel))));
    e.push(entry("symbols", list(symbol_values(symbols))));
    e.push(entry("files", list(files)));
    let ghost body = seq![
        item("tool"@, JsonView::Text("synapse"@)),
        item("request"@, request_json(*req)),
        item("repository"@, repository_json(name@, *git, *req)),
        item("selection"@, JsonView::List(views(sel@).map_values(|f: SelectedView| selected_json(f)))),
        item("symbols"@, JsonView::List(views(symbols@).map_values(|s: SymbolView| symbol_json(s)))),
        item("files"@, JsonView::List(file_list)),
    ];
    assert(views(e@) =~= body);
    if req.include_diff {
        match diff {
            Some(d) => {
                let last = entry("diff", string(d.as_str()));
                proof {
                    views_push(e@, last);
                }
                e.push(last);
            },
            None => {},
        }
    }
    pretty(&object(e))
}

/// Render the selected files (and supporting metadata) as a JSON context pack.
/// Deterministic across runs for identical inputs.
pub fn render<S: GraphStore>(
    store: &S,
    config: &SynapseConfig,
    git: &GitInfo,
    req: &PackRequest,
    sel: &Vec<SelectedFile>,
    contents: &Vec<String>,
    diff: &Option<String>,
) -> (r: Result<String, SynapseError>)
    requires
        store.valid(),
        contents@.len() == sel@.len(),
    ensures
        S::infallible() ==> r is Ok,
        r matches Ok(s) ==> s@ == pretty_json(
            pack_document(
                config.repo.name@,
                *git,
                *req,
                views(sel@),
                included_symbols::<S>(store.history(), views(sel@)),
                views(contents@),
                opt_view(*diff),
            ),
        ),
{
    match collect_symbols(store, sel) {
        Ok(symbols) => Ok(render_document(config.repo.name.as_str(), git, req, sel, &symbols, contents, diff)),
        Err(e) => Err(e),
    }
}

} // verus!
