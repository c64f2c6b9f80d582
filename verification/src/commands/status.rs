//! What `status` finds out and shows.

use crate::commands::numbers::{fmt_num, shown_number};
use crate::config::SynapseConfig;
use crate::explore::graph_directory;
use crate::git::GitInfo;
use crate::graph::model::{FileView, IndexStats, IndexedFile};
use crate::hashing::{blake3_hex, content_hash};
use crate::json::{
    boolean, entry, item, json_text_member, json_view, json_views, list, null, number, object, object_members,
    parse_json, parsed_json, pretty, pretty_json, string, string_or_null, string_unless_empty, text_member,
    text_or_null, text_unless_empty, JsonEntry, JsonEntryView, JsonView,
};
use crate::lists::{
    find_first, first, keep, sort_texts, take_next, take_none, take_whole, text_order, views_push,
};
use crate::paths::{join_path, joined};
use crate::sorting::stable_sort;
use crate::text::{among, before, cat, cat3, decimal, opt_view, same, starts_with, text_lt, views};
use serde_json::Value;
use vstd::prelude::*;
use vstd::string::StringExecFns;

verus! {

// --- what is stale -----------------------------------------------------------------------------
/// The candidate's content is not what the graph knows (`bytes`: its content,
/// where it could be read).
pub open spec fn stale(indexed: Seq<FileView>, rel: Seq<char>, bytes: Option<Seq<u8>>) -> bool {
    match first(indexed, |f: FileView| f.path == rel) {
        Some(prev) => bytes matches Some(b) && blake3_hex(b) != prev.hash,
        None => true,
    }
}

/// Whether a candidate's content is not what the graph knows.
pub fn is_stale(indexed: &Vec<IndexedFile>, rel: &str, bytes: &Option<Vec<u8>>) -> (r: bool)
    ensures
        r == stale(
            views(indexed@),
            rel@,
            match *bytes {
                Some(b) => Some(b@),
                None => None,
            },
        ),
{
    let is_it = |f: &IndexedFile| -> (r: bool)
        ensures
            r == (f@.path == rel@),
        {
            same(f.path.as_str(), rel)
        };
    match find_first(indexed, is_it, Ghost(|f: FileView| f.path == rel@)) {
        Some(prev) => match bytes {
            Some(b) => {
                let h = content_hash(b);
                !same(h.as_str(), prev.hash.as_str())
            },
            None => false,
        },
        None => true,
    }
}

/// Candidates that are stale, and candidates that git does not know.
pub struct Scan {
    pub stale: Vec<String>,
    pub untracked: Vec<String>,
}

/// The candidates up to `n` that are stale.
pub open spec fn stale_among(
    indexed: Seq<FileView>,
    candidates: Seq<Seq<char>>,
    contents: Seq<Option<Vec<u8>>>,
    n: nat,
) -> Seq<Seq<char>>
    decreases n,
{
    if n == 0 {
        Seq::empty()
    } else {
        let i = n - 1;
        let rest = stale_among(indexed, candidates, contents, i as nat);
        let bytes = match contents[i] {
            Some(b) => Some(b@),
            None => None,
        };
        if stale(indexed, candidates[i], bytes) {
            rest.push(candidates[i])
        } else {
            rest
        }
    }
}

/// Which candidates are stale and which are not tracked by git, each sorted.
pub fn scan(
    candidates: &Vec<String>,
    contents: &Vec<Option<Vec<u8>>>,
    indexed: &Vec<IndexedFile>,
    in_git: &Vec<String>,
) -> (r: Scan)
    requires
        contents@.len() == candidates@.len(),
    ensures
        views(r.stale@) == stable_sort(
            stale_among(views(indexed@), views(candidates@), contents@, candidates@.len()),
            text_order(),
        ),
        views(r.untracked@) == stable_sort(
            keep(views(candidates@), |p: Seq<char>| !views(in_git@).contains(p)),
            text_order(),
        ),
{
    let ghost all = views(candidates@);
    let ghost known = views(indexed@);
    let ghost other = |p: Seq<char>| !views(in_git@).contains(p);
    let mut old: Vec<String> = Vec::new();
    let mut foreign: Vec<String> = Vec::new();
    let mut i: usize = 0;
    proof {
        take_none(all);
        assert(views(old@) =~= Seq::<Seq<char>>::empty());
        assert(views(foreign@) =~= Seq::<Seq<char>>::empty());
    }
    while i < candidates.len()
        invariant
            i <= candidates@.len(),
            contents@.len() == candidates@.len(),
            all == views(candidates@),
            known == views(indexed@),
            other == (|p: Seq<char>| !views(in_git@).contains(p)),
            views(old@) == stale_among(known, all, contents@, i as nat),
            views(foreign@) == keep(all.take(i as int), other),
        decreases candidates@.len() - i,
    {
        proof {
            take_next(all, i as int);
            assert(all[i as int] == candidates@[i as int]@);
        }
        if !among(in_git, candidates[i].as_str()) {
            let c = candidates[i].clone();
            proof {
                views_push(foreign@, c);
            }
            foreign.push(c);
        }
        if is_stale(indexed, candidates[i].as_str(), &contents[i]) {
            let c = candidates[i].clone();
            proof {
                views_push(old@, c);
            }
            old.push(c);
        }
        i += 1;
    }
    proof {
        take_whole(all);
    }
    Scan { stale: sort_texts(old), untracked: sort_texts(foreign) }
}

/// The latest time at which a file was indexed; empty without any file.
pub open spec fn latest(files: Seq<FileView>) -> Seq<char>
    decreases files.len(),
{
    if files.len() == 0 {
        ""@
    } else {
        let best = latest(files.drop_last());
        if text_lt(best, files.last().last_indexed_at) {
            files.last().last_indexed_at
        } else {
            best
        }
    }
}

/// The latest time at which a file was indexed; empty without any file.
pub fn last_index(files: &Vec<IndexedFile>) -> (r: String)
    ensures
        r@ == latest(views(files@)),
{
    let ghost all = views(files@);
    let mut best = "".to_owned();
    let mut i: usize = 0;
    proof {
        take_none(all);
    }
    while i < files.len()
        invariant
            i <= files@.len(),
            all == views(files@),
            best@ == latest(all.take(i as int)),
        decreases files@.len() - i,
    {
        proof {
            take_next(all, i as int);
            assert(all[i as int] == files@[i as int]@);
        }
        if before(best.as_str(), files[i].last_indexed_at.as_str()) {
            best = files[i].last_indexed_at.clone();
        }
        i += 1;
    }
    proof {
        take_whole(all);
    }
    best
}

/// No file was indexed later than the latest time.
pub proof fn latest_is_latest(files: Seq<FileView>)
    ensures
        forall|i: int| 0 <= i < files.len() ==> !text_lt(latest(files), (#[trigger] files[i]).last_indexed_at),
        files.len() > 0 && latest(files) != ""@ ==> exists|i: int|
            0 <= i < files.len() && (#[trigger] files[i]).last_indexed_at == latest(files),
    decreases files.len(),
{
    if files.len() > 0 {
        let rest = files.drop_last();
        latest_is_latest(rest);
        let l = latest(files);
        let x = files.last().last_indexed_at;
        assert(files[files.len() - 1] == files.last());
        assert forall|i: int| 0 <= i < files.len() implies !text_lt(l, (#[trigger] files[i]).last_indexed_at) by {
            if i < rest.len() {
                assert(rest[i] == files[i]);
                if text_lt(latest(rest), x) && text_lt(x, files[i].last_indexed_at) {
                    crate::text::text_lt_transitive(latest(rest), x, files[i].last_indexed_at);
                }
            } else {
                crate::text::text_lt_irreflexive(x);
            }
        }
        if l == latest(rest) && l != x && l != ""@ && rest.len() > 0 {
            let i = choose|i: int| 0 <= i < rest.len() && (#[trigger] rest[i]).last_indexed_at == latest(rest);
            assert(files[i].last_indexed_at == l);
        }
    }
}

// --- where the graph came from -------------------------------------------------------------------
/// File name of the provenance sidecar within the graph directory.
pub const ORIGIN_FILE: &'static str = "origin.json";

/// Path to the graph provenance sidecar written by a pull.
pub fn graph_origin_path(root: &str, graph_path: &str) -> (r: String)
    ensures
        r@ == join_path(graph_directory(root@, graph_path@), ORIGIN_FILE@),
{
    let dir = joined(root, graph_path);
    joined(dir.as_str(), ORIGIN_FILE)
}

/// The provenance sidecar, where it is there and JSON.
pub fn read_origin(text: &Option<String>) -> (r: Option<Value>)
    ensures
        (match r {
            Some(v) => Some(json_view(v)),
            None => None,
        }) == (match *text {
            Some(s) => parsed_json(s@),
            None => None,
        }),
{
    match text {
        Some(s) => parse_json(s.as_str()),
        None => None,
    }
}

/// The commit that the graph was pulled at.
pub open spec fn origin_commit_of(origin: Option<JsonView>) -> Option<Seq<char>> {
    match origin {
        Some(o) => json_text_member(o, "commit"@),
        None => None,
    }
}

/// Whether a pulled graph is stale: neither commit starts with the other.
pub open spec fn origin_stale_of(graph: Option<Seq<char>>, head: Option<Seq<char>>) -> Option<bool> {
    match (graph, head) {
        (Some(g), Some(h)) => Some(!h.is_prefix_of(g) && !g.is_prefix_of(h)),
        _ => None,
    }
}

/// What an optional value says.
pub open spec fn origin_view(o: Option<Value>) -> Option<JsonView> {
    match o {
        Some(v) => Some(json_view(v)),
        None => None,
    }
}

/// The commit that the graph was pulled at.
pub fn origin_commit(origin: &Option<Value>) -> (r: Option<String>)
    ensures
        opt_view(r) == origin_commit_of(origin_view(*origin)),
{
    match origin {
        Some(o) => text_member(o, "commit"),
        None => None,
    }
}

/// Whether a pulled graph is stale against local HEAD.
pub fn origin_stale(graph: &Option<String>, head: &Option<String>) -> (r: Option<bool>)
    ensures
        r == origin_stale_of(opt_view(*graph), opt_view(*head)),
{
    match graph {
        Some(g) => match head {
            Some(h) => Some(!starts_with(g.as_str(), h.as_str()) && !starts_with(h.as_str(), g.as_str())),
            None => None,
        },
        None => None,
    }
}

// --- the report ------------------------------------------------------------------------------------
/// What `status` reports.
pub struct Report {
    pub repo_name: String,
    pub backend: String,
    pub graph_path: String,
    pub stats: IndexStats,
    pub ready: bool,
    pub stale: usize,
    pub untracked: usize,
    pub branch: Option<String>,
    pub commit: Option<String>,
    pub last_index: String,
    /// Whether a pulled graph is stale, where that can be told.
    pub origin_stale: Option<bool>,
}

/// Put the report together: an index is ready once it holds a file, and the
/// origin is told from the provenance sidecar.
pub fn report(
    config: &SynapseConfig,
    stats: IndexStats,
    indexed: &Vec<IndexedFile>,
    found: &Scan,
    git: GitInfo,
    origin: &Option<Value>,
    head: &Option<String>,
) -> (r: Report)
    ensures
        r.repo_name@ == config.repo.name@,
        r.backend@ == config.graph.backend@,
        r.graph_path@ == config.graph.path@,
        r.stats == stats,
        r.ready == (indexed@.len() > 0),
        r.stale == found.stale@.len(),
        r.untracked == found.untracked@.len(),
        r.branch == git.branch,
        r.commit == git.commit,
        r.last_index@ == latest(views(indexed@)),
        r.origin_stale == origin_stale_of(origin_commit_of(origin_view(*origin)), opt_view(*head)),
{
    let graph_commit = origin_commit(origin);
    Report {
        repo_name: config.repo.name.clone(),
        backend: config.graph.backend.clone(),
        graph_path: config.graph.path.clone(),
        stats,
        ready: indexed.len() > 0,
        stale: found.stale.len(),
        untracked: found.untracked.len(),
        branch: git.branch,
        commit: git.commit,
        last_index: last_index(indexed),
        origin_stale: origin_stale(&graph_commit, head),
    }
}

pub open spec fn ready_text(ready: bool) -> Seq<char> {
    if ready {
        "ready"@
    } else {
        "empty"@
    }
}

/// What the status tells.
pub open spec fn status_entries(r: Report, origin: Option<JsonView>) -> Seq<JsonEntryView> {
    seq![
        item("repo"@, text_unless_empty(r.repo_name@)),
        item("index"@, JsonView::Text(ready_text(r.ready))),
        item("graphBackend"@, JsonView::Text(r.backend@)),
        item("graphPath"@, JsonView::Text(r.graph_path@)),
        item("filesIndexed"@, JsonView::Number(decimal(r.stats.files as nat))),
        item("symbolsIndexed"@, JsonView::Number(decimal(r.stats.symbols as nat))),
        item("projects"@, JsonView::Number(decimal(r.stats.projects as nat))),
        item("packages"@, JsonView::Number(decimal(r.stats.packages as nat))),
        item("referenceEdges"@, JsonView::Number(decimal(r.stats.reference_edges as nat))),
        item(
            "referenceLanguages"@,
            JsonView::List(
                seq![
                    JsonView::Text("csharp"@),
                    JsonView::Text("rust"@),
                    JsonView::Text("typescript"@),
                    JsonView::Text("javascript"@),
                ],
            ),
        ),
        item("staleFiles"@, JsonView::Number(decimal(r.stale as nat))),
        item("untrackedFiles"@, JsonView::Number(decimal(r.untracked as nat))),
        item("branch"@, text_or_null(opt_view(r.branch))),
        item("commit"@, text_or_null(opt_view(r.commit))),
        item("lastIndex"@, JsonView::Text(r.last_index@)),
        item(
            "origin"@,
            match origin {
                Some(o) => o,
                None => JsonView::Null,
            },
        ),
        item(
            "originStale"@,
            match r.origin_stale {
                Some(b) => JsonView::Bool(b),
                None => JsonView::Null,
            },
        ),
    ]
}

/// The report as JSON.
pub open spec fn status_document(r: Report, origin: Option<JsonView>) -> JsonView {
    JsonView::Object(object_members(status_entries(r, origin)))
}

/// The report as machine-readable JSON. The languages for which usage edges are
/// extracted are surfaced so partial coverage is visible rather than silent.
pub fn status_json(r: &Report, origin: Option<Value>) -> (s: String)
    ensures
        s@ == pretty_json(status_document(*r, origin_view(origin))),
{
    let ghost o = origin_view(origin);
    let mut langs: Vec<Value> = Vec::new();
    langs.push(string("csharp"));
    langs.push(string("rust"));
    langs.push(string("typescript"));
    langs.push(string("javascript"));
    assert(json_views(langs@) =~= seq![
        JsonView::Text("csharp"@),
        JsonView::Text("rust"@),
        JsonView::Text("typescript"@),
        JsonView::Text("javascript"@),
    ]);
    let origin_value = match origin {
        Some(v) => v,
        None => null(),
    };
    let stale_value = match r.origin_stale {
        Some(b) => boolean(b),
        None => null(),
    };
    let index = if r.ready {
        "ready"
    } else {
        "empty"
    };
    let mut e: Vec<JsonEntry> = Vec::new();
    e.push(entry("repo", string_unless_empty(r.repo_name.as_str())));
    e.push(entry("index", string(index)));
    e.push(entry("graphBackend", string(r.backend.as_str())));
    e.push(entry("graphPath", string(r.graph_path.as_str())));
    e.push(entry("filesIndexed", number(r.stats.files as u64)));
    e.push(entry("symbolsIndexed", number(r.stats.symbols as u64)));
    e.push(entry("projects", number(r.stats.projects as u64)));
    e.push(entry("packages", number(r.stats.packages as u64)));
    e.push(entry("referenceEdges", number(r.stats.reference_edges as u64)));
    e.push(entry("referenceLanguages", list(langs)));
    e.push(entry("staleFiles", number(r.stale as u64)));
    e.push(entry("untrackedFiles", number(r.untracked as u64)));
    e.push(entry("branch", string_or_null(&r.branch)));
    e.push(entry("commit", string_or_null(&r.commit)));
    e.push(entry("lastIndex", string(r.last_index.as_str())));
    e.push(entry("origin", origin_value));
    e.push(entry("originStale", stale_value));
    proof {
        let d = status_document(*r, o);
        assert(d == JsonView::Object(object_members(views(e@)))) by {
            assert(views(e@) =~= seq![
                item("repo"@, text_unless_empty(r.repo_name@)),
                item("index"@, JsonView::Text(ready_text(r.ready))),
                item("graphBackend"@, JsonView::Text(r.backend@)),
                item("graphPath"@, JsonView::Text(r.graph_path@)),
                item("filesIndexed"@, JsonView::Number(decimal(r.stats.files as nat))),
                item("symbolsIndexed"@, JsonView::Number(decimal(r.stats.symbols as nat))),
                item("projects"@, JsonView::Number(decimal(r.stats.projects as nat))),
                item("packages"@, JsonView::Number(decimal(r.stats.packages as nat))),
                item("referenceEdges"@, JsonView::Number(decimal(r.stats.reference_edges as nat))),
                item(
                    "referenceLanguages"@,
                    JsonView::List(
                        seq![
                            JsonView::Text("csharp"@),
                            JsonView::Text("rust"@),
                            JsonView::Text("typescript"@),
                            JsonView::Text("javascript"@),
                        ],
                    ),
                ),
                item("staleFiles"@, JsonView::Number(decimal(r.stale as nat))),
                item("untrackedFiles"@, JsonView::Number(decimal(r.untracked as nat))),
                item("branch"@, text_or_null(opt_view(r.branch))),
                item("commit"@, text_or_null(opt_view(r.commit))),
                item("lastIndex"@, JsonView::Text(r.last_index@)),
                item(
                    "origin"@,
                    match o {
                        Some(x) => x,
                        None => JsonView::Null,
                    },
                ),
                item(
                    "originStale"@,
                    match r.origin_stale {
                        Some(b) => JsonView::Bool(b),
                        None => JsonView::Null,
                    },
                ),
            ]);
        }
    }
    pretty(&object(e))
}

/// The text of a member of the origin, or a question mark.
pub open spec fn origin_text(o: JsonView, key: Seq<char>) -> Seq<char> {
    match json_text_member(o, key) {
        Some(s) => s,
        None => "?"@,
    }
}

/// The line on where a pulled graph came from.
pub open spec fn origin_line_of(o: JsonView) -> Seq<char> {
    "Origin: "@ + origin_text(o, "registry"@) + "/"@ + origin_text(o, "repository"@) + ":"@ + origin_text(o, "tag"@)
        + " (commit "@ + origin_text(o, "commit"@) + ")"@
}

/// The report, line by line.
pub open spec fn status_lines_of(r: Report, origin: Option<JsonView>) -> Seq<Seq<char>> {
    let name = if r.repo_name@.len() == 0 {
        "(unnamed)"@
    } else {
        r.repo_name@
    };
    let body = seq![
        "Repo: "@ + name,
        "Index: "@ + ready_text(r.ready),
        "Graph backend: "@ + r.backend@,
        "Graph path: "@ + r.graph_path@,
        "Files indexed: "@ + shown_number(r.stats.files as nat),
        "Symbols indexed: "@ + shown_number(r.stats.symbols as nat),
        "Reference edges: "@ + shown_number(r.stats.reference_edges as nat),
        "Stale files: "@ + shown_number(r.stale as nat),
        "Untracked files: "@ + shown_number(r.untracked as nat),
    ];
    let last = if r.last_index@.len() > 0 {
        seq!["Last index: "@ + r.last_index@]
    } else {
        Seq::empty()
    };
    let from = match origin {
        Some(o) => seq![origin_line_of(o)],
        None => Seq::empty(),
    };
    body + last + from
}

fn member_or_mark(o: &Value, key: &str) -> (r: String)
    ensures
        r@ == origin_text(json_view(*o), key@),
{
    match text_member(o, key) {
        Some(s) => s,
        None => "?".to_owned(),
    }
}

fn origin_line(o: &Value) -> (r: String)
    ensures
        r@ == origin_line_of(json_view(*o)),
{
    let registry = member_or_mark(o, "registry");
    let repository = member_or_mark(o, "repository");
    let tag = member_or_mark(o, "tag");
    let commit = member_or_mark(o, "commit");
    let mut s = cat("Origin: ", registry.as_str());
    s.append("/");
    s.append(repository.as_str());
    s.append(":");
    s.append(tag.as_str());
    s.append(" (commit ");
    s.append(commit.as_str());
    s.append(")");
    s
}

fn number_line(head: &str, n: usize) -> (r: String)
    ensures
        r@ == head@ + shown_number(n as nat),
{
    let d = fmt_num(n);
    cat(head, d.as_str())
}

/// The report, line by line.
pub fn status_lines(r: &Report, origin: &Option<Value>) -> (out: Vec<String>)
    ensures
        views(out@) == status_lines_of(*r, origin_view(*origin)),
{
    let name = if r.repo_name.as_str().is_empty() {
        "(unnamed)"
    } else {
        r.repo_name.as_str()
    };
    let index = if r.ready {
        "ready"
    } else {
        "empty"
    };
    let mut out: Vec<String> = Vec::new();
    out.push(cat("Repo: ", name));
    out.push(cat("Index: ", index));
    out.push(cat("Graph backend: ", r.backend.as_str()));
    out.push(cat("Graph path: ", r.graph_path.as_str()));
    out.push(number_line("Files indexed: ", r.stats.files));
    out.push(number_line("Symbols indexed: ", r.stats.symbols));
    out.push(number_line("Reference edges: ", r.stats.reference_edges));
    out.push(number_line("Stale files: ", r.stale));
    out.push(number_line("Untracked files: ", r.untracked));
    if !r.last_index.as_str().is_empty() {
        out.push(cat("Last index: ", r.last_index.as_str()));
    }
    match origin {
        Some(o) => {
            out.push(origin_line(o));
        },
        None => {},
    }
    assert(views(out@) =~= status_lines_of(*r, origin_view(*origin)));
    out
}

/// The warning that a pulled graph is stale, where it is.
pub fn stale_origin_warning(r: &Report, origin: &Option<Value>) -> (w: Option<String>)
    ensures
        opt_view(w) == (match origin_view(*origin) {
            Some(o) => if r.origin_stale == Some(true) {
                Some(
                    "warning: pulled graph was indexed at commit "@ + origin_text(o, "commit"@)
                        + ", but local HEAD differs; run `synapse index` to refresh"@,
                )
            } else {
                None
            },
            None => None,
        }),
{
    match origin {
        Some(o) => match r.origin_stale {
            Some(true) => {
                let commit = member_or_mark(o, "commit");
                Some(
                    cat3(
                        "warning: pulled graph was indexed at commit ",
                        commit.as_str(),
                        ", but local HEAD differs; run `synapse index` to refresh",
                    ),
                )
            },
            _ => None,
        },
        None => None,
    }
}

} // verus!
