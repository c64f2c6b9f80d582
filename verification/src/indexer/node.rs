//! Parsing of `package.json` manifests into the dependency and script facts the
//! indexer cares about.
//!
//! Real-world `package.json` files are full of fields we don't model and
//! occasionally malformed entries (null versions, arrays where objects are
//! expected, etc.): exactly what is needed is picked out, and anything unexpected
//! is silently skipped.
//!
//! Dependencies from `dependencies`, `devDependencies` and `peerDependencies`
//! are merged into one list, each tagged with its `kind`. The output is sorted
//! by `(kind, name)` for dependencies and by `name` for scripts so that
//! re-indexing an unchanged file always produces identical graph facts.

use crate::errors::SynapseError;
use crate::json::{
    json_entries, json_member, json_text, json_text_member, json_view, parse_json, parsed_json, text_member, JsonEntry,
    JsonEntryView, JsonView,
};
use crate::lists::{find_first, pick, pick_views, sort_views, views_add};
use crate::sorting::stable_sort;
use crate::text::{before, opt_view, same, text_le, text_lt, views};
use vstd::prelude::*;

verus! {

/// A single npm dependency edge.
#[derive(Debug)]
pub struct NodeDep {
    /// Package name (the key in the dependency map).
    pub name: String,
    /// Version range/specifier string (the value in the dependency map).
    pub version: String,
    /// One of `"dependency"`, `"devDependency"`, or `"peerDependency"`.
    pub kind: String,
}

pub struct NodeDepView {
    pub name: Seq<char>,
    pub version: Seq<char>,
    pub kind: Seq<char>,
}

impl View for NodeDep {
    type V = NodeDepView;

    open spec fn view(&self) -> NodeDepView {
        NodeDepView { name: self.name@, version: self.version@, kind: self.kind@ }
    }
}

/// Parsed facts extracted from a single `package.json`.
#[derive(Debug)]
pub struct PackageJsonData {
    /// The `"name"` field, if present and a string.
    pub name: Option<String>,
    /// All dependencies across the dependency maps, sorted by `(kind, name)`.
    pub dependencies: Vec<NodeDep>,
    /// `(scriptName, command)` pairs from `"scripts"`, sorted by name.
    pub scripts: Vec<(String, String)>,
}

pub struct PackageJsonView {
    pub name: Option<Seq<char>>,
    pub dependencies: Seq<NodeDepView>,
    pub scripts: Seq<(Seq<char>, Seq<char>)>,
}

impl View for PackageJsonData {
    type V = PackageJsonView;

    open spec fn view(&self) -> PackageJsonView {
        PackageJsonView {
            name: opt_view(self.name),
            dependencies: views(self.dependencies@),
            scripts: views(self.scripts@),
        }
    }
}

/// The entries of a member, where it is an object.
pub open spec fn entries(doc: JsonView, key: Seq<char>) -> Seq<JsonEntryView> {
    match json_member(doc, key) {
        Some(JsonView::Object(es)) => es,
        _ => Seq::empty(),
    }
}

/// The string-valued entries of one dependency map, tagged with their kind.
pub open spec fn deps(doc: JsonView, field: Seq<char>, kind: Seq<char>) -> Seq<NodeDepView> {
    pick(
        entries(doc, field),
        |e: JsonEntryView|
            match e.value {
                JsonView::Text(version) => Some(NodeDepView { name: e.key, version, kind }),
                _ => None,
            },
    )
}

/// The string-valued entries of `scripts`.
pub open spec fn scripts(doc: JsonView) -> Seq<(Seq<char>, Seq<char>)> {
    pick(
        entries(doc, "scripts"@),
        |e: JsonEntryView|
            match e.value {
                JsonView::Text(cmd) => Some((e.key, cmd)),
                _ => None,
            },
    )
}

pub open spec fn kind_name_order() -> spec_fn(NodeDepView, NodeDepView) -> bool {
    |a: NodeDepView, b: NodeDepView| text_lt(a.kind, b.kind) || (a.kind == b.kind && text_le(a.name, b.name))
}

pub open spec fn script_order() -> spec_fn((Seq<char>, Seq<char>), (Seq<char>, Seq<char>)) -> bool {
    |a: (Seq<char>, Seq<char>), b: (Seq<char>, Seq<char>)| text_le(a.0, b.0)
}

/// The facts of a `package.json` document.
pub open spec fn package_facts(doc: JsonView) -> PackageJsonView {
    PackageJsonView {
        name: json_text_member(doc, "name"@),
        dependencies: stable_sort(
            deps(doc, "dependencies"@, "dependency"@) + deps(doc, "devDependencies"@, "devDependency"@) + deps(
                doc,
                "peerDependencies"@,
                "peerDependency"@,
            ),
            kind_name_order(),
        ),
        scripts: stable_sort(scripts(doc), script_order()),
    }
}

/// The entries of a member, where it is an object.
fn entries_of(doc: &serde_json::Value, key: &str) -> (r: Vec<JsonEntry>)
    ensures
        views(r@) == entries(json_view(*doc), key@),
{
    let none: Vec<JsonEntry> = Vec::new();
    assert(views(none@) =~= Seq::<JsonEntryView>::empty());
    let is_it = |m: &JsonEntry| -> (r: bool)
        ensures
            r == (m@.key == key@),
        {
            same(m.key.as_str(), key)
        };
    match json_entries(doc) {
        Some(members) => match find_first(&members, is_it, Ghost(|m: JsonEntryView| m.key == key@)) {
            Some(m) => match json_entries(&m.value) {
                Some(es) => es,
                None => none,
            },
            None => none,
        },
        None => none,
    }
}

/// The dependencies of one map (`field`), each tagged with `kind`. A non-object
/// or absent field is skipped; non-string values within the object are skipped.
fn collect_deps(doc: &serde_json::Value, field: &str, kind: &str) -> (r: Vec<NodeDep>)
    ensures
        views(r@) == deps(json_view(*doc), field@, kind@),
{
    let ghost want = |e: JsonEntryView|
        match e.value {
            JsonView::Text(version) => Some(NodeDepView { name: e.key, version, kind: kind@ }),
            _ => None,
        };
    let f = |e: &JsonEntry| -> (r: Option<NodeDep>)
        ensures
            opt_view(r) == want(e@),
        {
            match json_text(&e.value) {
                Some(version) => Some(NodeDep { name: e.key.clone(), version, kind: kind.to_owned() }),
                None => None,
            }
        };
    let es = entries_of(doc, field);
    pick_views(&es, f, Ghost(want))
}

fn collect_scripts(doc: &serde_json::Value) -> (r: Vec<(String, String)>)
    ensures
        views(r@) == scripts(json_view(*doc)),
{
    let ghost want = |e: JsonEntryView|
        match e.value {
            JsonView::Text(cmd) => Some((e.key, cmd)),
            _ => None,
        };
    let f = |e: &JsonEntry| -> (r: Option<(String, String)>)
        ensures
            opt_view(r) == want(e@),
        {
            match json_text(&e.value) {
                Some(cmd) => Some((e.key.clone(), cmd)),
                None => None,
            }
        };
    let es = entries_of(doc, "scripts");
    pick_views(&es, f, Ghost(want))
}

/// The facts of a document.
pub fn facts_of(doc: &serde_json::Value) -> (r: PackageJsonData)
    ensures
        r@ == package_facts(json_view(*doc)),
{
    let name = text_member(doc, "name");
    let mut all = collect_deps(doc, "dependencies", "dependency");
    let mut dev = collect_deps(doc, "devDependencies", "devDependency");
    let mut peer = collect_deps(doc, "peerDependencies", "peerDependency");
    proof {
        views_add(all@, dev@);
        views_add(all@ + dev@, peer@);
    }
    all.append(&mut dev);
    all.append(&mut peer);
    let le = |a: &NodeDep, b: &NodeDep| -> (r: bool)
        ensures
            r == (text_lt(a@.kind, b@.kind) || (a@.kind == b@.kind && text_le(a@.name, b@.name))),
        {
            before(a.kind.as_str(), b.kind.as_str()) || (same(a.kind.as_str(), b.kind.as_str()) && !before(
                b.name.as_str(),
                a.name.as_str(),
            ))
        };
    let dependencies = sort_views(all, le, Ghost(kind_name_order()));
    let by_name = |a: &(String, String), b: &(String, String)| -> (r: bool)
        ensures
            r == text_le(a@.0, b@.0),
        {
            !before(b.0.as_str(), a.0.as_str())
        };
    let commands = sort_views(collect_scripts(doc), by_name, Ghost(script_order()));
    PackageJsonData { name, dependencies, scripts: commands }
}

/// Parse the textual contents of a `package.json` file.
///
/// Extracts the package `name`, merges the three standard dependency maps into a
/// single sorted list, and collects the `scripts` map. Missing, null, or
/// wrongly-typed fields are tolerated and skipped rather than producing an
/// error.
///
/// Returns an error only when the input is not valid JSON at all.
pub fn parse_package_json(text: &str) -> (r: Result<PackageJsonData, SynapseError>)
    ensures
        r is Ok == parsed_json(text@) is Some,
        r matches Ok(d) ==> d@ == package_facts(parsed_json(text@)->0),
        r matches Err(e) ==> e is Invalid && e.text() == "failed to parse package.json"@,
{
    match parse_json(text) {
        Some(doc) => Ok(facts_of(&doc)),
        None => Err(SynapseError::Invalid("failed to parse package.json".to_owned())),
    }
}

} // verus!
