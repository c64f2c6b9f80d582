//! Project manifests (`.csproj` / `package.json`): what they contribute to the
//! graph, central package versions, and which manifest owns a file.

use crate::errors::SynapseError;
use crate::graph::model::{IndexedPackage, IndexedProject, Language, PackageView, ProjectView};
use crate::graph::store::{GraphStore, StoreWrite};
use crate::indexer::dotnet::{
    all_pins, central_version_map, msbuild_facts, parse_csproj, parse_msbuild, pins_of, CsprojData, CsprojView,
    PackageRefView, VersionMap,
};
use crate::indexer::ids::{package_id, package_id_of, project_id, project_id_of};
use crate::indexer::node::{package_facts, parse_package_json, NodeDepView, PackageJsonData, PackageJsonView};
use crate::indexer::xml::{stops_once, xml_events};
use crate::json::parsed_json;
use crate::lists::{
    find_first, first, flat, keep, pick, pick_views, sort_views, take_next, take_none, take_whole, views_push,
};
use crate::pack::selector::{path_under_prefix, under};
use crate::paths::{file_name, file_name_of, file_stem, join_path, joined, stem_of};
use crate::sorting::{sorted, stable_sort};
use crate::text::{
    after_last, ascii_lowercase, before, before_last, count, count_char, ends_with, join, join_with, lower, opt_view,
    replace_char, replaced_char, same, split, split_at_char, text_after_last, text_before_last, text_le, views,
};
use vstd::prelude::*;

verus! {

// --- paths ---------------------------------------------------------------------------
/// The components of a path once `.` and `..` are taken out; `..` at the top goes
/// nowhere.
pub open spec fn clean(parts: Seq<Seq<char>>) -> Seq<Seq<char>>
    decreases parts.len(),
{
    if parts.len() == 0 {
        parts
    } else {
        let r = clean(parts.drop_last());
        let p = parts.last();
        if p == ""@ || p == "."@ {
            r
        } else if p == ".."@ {
            if r.len() > 0 {
                r.drop_last()
            } else {
                r
            }
        } else {
            r.push(p)
        }
    }
}

/// The path with forward slashes and without `.`, `..` and empty components.
pub open spec fn clean_path(path: Seq<char>) -> Seq<char> {
    join(clean(split(replace_char(path, '\\', '/'), '/')), "/"@)
}

/// No component of a clean path is empty, `.` or `..`.
pub proof fn clean_components(parts: Seq<Seq<char>>)
    ensures
        clean(parts).len() <= parts.len(),
        forall|i: int|
            0 <= i < clean(parts).len() ==> (#[trigger] clean(parts)[i]) != ""@ && clean(parts)[i] != "."@ && clean(
                parts,
            )[i] != ".."@,
    decreases parts.len(),
{
    if parts.len() > 0 {
        clean_components(parts.drop_last());
    }
}

/// Collapse `.`/`..` components into a clean forward-slash path.
pub fn normalize_components(path: &str) -> (r: String)
    ensures
        r@ == clean_path(path@),
{
    let slashed = replaced_char(path, '\\', '/');
    let comps = split_at_char(slashed.as_str(), '/');
    let ghost all = views(comps@);
    let mut parts: Vec<String> = Vec::new();
    let mut i: usize = 0;
    proof {
        take_none(all);
        assert(views(parts@) =~= Seq::<Seq<char>>::empty());
    }
    while i < comps.len()
        invariant
            i <= comps@.len(),
            all == views(comps@),
            views(parts@) == clean(all.take(i as int)),
        decreases comps@.len() - i,
    {
        proof {
            take_next(all, i as int);
            assert(all[i as int] == comps@[i as int]@);
        }
        let c = comps[i].as_str();
        if same(c, "") || same(c, ".") {
        } else if same(c, "..") {
            if parts.len() > 0 {
                proof {
                    assert(views(parts@.drop_last()) =~= views(parts@).drop_last());
                }
                let _ = parts.pop();
            }
        } else {
            let part = comps[i].clone();
            proof {
                views_push(parts@, part);
            }
            parts.push(part);
        }
        i += 1;
    }
    proof {
        take_whole(all);
    }
    join_with(&parts, "/")
}

/// A reference of the manifest at `rel`, as a repo-relative path.
pub open spec fn resolved_reference(rel: Seq<char>, reference: Seq<char>) -> Seq<char> {
    clean_path(join_path(before_last(rel, '/'), replace_char(reference, '\\', '/')))
}

/// Resolve a relative manifest reference (possibly using `\`) against the
/// directory of the manifest at `rel` into a normalized repo-relative path.
pub fn resolve_rel(rel: &str, reference: &str) -> (r: String)
    ensures
        r@ == resolved_reference(rel@, reference@),
{
    let dir = text_before_last(rel, '/');
    let slashed = replaced_char(reference, '\\', '/');
    let path = joined(dir.as_str(), slashed.as_str());
    normalize_components(path.as_str())
}

// --- ownership -------------------------------------------------------------------------
pub open spec fn is_manifest_path(path: Seq<char>) -> bool {
    ".csproj"@.is_suffix_of(path) || "package.json"@.is_suffix_of(path)
}

/// Deeper directories first, then by descending path.
pub open spec fn depth_order() -> spec_fn(Seq<char>, Seq<char>) -> bool {
    |a: Seq<char>, b: Seq<char>| count(a, '/') > count(b, '/') || (count(a, '/') == count(b, '/') && text_le(b, a))
}

/// The project manifests among the candidates, deepest directories first.
pub open spec fn manifests_of(candidates: Seq<Seq<char>>) -> Seq<Seq<char>> {
    stable_sort(keep(candidates, |p: Seq<char>| is_manifest_path(p)), depth_order())
}

/// The project manifests across the candidates, sorted by descending directory
/// depth so the *nearest* owning manifest for a file is found first.
pub fn sorted_manifests(candidates: &Vec<String>) -> (r: Vec<String>)
    ensures
        views(r@) == manifests_of(views(candidates@)),
{
    let f = |p: &String| -> (r: bool)
        ensures
            r == is_manifest_path(p@),
        {
            ends_with(p.as_str(), ".csproj") || ends_with(p.as_str(), "package.json")
        };
    let found = crate::lists::select_clones(candidates, f, Ghost(|p: Seq<char>| is_manifest_path(p)));
    let le = |a: &String, b: &String| -> (r: bool)
        ensures
            r == depth_order()(a@, b@),
        {
            let x: usize = count_char(a.as_str(), '/');
            let y: usize = count_char(b.as_str(), '/');
            x > y || (x == y && !before(a.as_str(), b.as_str()))
        };
    sort_views(found, le, Ghost(depth_order()))
}

/// The directory of the manifest is an ancestor of (or is) the directory of
/// `path`; a manifest at the root owns everything.
pub open spec fn owns(manifest: Seq<char>, path: Seq<char>) -> bool {
    under(path, before_last(manifest, '/'))
}

/// True if the directory containing the manifest is an ancestor of (or equal to
/// the directory of) `path`.
pub fn manifest_owns(manifest: &str, path: &str) -> (r: bool)
    ensures
        r == owns(manifest@, path@),
{
    let dir = text_before_last(manifest, '/');
    path_under_prefix(path, dir.as_str())
}

/// The manifests that own `path` and are not `path` itself.
pub open spec fn owners(path: Seq<char>) -> spec_fn(Seq<char>) -> bool {
    |m: Seq<char>| m != path && owns(m, path)
}

/// The first manifest of the list that owns `path` and is not `path` itself.
pub open spec fn owner(path: Seq<char>, manifests: Seq<Seq<char>>) -> Option<Seq<char>> {
    first(manifests, owners(path))
}

/// Find the nearest project manifest that owns `path` — the manifest whose
/// directory is the deepest ancestor of `path`. `manifests` must be sorted by
/// descending directory depth. A manifest never owns itself.
pub fn owning_manifest<'a>(path: &str, manifests: &'a Vec<String>) -> (r: Option<&'a String>)
    ensures
        r is Some == owner(path@, views(manifests@)) is Some,
        r matches Some(m) ==> owner(path@, views(manifests@)) == Some(m@),
{
    let f = |m: &String| -> (r: bool)
        ensures
            r == (m@ != path@ && owns(m@, path@)),
        {
            !same(m.as_str(), path) && manifest_owns(m.as_str(), path)
        };
    find_first(manifests, f, Ghost(owners(path@)))
}

/// The owner of a file is a manifest above it, never the file itself, and no
/// other manifest above it lies deeper.
pub proof fn owner_is_nearest(path: Seq<char>, candidates: Seq<Seq<char>>)
    ensures
        owner(path, manifests_of(candidates)) matches Some(m) ==> {
            &&& m != path
            &&& owns(m, path)
            &&& candidates.contains(m)
            &&& forall|other: Seq<char>|
                #[trigger] candidates.contains(other) && is_manifest_path(other) && other != path && owns(other, path)
                    ==> count(other, '/') <= count(m, '/')
        },
        owner(path, manifests_of(candidates)) is None ==> forall|other: Seq<char>|
            #[trigger] candidates.contains(other) && is_manifest_path(other) && other != path ==> !owns(other, path),
{
    let p = |x: Seq<char>| is_manifest_path(x);
    let found = keep(candidates, p);
    let list = manifests_of(candidates);
    crate::lists::keep_members(candidates, p);
    crate::sorting::stable_sort_keeps(found, depth_order());
    depth_order_total();
    crate::sorting::stable_sort_sorted(found, depth_order());
    let q = owners(path);
    first_is_first(list, q);
    crate::lists::first_found(list, q);
    if owner(path, list) is Some {
        let m = owner(path, list)->0;
        assert(list.contains(m));
        let i = first_index_of(list, q);
        assert forall|other: Seq<char>|
            #[trigger] candidates.contains(other) && is_manifest_path(other) && other != path && owns(
                other,
                path,
            ) implies count(other, '/') <= count(m, '/') by {
            assert(found.contains(other));
            assert(list.contains(other));
            let j = list.index_of(other);
            assert(q(list[j]));
            if j > i {
                assert(depth_order()(list[i], list[j]));
            }
        }
    } else {
        assert forall|other: Seq<char>|
            #[trigger] candidates.contains(other) && is_manifest_path(other) && other != path implies !owns(
            other,
            path,
        ) by {
            assert(found.contains(other));
            assert(list.contains(other));
            let j = list.index_of(other);
            assert(!q(list[j]));
        }
    }
}

spec fn first_index_of<T>(s: Seq<T>, p: spec_fn(T) -> bool) -> int
    decreases s.len(),
{
    if s.len() == 0 {
        0
    } else if first(s.drop_last(), p) is Some {
        first_index_of(s.drop_last(), p)
    } else {
        s.len() - 1
    }
}

proof fn first_is_first<T>(s: Seq<T>, p: spec_fn(T) -> bool)
    ensures
        first(s, p) is Some ==> {
            let i = first_index_of(s, p);
            &&& 0 <= i < s.len()
            &&& s[i] == first(s, p)->0
            &&& forall|j: int| 0 <= j < i ==> !p(#[trigger] s[j])
        },
    decreases s.len(),
{
    if s.len() > 0 {
        first_is_first(s.drop_last(), p);
        crate::lists::first_found(s.drop_last(), p);
        if first(s.drop_last(), p) is None {
            assert forall|j: int| 0 <= j < s.len() - 1 implies !p(#[trigger] s[j]) by {
                assert(s.drop_last()[j] == s[j]);
            }
        } else {
            let i = first_index_of(s.drop_last(), p);
            assert forall|j: int| 0 <= j < i implies !p(#[trigger] s[j]) by {
                assert(s.drop_last()[j] == s[j]);
            }
        }
    }
}

proof fn depth_order_total()
    ensures
        crate::sorting::total_preorder(depth_order()),
{
    let le = depth_order();
    assert forall|a: Seq<char>, b: Seq<char>| #![trigger le(a, b)] le(a, b) || le(b, a) by {
        if crate::text::text_lt(a, b) {
            crate::text::text_lt_asymmetric(a, b);
        }
    }
    assert forall|a: Seq<char>, b: Seq<char>, c: Seq<char>|
        #![trigger le(a, b), le(b, c)]
        le(a, b) && le(b, c) implies le(a, c) by {
        if text_le(b, a) && text_le(c, b) {
            crate::lists::text_le_transitive(c, b, a);
        }
    }
}

// --- central package management ----------------------------------------------------------
/// The text of a file.
pub struct SourceText {
    pub rel: String,
    pub text: String,
}

pub struct SourceTextView {
    pub rel: Seq<char>,
    pub text: Seq<char>,
}

impl View for SourceText {
    type V = SourceTextView;

    open spec fn view(&self) -> SourceTextView {
        SourceTextView { rel: self.rel@, text: self.text@ }
    }
}

/// A `Directory.Packages.props` or `Directory.Build.props`, in any case.
pub open spec fn is_central_props_path(rel: Seq<char>) -> bool {
    let name = lower(after_last(rel, '/'));
    name == "directory.packages.props"@ || name == "directory.build.props"@
}

/// True for a `Directory.Packages.props` or `Directory.Build.props`.
pub fn is_central_props(rel: &str) -> (r: bool)
    ensures
        r == is_central_props_path(rel@),
{
    let name = text_after_last(rel, '/');
    let name = ascii_lowercase(name.as_str());
    same(name.as_str(), "directory.packages.props") || same(name.as_str(), "directory.build.props")
}

/// What one props file contributes.
pub struct CentralEntry {
    pub dir: String,
    pub pins: VersionMap,
    pub cpm_enabled: Option<bool>,
}

pub struct CentralEntryView {
    pub dir: Seq<char>,
    pub pins: Map<Seq<char>, Seq<char>>,
    pub cpm_enabled: Option<bool>,
}

impl View for CentralEntry {
    type V = CentralEntryView;

    open spec fn view(&self) -> CentralEntryView {
        CentralEntryView { dir: self.dir@, pins: self.pins@, cpm_enabled: self.cpm_enabled }
    }
}

/// What a props file with these facts contributes.
pub open spec fn central_entry(rel: Seq<char>, facts: CsprojView) -> CentralEntryView {
    CentralEntryView {
        dir: before_last(rel, '/'),
        pins: pins_of(facts.package_versions),
        cpm_enabled: facts.cpm_enabled,
    }
}

/// How deep a directory lies; the root is at 0.
pub open spec fn dir_depth(dir: Seq<char>) -> nat {
    if dir.len() == 0 {
        0
    } else {
        count(dir, '/') + 1
    }
}

/// Farthest ancestors first, so nearer props win.
pub open spec fn farthest_first() -> spec_fn(CentralEntryView, CentralEntryView) -> bool {
    |a: CentralEntryView, b: CentralEntryView|
        dir_depth(a.dir) < dir_depth(b.dir) || (dir_depth(a.dir) == dir_depth(b.dir) && text_le(a.dir, b.dir))
}

/// The entries of the props files among `files` that can be read as XML.
pub open spec fn central_entries(files: Seq<SourceTextView>) -> Seq<CentralEntryView> {
    stable_sort(
        pick(
            files,
            |f: SourceTextView|
                if is_central_props_path(f.rel) && !(xml_events(f.text).last() is Failed) {
                    Some(central_entry(f.rel, msbuild_facts(xml_events(f.text).drop_last())))
                } else {
                    None
                },
        ),
        farthest_first(),
    )
}

/// A props directory is an ancestor of (or is) the directory of `csproj`.
pub open spec fn applies(dir: Seq<char>, csproj: Seq<char>) -> bool {
    under(csproj, dir)
}

/// The central version of a package as seen from `csproj`: of the last entry that
/// applies and pins it.
pub open spec fn central_version(
    entries: Seq<CentralEntryView>,
    csproj: Seq<char>,
    package: Seq<char>,
) -> Option<Seq<char>>
    decreases entries.len(),
{
    if entries.len() == 0 {
        None
    } else if applies(entries.last().dir, csproj) && entries.last().pins.contains_key(package) {
        Some(entries.last().pins[package])
    } else {
        central_version(entries.drop_last(), csproj, package)
    }
}

/// Whether central management is on for `csproj`: by the last entry that applies
/// and says so.
pub open spec fn central_enabled(entries: Seq<CentralEntryView>, csproj: Seq<char>) -> bool
    decreases entries.len(),
{
    if entries.len() == 0 {
        false
    } else if applies(entries.last().dir, csproj) && entries.last().cpm_enabled is Some {
        entries.last().cpm_enabled->0
    } else {
        central_enabled(entries.drop_last(), csproj)
    }
}

/// Central Package Management state gathered from every `Directory.Packages.props`
/// and `Directory.Build.props` in the repo.
///
/// MSBuild resolves a `PackageReference` without an inline `Version` against the
/// `<PackageVersion>` pin in the nearest `Directory.Packages.props` walking up
/// from the project. Each entry records the props file's directory, its
/// package→version pins, and any `ManagedPackageVersionsCentrally` flag, farthest
/// ancestors first.
pub struct CentralVersions {
    pub entries: Vec<CentralEntry>,
}

/// What a props file with these facts contributes.
pub fn entry_of(rel: &str, facts: CsprojData) -> (r: CentralEntry)
    ensures
        r@ == central_entry(rel@, facts@),
{
    let cpm_enabled = facts.cpm_enabled;
    let mut one: Vec<CsprojData> = Vec::new();
    one.push(facts);
    let pins = central_version_map(&one);
    proof {
        assert(views(one@) =~= seq![facts@]);
        assert(seq![facts@].drop_last() =~= Seq::<CsprojView>::empty());
        assert(all_pins(seq![facts@].drop_last()) =~= Seq::<PackageRefView>::empty());
        assert(all_pins(seq![facts@]) =~= facts@.package_versions);
    }
    CentralEntry { dir: text_before_last(rel, '/'), pins, cpm_enabled }
}

impl CentralVersions {
    /// Parse all `Directory.Packages.props` / `Directory.Build.props` among the
    /// given files into a resolvable structure.
    pub fn collect(files: &Vec<SourceText>) -> (r: CentralVersions)
        ensures
            views(r.entries@) == central_entries(views(files@)),
    {
        let ghost want = |f: SourceTextView|
            if is_central_props_path(f.rel) && !(xml_events(f.text).last() is Failed) {
                Some(central_entry(f.rel, msbuild_facts(xml_events(f.text).drop_last())))
            } else {
                None
            };
        let f = |f: &SourceText| -> (r: Option<CentralEntry>)
            ensures
                opt_view(r) == want(f@),
            {
                if is_central_props(f.rel.as_str()) {
                    match parse_msbuild(f.text.as_str()) {
                        Ok(facts) => Some(entry_of(f.rel.as_str(), facts)),
                        Err(_) => None,
                    }
                } else {
                    None
                }
            };
        let found = pick_views(files, f, Ghost(want));
        let le = |a: &CentralEntry, b: &CentralEntry| -> (r: bool)
            ensures
                r == farthest_first()(a@, b@),
            {
                let x: usize = count_char(a.dir.as_str(), '/');
                let y: usize = count_char(b.dir.as_str(), '/');
                let a_root = a.dir.as_str().is_empty();
                let b_root = b.dir.as_str().is_empty();
                let shallower = (a_root && !b_root) || (!a_root && !b_root && x < y);
                let level = (a_root && b_root) || (!a_root && !b_root && x == y);
                shallower || (level && !before(b.dir.as_str(), a.dir.as_str()))
            };
        CentralVersions { entries: sort_views(found, le, Ghost(farthest_first())) }
    }

    /// Resolve the central version for `package`, as seen from `csproj`.
    pub fn version_for(&self, csproj: &str, package: &str) -> (r: Option<String>)
        ensures
            opt_view(r) == central_version(views(self.entries@), csproj@, package@),
    {
        let ghost all = views(self.entries@);
        let mut i: usize = self.entries.len();
        proof {
            take_whole(all);
        }
        while i > 0
            invariant
                i <= self.entries@.len(),
                all == views(self.entries@),
                central_version(all, csproj@, package@) == central_version(all.take(i as int), csproj@, package@),
            decreases i,
        {
            i -= 1;
            proof {
                take_next(all, i as int);
                assert(all[i as int] == self.entries@[i as int]@);
            }
            let e = &self.entries[i];
            if path_under_prefix(csproj, e.dir.as_str()) {
                match e.pins.get(package) {
                    Some(v) => {
                        return Some(v.clone());
                    },
                    None => {},
                }
            }
        }
        proof {
            take_none(all);
        }
        None
    }

    /// Whether CPM is enabled for `csproj` (nearest flag up the tree wins).
    pub fn enabled_for(&self, csproj: &str) -> (r: bool)
        ensures
            r == central_enabled(views(self.entries@), csproj@),
    {
        let ghost all = views(self.entries@);
        let mut i: usize = self.entries.len();
        proof {
            take_whole(all);
        }
        while i > 0
            invariant
                i <= self.entries@.len(),
                all == views(self.entries@),
                central_enabled(all, csproj@) == central_enabled(all.take(i as int), csproj@),
            decreases i,
        {
            i -= 1;
            proof {
                take_next(all, i as int);
                assert(all[i as int] == self.entries@[i as int]@);
            }
            let e = &self.entries[i];
            if path_under_prefix(csproj, e.dir.as_str()) {
                match e.cpm_enabled {
                    Some(b) => {
                        return b;
                    },
                    None => {},
                }
            }
        }
        proof {
            take_none(all);
        }
        false
    }
}

/// In a list with farthest ancestors first, the version found is that of a
/// deepest props directory above the project that pins the package.
pub proof fn nearest_pin_wins(entries: Seq<CentralEntryView>, csproj: Seq<char>, package: Seq<char>)
    requires
        sorted(entries, farthest_first()),
    ensures
        central_version(entries, csproj, package) matches Some(v) ==> exists|i: int|
            0 <= i < entries.len() && applies((#[trigger] entries[i]).dir, csproj) && entries[i].pins.contains_key(
                package,
            ) && entries[i].pins[package] == v && forall|j: int|
                0 <= j < entries.len() && applies((#[trigger] entries[j]).dir, csproj) && entries[j].pins.contains_key(
                    package,
                ) ==> dir_depth(entries[j].dir) <= dir_depth(entries[i].dir),
        central_version(entries, csproj, package) is None ==> forall|j: int|
            0 <= j < entries.len() && applies((#[trigger] entries[j]).dir, csproj) ==> !entries[j].pins.contains_key(
                package,
            ),
    decreases entries.len(),
{
    if entries.len() > 0 {
        let rest = entries.drop_last();
        let n = entries.len() - 1;
        if applies(entries.last().dir, csproj) && entries.last().pins.contains_key(package) {
            assert forall|j: int|
                0 <= j < entries.len() && applies((#[trigger] entries[j]).dir, csproj) && entries[j].pins.contains_key(
                    package,
                ) implies dir_depth(entries[j].dir) <= dir_depth(entries[n].dir) by {
                if j < n {
                    assert(farthest_first()(entries[j], entries[n]));
                }
            }
            assert(applies(entries[n].dir, csproj));
        } else {
            assert forall|i: int, j: int| 0 <= i < j < rest.len() implies farthest_first()(
                #[trigger] rest[i],
                #[trigger] rest[j],
            ) by {
                assert(farthest_first()(entries[i], entries[j]));
            }
            nearest_pin_wins(rest, csproj, package);
            assert forall|j: int| 0 <= j < rest.len() implies #[trigger] rest[j] == entries[j] by {}
            if central_version(rest, csproj, package) is Some {
                let i = choose|i: int|
                    0 <= i < rest.len() && applies((#[trigger] rest[i]).dir, csproj) && rest[i].pins.contains_key(
                        package,
                    ) && rest[i].pins[package] == central_version(rest, csproj, package)->0 && forall|j: int|
                        0 <= j < rest.len() && applies((#[trigger] rest[j]).dir, csproj) && rest[j].pins.contains_key(
                            package,
                        ) ==> dir_depth(rest[j].dir) <= dir_depth(rest[i].dir);
                assert(applies(entries[i].dir, csproj));
                assert forall|j: int|
                    0 <= j < entries.len() && applies((#[trigger] entries[j]).dir, csproj)
                        && entries[j].pins.contains_key(package) implies dir_depth(entries[j].dir) <= dir_depth(
                    entries[i].dir,
                ) by {
                    assert(j < n);
                    assert(rest[j] == entries[j]);
                }
            } else {
                assert forall|j: int|
                    0 <= j < entries.len() && applies((#[trigger] entries[j]).dir, csproj) implies !entries[j].pins.contains_key(
                package) by {
                    if j < n {
                        assert(rest[j] == entries[j]);
                    }
                }
            }
        }
    }
}

// --- what a manifest contributes --------------------------------------------------------
/// One ordered store operation contributed by a manifest, after its project node
/// is upserted. Each op corresponds to exactly one edge.
pub enum ManifestOp {
    /// The project references the project with id `target`.
    ProjectRef { target: String },
    /// The package is recorded, and used by the project.
    Package(IndexedPackage),
}

pub enum ManifestOpView {
    ProjectRef { target: Seq<char> },
    Package(PackageView),
}

impl View for ManifestOp {
    type V = ManifestOpView;

    open spec fn view(&self) -> ManifestOpView {
        match self {
            ManifestOp::ProjectRef { target } => ManifestOpView::ProjectRef { target: target@ },
            ManifestOp::Package(p) => ManifestOpView::Package(p@),
        }
    }
}

/// A manifest (`.csproj` / `package.json`) parsed into the exact, ordered set of
/// store operations needed to record it — the project node plus its reference
/// and package edges in document order.
pub struct ManifestWrite {
    pub project: IndexedProject,
    pub ops: Vec<ManifestOp>,
}

pub struct ManifestView {
    pub project: ProjectView,
    pub ops: Seq<ManifestOpView>,
}

impl View for ManifestWrite {
    type V = ManifestView;

    open spec fn view(&self) -> ManifestView {
        ManifestView { project: self.project@, ops: views(self.ops@) }
    }
}

/// The package node of a NuGet reference: its inline version, else the central
/// pin, else none.
pub open spec fn nuget_package(rel: Seq<char>, p: PackageRefView, entries: Seq<CentralEntryView>) -> PackageView {
    PackageView {
        id: package_id_of("nuget"@, p.name),
        name: p.name,
        version: match p.version {
            Some(v) => v,
            None => match central_version(entries, rel, p.name) {
                Some(v) => v,
                None => ""@,
            },
        },
        ecosystem: "nuget"@,
        dependency_kind: "package"@,
    }
}

/// What a `.csproj` with these facts contributes.
pub open spec fn csproj_manifest(rel: Seq<char>, facts: CsprojView, entries: Seq<CentralEntryView>) -> ManifestView {
    ManifestView {
        project: ProjectView {
            id: project_id_of(rel),
            name: match stem_of(rel) {
                Some(s) => s,
                None => rel,
            },
            path: rel,
            language: Language::CSharp,
            kind: if central_enabled(entries, rel) || facts.package_versions.len() > 0 {
                "dotnet (cpm)"@
            } else {
                "dotnet"@
            },
        },
        ops: facts.project_references.map_values(
            |r: Seq<char>| ManifestOpView::ProjectRef { target: project_id_of(resolved_reference(rel, r)) },
        ) + facts.package_references.map_values(
            |p: PackageRefView| ManifestOpView::Package(nuget_package(rel, p, entries)),
        ),
    }
}

/// What a `.csproj` with these facts contributes.
pub fn manifest_of_csproj(rel: &str, facts: &CsprojData, central: &CentralVersions) -> (r: ManifestWrite)
    ensures
        r@ == csproj_manifest(rel@, facts@, views(central.entries@)),
{
    let name = match file_stem(rel) {
        Some(s) => s,
        None => rel.to_owned(),
    };
    let kind = if central.enabled_for(rel) || facts.package_versions.len() > 0 {
        "dotnet (cpm)"
    } else {
        "dotnet"
    };
    let project = IndexedProject {
        id: project_id(rel),
        name,
        path: rel.to_owned(),
        language: Language::CSharp,
        kind: kind.to_owned(),
    };
    let ghost entries = views(central.entries@);
    let ghost refs = facts@.project_references.map_values(
        |r: Seq<char>| ManifestOpView::ProjectRef { target: project_id_of(resolved_reference(rel@, r)) },
    );
    let ghost pkgs = facts@.package_references.map_values(
        |p: PackageRefView| ManifestOpView::Package(nuget_package(rel@, p, entries)),
    );
    let mut ops: Vec<ManifestOp> = Vec::new();
    let mut i: usize = 0;
    assert(views(ops@) =~= refs.take(0));
    while i < facts.project_references.len()
        invariant
            i <= facts.project_references@.len(),
            refs == facts@.project_references.map_values(
                |r: Seq<char>| ManifestOpView::ProjectRef { target: project_id_of(resolved_reference(rel@, r)) },
            ),
            views(ops@) == refs.take(i as int),
        decreases facts.project_references@.len() - i,
    {
        let target = resolve_rel(rel, facts.project_references[i].as_str());
        let op = ManifestOp::ProjectRef { target: project_id(target.as_str()) };
        proof {
            take_next(refs, i as int);
            assert(facts@.project_references[i as int] == facts.project_references@[i as int]@);
            views_push(ops@, op);
        }
        ops.push(op);
        i += 1;
    }
    proof {
        take_whole(refs);
        assert(views(ops@) =~= refs + pkgs.take(0));
    }
    let mut j: usize = 0;
    while j < facts.package_references.len()
        invariant
            j <= facts.package_references@.len(),
            entries == views(central.entries@),
            pkgs == facts@.package_references.map_values(
                |p: PackageRefView| ManifestOpView::Package(nuget_package(rel@, p, entries)),
            ),
            views(ops@) == refs + pkgs.take(j as int),
        decreases facts.package_references@.len() - j,
    {
        let p = &facts.package_references[j];
        let version = match &p.version {
            Some(v) => v.clone(),
            None => match central.version_for(rel, p.name.as_str()) {
                Some(v) => v,
                None => "".to_owned(),
            },
        };
        let op = ManifestOp::Package(
            IndexedPackage {
                id: package_id("nuget", p.name.as_str()),
                name: p.name.clone(),
                version,
                ecosystem: "nuget".to_owned(),
                dependency_kind: "package".to_owned(),
            },
        );
        proof {
            take_next(pkgs, j as int);
            assert(facts@.package_references[j as int] == p@);
            assert(op@ == pkgs[j as int]);
            views_push(ops@, op);
            assert(refs + pkgs.take(j as int + 1) =~= (refs + pkgs.take(j as int)).push(op@));
        }
        ops.push(op);
        j += 1;
    }
    proof {
        take_whole(pkgs);
    }
    ManifestWrite { project, ops }
}

/// Parse a `.csproj` into a [`ManifestWrite`]. Package versions missing from the
/// `.csproj` are resolved against Central Package Management via `central`.
pub fn parse_csproj_manifest(rel: &str, text: &str, central: &CentralVersions) -> (r: Result<
    ManifestWrite,
    SynapseError,
>)
    ensures
        stops_once(xml_events(text@)),
        r is Err == (xml_events(text@).last() is Failed),
        r matches Ok(m) ==> m@ == csproj_manifest(
            rel@,
            msbuild_facts(xml_events(text@).drop_last()),
            views(central.entries@),
        ),
        r matches Err(e) ==> e is Invalid && e.text() == "failed reading MSBuild XML"@,
{
    match parse_csproj(text) {
        Ok(facts) => Ok(manifest_of_csproj(rel, &facts, central)),
        Err(e) => Err(e),
    }
}

/// What a `package.json` with these facts contributes.
pub open spec fn node_manifest(rel: Seq<char>, facts: PackageJsonView) -> ManifestView {
    ManifestView {
        project: ProjectView {
            id: project_id_of(rel),
            name: match facts.name {
                Some(n) => n,
                None => match file_name_of(before_last(rel, '/')) {
                    Some(d) => d,
                    None => "package"@,
                },
            },
            path: rel,
            language: Language::JavaScript,
            kind: "node"@,
        },
        ops: facts.dependencies.map_values(
            |d: NodeDepView|
                ManifestOpView::Package(
                    PackageView {
                        id: package_id_of("npm"@, d.name),
                        name: d.name,
                        version: d.version,
                        ecosystem: "npm"@,
                        dependency_kind: d.kind,
                    },
                ),
        ),
    }
}

/// What a `package.json` with these facts contributes.
pub fn manifest_of_package_json(rel: &str, facts: &PackageJsonData) -> (r: ManifestWrite)
    ensures
        r@ == node_manifest(rel@, facts@),
{
    let name = match &facts.name {
        Some(n) => n.clone(),
        None => {
            let dir = text_before_last(rel, '/');
            match file_name(dir.as_str()) {
                Some(d) => d,
                None => "package".to_owned(),
            }
        },
    };
    let project = IndexedProject {
        id: project_id(rel),
        name,
        path: rel.to_owned(),
        language: Language::JavaScript,
        kind: "node".to_owned(),
    };
    let ghost target = node_manifest(rel@, facts@).ops;
    let mut ops: Vec<ManifestOp> = Vec::new();
    let mut i: usize = 0;
    assert(views(ops@) =~= target.take(0));
    while i < facts.dependencies.len()
        invariant
            i <= facts.dependencies@.len(),
            target == node_manifest(rel@, facts@).ops,
            views(ops@) == target.take(i as int),
        decreases facts.dependencies@.len() - i,
    {
        let d = &facts.dependencies[i];
        let op = ManifestOp::Package(
            IndexedPackage {
                id: package_id("npm", d.name.as_str()),
                name: d.name.clone(),
                version: d.version.clone(),
                ecosystem: "npm".to_owned(),
                dependency_kind: d.kind.clone(),
            },
        );
        proof {
            take_next(target, i as int);
            assert(facts@.dependencies[i as int] == d@);
            assert(op@ == target[i as int]);
            views_push(ops@, op);
        }
        ops.push(op);
        i += 1;
    }
    proof {
        take_whole(target);
    }
    ManifestWrite { project, ops }
}

/// Parse a `package.json` into a [`ManifestWrite`].
pub fn parse_package_json_manifest(rel: &str, text: &str) -> (r: Result<ManifestWrite, SynapseError>)
    ensures
        r is Ok == parsed_json(text@) is Some,
        r matches Ok(m) ==> m@ == node_manifest(rel@, package_facts(parsed_json(text@)->0)),
        r matches Err(e) ==> e is Invalid && e.text() == "failed to parse package.json"@,
{
    match parse_package_json(text) {
        Ok(facts) => Ok(manifest_of_package_json(rel, &facts)),
        Err(e) => Err(e),
    }
}

/// The writes of one operation of the project `pid`.
pub open spec fn op_writes(pid: Seq<char>, op: ManifestOpView) -> Seq<StoreWrite> {
    match op {
        ManifestOpView::ProjectRef { target } => seq![StoreWrite::ReferencesProject(pid, target)],
        ManifestOpView::Package(p) => seq![StoreWrite::UpsertPackage(p), StoreWrite::UsesPackage(pid, p.id)],
    }
}

/// The writes of a manifest: its project, then its operations in document order.
pub open spec fn manifest_writes(m: ManifestView) -> Seq<StoreWrite> {
    seq![StoreWrite::UpsertProject(m.project)] + flat(m.ops, |op: ManifestOpView| op_writes(m.project.id, op))
}

/// Replay a parsed [`ManifestWrite`] against the store, in document order.
/// Returns the number of edges created (one per op).
pub fn write_manifest<S: GraphStore>(store: &mut S, manifest: &ManifestWrite) -> (r: Result<usize, SynapseError>)
    requires
        old(store).valid(),
    ensures
        final(store).valid(),
        S::infallible() ==> r is Ok,
        r matches Ok(n) ==> n == manifest@.ops.len() && final(store).history() == old(store).history()
            + manifest_writes(manifest@),
{
    let ghost h = store.history();
    let ghost ops = views(manifest.ops@);
    let ghost head = seq![StoreWrite::UpsertProject(manifest.project@)];
    let ghost each = |op: ManifestOpView| op_writes(manifest@.project.id, op);
    match store.upsert_project(manifest.project.clone()) {
        Ok(_) => {},
        Err(e) => {
            return Err(e);
        },
    }
    let pid = manifest.project.id.as_str();
    let mut i: usize = 0;
    proof {
        take_none(ops);
        assert(store.history() =~= h + (head + flat(ops.take(0), each)));
    }
    while i < manifest.ops.len()
        invariant
            i <= manifest.ops@.len(),
            ops == views(manifest.ops@),
            pid@ == manifest@.project.id,
            each == (|op: ManifestOpView| op_writes(manifest@.project.id, op)),
            store.valid(),
            store.history() == h + (head + flat(ops.take(i as int), each)),
        decreases manifest.ops@.len() - i,
    {
        let ghost before_op = flat(ops.take(i as int), each);
        proof {
            take_next(ops, i as int);
            assert(ops[i as int] == manifest.ops@[i as int]@);
        }
        match &manifest.ops[i] {
            ManifestOp::ProjectRef { target } => {
                match store.link_project_references_project(pid, target.as_str()) {
                    Ok(_) => {},
                    Err(e) => {
                        return Err(e);
                    },
                }
            },
            ManifestOp::Package(pkg) => {
                match store.upsert_package(pkg.clone()) {
                    Ok(_) => {},
                    Err(e) => {
                        return Err(e);
                    },
                }
                match store.link_project_uses_package(pid, pkg.id.as_str()) {
                    Ok(_) => {},
                    Err(e) => {
                        return Err(e);
                    },
                }
            },
        }
        proof {
            assert(flat(ops.take(i as int + 1), each) == before_op + op_writes(pid@, ops[i as int]));
            assert(store.history() =~= h + (head + flat(ops.take(i as int + 1), each)));
        }
        i += 1;
    }
    proof {
        take_whole(ops);
    }
    Ok(manifest.ops.len())
}

} // verus!
