//! What manifests say: of packages, projects and imports.

use crate::graph::model::Language;
use crate::graph::store::StoreWrite;
use crate::indexer::dotnet::{pins_of, CsprojView};
use crate::indexer::manifests::{
    applies, central_enabled, central_entries, central_entry, central_version, clean, clean_path, csproj_manifest,
    dir_depth, farthest_first, is_central_props_path, is_manifest_path, manifest_writes, node_manifest, op_writes,
    owns, resolved_reference, CentralEntryView, ManifestOpView, ManifestView, SourceTextView,
};
use crate::indexer::node::{
    deps, entries, kind_name_order, package_facts, script_order, scripts, NodeDepView, PackageJsonView,
};
use crate::indexer::tree_sitter::imports::package_root;
use crate::indexer::xml::xml_events;
use crate::json::{json_member, JsonEntryView, JsonView};
use crate::lists::{
    flat, flat_members, made, made_is_picked, makes, pick, picked_from, text_le_transitive,
};
use crate::pack::selection_laws::lies_below;
use crate::pack::selector::under;
use crate::paths::{file_name_of, join_path, stem_of};
use crate::sorting::{sorted, stable_sort_keeps, stable_sort_sorted};
use crate::text::{
    after_last, before_last, first_index_is, join, lower, replace_char, split, stripped, text_lt_laws,
};
use crate::text_laws::split_laws;
use vstd::prelude::*;

verus! {

// --- package.json ---------------------------------------------------------------------------------
/// The member `field` of the document is an object that gives `name` the text `value`.
pub open spec fn gives(doc: JsonView, field: Seq<char>, name: Seq<char>, value: Seq<char>) -> bool {
    json_member(doc, field) matches Some(JsonView::Object(es)) && es.contains(
        JsonEntryView { key: name, value: JsonView::Text(value) },
    )
}

proof fn deps_are(doc: JsonView, field: Seq<char>, kind: Seq<char>, d: NodeDepView)
    ensures
        deps(doc, field, kind).contains(d) <==> d.kind == kind && gives(doc, field, d.name, d.version),
{
    let f = |e: JsonEntryView|
        match e.value {
            JsonView::Text(version) => Some(NodeDepView { name: e.key, version, kind }),
            _ => None,
        };
    let es = entries(doc, field);
    let list = deps(doc, field, kind);
    assert(list == pick(es, f));
    if list.contains(d) {
        picked_from(es, f);
        assert(made(es, f, list[list.index_of(d)]));
        let e = choose|e: JsonEntryView| #[trigger] es.contains(e) && f(e) == Some(d);
        assert(e == (JsonEntryView { key: d.name, value: JsonView::Text(d.version) }));
    }
    if d.kind == kind && gives(doc, field, d.name, d.version) {
        let e = JsonEntryView { key: d.name, value: JsonView::Text(d.version) };
        assert(es.contains(e) && f(e) == Some(d));
        assert(made(es, f, d));
        made_is_picked(es, f, d);
    }
}

/// The dependencies of a package are exactly what its three maps of dependencies give
/// a version, each with the kind of its map; by kind and then by name.
pub proof fn dependencies_are_those_given(doc: JsonView, d: NodeDepView)
    ensures
        package_facts(doc).dependencies.contains(d) <==> (d.kind == "dependency"@ && gives(
            doc,
            "dependencies"@,
            d.name,
            d.version,
        )) || (d.kind == "devDependency"@ && gives(doc, "devDependencies"@, d.name, d.version)) || (d.kind
            == "peerDependency"@ && gives(doc, "peerDependencies"@, d.name, d.version)),
        sorted(package_facts(doc).dependencies, kind_name_order()),
{
    let a = deps(doc, "dependencies"@, "dependency"@);
    let b = deps(doc, "devDependencies"@, "devDependency"@);
    let c = deps(doc, "peerDependencies"@, "peerDependency"@);
    let all = a + b + c;
    deps_are(doc, "dependencies"@, "dependency"@, d);
    deps_are(doc, "devDependencies"@, "devDependency"@, d);
    deps_are(doc, "peerDependencies"@, "peerDependency"@, d);
    if a.contains(d) {
        assert(all[a.index_of(d)] == d);
    }
    if b.contains(d) {
        assert(all[a.len() + b.index_of(d)] == d);
    }
    if c.contains(d) {
        assert(all[a.len() + b.len() + c.index_of(d)] == d);
    }
    if all.contains(d) {
        let k = all.index_of(d);
        if k < a.len() {
            assert(a[k] == d);
        } else if k < a.len() + b.len() {
            assert(b[k - a.len()] == d);
        } else {
            assert(c[k - a.len() - b.len()] == d);
        }
    }
    stable_sort_keeps(all, kind_name_order());
    let le = kind_name_order();
    assert forall|a: NodeDepView, b: NodeDepView| #![trigger le(a, b)] le(a, b) || le(b, a) by {
        text_lt_laws(a.kind, b.kind, a.kind);
        text_lt_laws(a.name, b.name, a.name);
    }
    assert forall|a: NodeDepView, b: NodeDepView, c: NodeDepView|
        #![trigger le(a, b), le(b, c)]
        le(a, b) && le(b, c) implies le(a, c) by {
        text_lt_laws(a.kind, b.kind, c.kind);
        if a.kind == b.kind && b.kind == c.kind {
            text_le_transitive(a.name, b.name, c.name);
        }
    }
    stable_sort_sorted(all, le);
}

/// The name of a package is the text of its `name`; its scripts are the texts of its
/// `scripts`.
pub proof fn name_and_scripts_are_those_given(doc: JsonView, s: (Seq<char>, Seq<char>))
    ensures
        package_facts(doc).name == (match json_member(doc, "name"@) {
            Some(JsonView::Text(n)) => Some(n),
            _ => None,
        }),
        package_facts(doc).scripts.contains(s) <==> gives(doc, "scripts"@, s.0, s.1),
{
    let f = |e: JsonEntryView|
        match e.value {
            JsonView::Text(cmd) => Some((e.key, cmd)),
            _ => None,
        };
    let es = entries(doc, "scripts"@);
    let list = scripts(doc);
    assert(list == pick(es, f));
    stable_sort_keeps(list, script_order());
    if list.contains(s) {
        picked_from(es, f);
        assert(made(es, f, list[list.index_of(s)]));
        let e = choose|e: JsonEntryView| #[trigger] es.contains(e) && f(e) == Some(s);
        assert(e == (JsonEntryView { key: s.0, value: JsonView::Text(s.1) }));
    }
    if gives(doc, "scripts"@, s.0, s.1) {
        let e = JsonEntryView { key: s.0, value: JsonView::Text(s.1) };
        assert(es.contains(e) && f(e) == Some(s));
        assert(made(es, f, s));
        made_is_picked(es, f, s);
    }
}

/// A `package.json` makes a project of its own path, called by its name (or by its
/// directory), that uses every dependency as an npm package with the version given.
pub proof fn package_json_makes_a_project(rel: Seq<char>, facts: PackageJsonView, i: int)
    ensures
        ({
            let m = node_manifest(rel, facts);
            &&& m.project.id == "proj:"@ + rel
            &&& m.project.path == rel
            &&& m.project.kind == "node"@
            &&& facts.name matches Some(n) ==> m.project.name == n
            &&& facts.name is None ==> m.project.name == (match file_name_of(before_last(rel, '/')) {
                Some(d) => d,
                None => "package"@,
            })
            &&& m.ops.len() == facts.dependencies.len()
            &&& 0 <= i < facts.dependencies.len() ==> (m.ops[i] matches ManifestOpView::Package(p) && p.name
                == facts.dependencies[i].name && p.version == facts.dependencies[i].version && p.dependency_kind
                == facts.dependencies[i].kind && p.ecosystem == "npm"@ && p.id == "pkg:"@ + "npm"@ + ":"@
                + facts.dependencies[i].name)
        }),
{
}

// --- csproj ---------------------------------------------------------------------------------------
/// A `.csproj` makes a project of its own path, called by its stem, that references
/// every project it refers to, by the path below the root, and uses every package it
/// refers to as a NuGet package: with the version it gives, else with the central
/// one, else with none.
pub proof fn csproj_makes_a_project(rel: Seq<char>, facts: CsprojView, central: Seq<CentralEntryView>, i: int)
    ensures
        ({
            let m = csproj_manifest(rel, facts, central);
            let n = facts.project_references.len() as int;
            &&& m.project.id == "proj:"@ + rel
            &&& m.project.path == rel
            &&& m.project.language == Language::CSharp
            &&& stem_of(rel) matches Some(s) ==> m.project.name == s
            &&& m.project.kind == "dotnet"@ || m.project.kind == "dotnet (cpm)"@
            &&& m.project.kind == "dotnet (cpm)"@ <==> central_enabled(central, rel) || facts.package_versions.len() > 0
            &&& m.ops.len() == n + facts.package_references.len()
            &&& 0 <= i < n ==> m.ops[i] == (ManifestOpView::ProjectRef {
                target: "proj:"@ + resolved_reference(rel, facts.project_references[i]),
            })
            &&& 0 <= i < facts.package_references.len() ==> (m.ops[n + i] matches ManifestOpView::Package(p) && p.name
                == facts.package_references[i].name && p.ecosystem == "nuget"@ && p.dependency_kind == "package"@ && p.id
                == "pkg:"@ + "nuget"@ + ":"@ + p.name && p.version == (match facts.package_references[i].version {
                Some(v) => v,
                None => match central_version(central, rel, facts.package_references[i].name) {
                    Some(v) => v,
                    None => ""@,
                },
            }))
        }),
{
    reveal_strlit("dotnet");
    reveal_strlit("dotnet (cpm)");
    assert("dotnet"@.len() != "dotnet (cpm)"@.len());
}

/// Manifests are the files called `package.json` and those that end in `.csproj`.
pub proof fn manifests_are_told(a: Seq<char>)
    ensures
        is_manifest_path(a + ".csproj"@),
        is_manifest_path(a + "package.json"@),
{
    let p = a + ".csproj"@;
    let q = a + "package.json"@;
    assert(".csproj"@ =~= p.subrange(p.len() - ".csproj"@.len(), p.len() as int));
    assert("package.json"@ =~= q.subrange(q.len() - "package.json"@.len(), q.len() as int));
}

proof fn under_means_below(path: Seq<char>, dir: Seq<char>)
    ensures
        under(path, dir) <==> lies_below(path, dir),
{
    if under(path, dir) && dir.len() > 0 {
        let rest = stripped(path, dir)->0;
        let tail = rest.skip(1);
        assert(path =~= dir + seq!['/'] + tail);
    }
    if lies_below(path, dir) && dir.len() > 0 {
        let rest = choose|rest: Seq<char>| path == #[trigger] (dir + seq!['/'] + rest);
        assert(dir =~= path.take(dir.len() as int));
        assert(path.skip(dir.len() as int)[0] == '/');
    }
}

/// A manifest owns what lies below its directory, and a central file applies to what
/// lies below its own.
pub proof fn manifests_own_what_lies_below(manifest: Seq<char>, dir: Seq<char>, path: Seq<char>)
    ensures
        owns(manifest, path) <==> lies_below(path, before_last(manifest, '/')),
        applies(dir, path) <==> lies_below(path, dir),
{
    under_means_below(path, before_last(manifest, '/'));
    under_means_below(path, dir);
}

/// Central files are told by their names, in any case of letters and in any directory.
pub proof fn central_files_are_told(rel: Seq<char>)
    ensures
        is_central_props_path(rel) <==> lower(after_last(rel, '/')) == "directory.packages.props"@ || lower(
            after_last(rel, '/'),
        ) == "directory.build.props"@,
{
}

/// Every central file that can be read counts, for its own directory.
pub proof fn every_central_file_counts(files: Seq<SourceTextView>, i: int)
    requires
        0 <= i < files.len(),
        is_central_props_path(files[i].rel),
        !(xml_events(files[i].text).last() is Failed),
    ensures
        central_entries(files).contains(
            CentralEntryView {
                dir: before_last(files[i].rel, '/'),
                pins: pins_of(
                    crate::indexer::dotnet::msbuild_facts(xml_events(files[i].text).drop_last()).package_versions,
                ),
                cpm_enabled: crate::indexer::dotnet::msbuild_facts(xml_events(files[i].text).drop_last()).cpm_enabled,
            },
        ),
        sorted(central_entries(files), farthest_first()),
{
    let f = |f: SourceTextView|
        if is_central_props_path(f.rel) && !(xml_events(f.text).last() is Failed) {
            Some(central_entry(f.rel, crate::indexer::dotnet::msbuild_facts(xml_events(f.text).drop_last())))
        } else {
            None
        };
    let all = pick(files, f);
    let e = f(files[i])->0;
    assert(files.contains(files[i]));
    assert(made(files, f, e));
    made_is_picked(files, f, e);
    stable_sort_keeps(all, farthest_first());
    let le = farthest_first();
    assert forall|a: CentralEntryView, b: CentralEntryView| #![trigger le(a, b)] le(a, b) || le(b, a) by {
        text_lt_laws(a.dir, b.dir, a.dir);
    }
    assert forall|a: CentralEntryView, b: CentralEntryView, c: CentralEntryView|
        #![trigger le(a, b), le(b, c)]
        le(a, b) && le(b, c) implies le(a, c) by {
        if dir_depth(a.dir) == dir_depth(b.dir) && dir_depth(b.dir) == dir_depth(c.dir) {
            text_le_transitive(a.dir, b.dir, c.dir);
        }
    }
    stable_sort_sorted(all, le);
}

/// The nearest central file above a project that sets the switch decides whether its
/// versions are managed centrally; without one they are not.
pub proof fn nearest_switch_decides(central: Seq<CentralEntryView>, csproj: Seq<char>)
    requires
        sorted(central, farthest_first()),
    ensures
        (forall|i: int|
            0 <= i < central.len() ==> !(applies((#[trigger] central[i]).dir, csproj) && central[i].cpm_enabled is Some))
            ==> !central_enabled(central, csproj),
        (exists|i: int|
            0 <= i < central.len() && applies((#[trigger] central[i]).dir, csproj) && central[i].cpm_enabled is Some)
            ==> exists|i: int|
            0 <= i < central.len() && applies((#[trigger] central[i]).dir, csproj) && central[i].cpm_enabled == Some(
                central_enabled(central, csproj),
            ) && forall|j: int|
                0 <= j < central.len() && applies((#[trigger] central[j]).dir, csproj) && central[j].cpm_enabled is Some
                    ==> dir_depth(central[j].dir) <= dir_depth(central[i].dir),
    decreases central.len(),
{
    if central.len() > 0 {
        let rest = central.drop_last();
        let n = central.len() - 1;
        assert(central[n] == central.last());
        assert forall|i: int, j: int| 0 <= i < j < rest.len() implies farthest_first()(
            #[trigger] rest[i],
            #[trigger] rest[j],
        ) by {
            assert(farthest_first()(central[i], central[j]));
        }
        nearest_switch_decides(rest, csproj);
        if applies(central[n].dir, csproj) && central[n].cpm_enabled is Some {
            assert forall|j: int|
                0 <= j < central.len() && applies((#[trigger] central[j]).dir, csproj) && central[j].cpm_enabled
                    is Some implies dir_depth(central[j].dir) <= dir_depth(central[n].dir) by {
                if j < n {
                    assert(farthest_first()(central[j], central[n]));
                }
            }
        } else {
            if exists|i: int|
                0 <= i < central.len() && applies((#[trigger] central[i]).dir, csproj) && central[i].cpm_enabled is Some {
                let k = choose|i: int|
                    0 <= i < central.len() && applies((#[trigger] central[i]).dir, csproj) && central[i].cpm_enabled
                        is Some;
                assert(rest[k] == central[k]);
                let i = choose|i: int|
                    0 <= i < rest.len() && applies((#[trigger] rest[i]).dir, csproj) && rest[i].cpm_enabled == Some(
                        central_enabled(rest, csproj),
                    ) && forall|j: int|
                        0 <= j < rest.len() && applies((#[trigger] rest[j]).dir, csproj) && rest[j].cpm_enabled is Some
                            ==> dir_depth(rest[j].dir) <= dir_depth(rest[i].dir);
                assert(central[i] == rest[i]);
                assert forall|j: int|
                    0 <= j < central.len() && applies((#[trigger] central[j]).dir, csproj) && central[j].cpm_enabled
                        is Some implies dir_depth(central[j].dir) <= dir_depth(central[i].dir) by {
                    assert(rest[j] == central[j]);
                }
            } else {
                assert forall|i: int| 0 <= i < rest.len() implies !(applies((#[trigger] rest[i]).dir, csproj)
                    && rest[i].cpm_enabled is Some) by {
                    assert(rest[i] == central[i]);
                }
            }
        }
    }
}

/// What a manifest writes: its project, and of every package a node and an edge.
pub proof fn manifest_writes_are(m: ManifestView, i: int)
    requires
        0 <= i < m.ops.len(),
    ensures
        manifest_writes(m).contains(StoreWrite::UpsertProject(m.project)),
        m.ops[i] matches ManifestOpView::Package(p) ==> manifest_writes(m).contains(StoreWrite::UpsertPackage(p))
            && manifest_writes(m).contains(StoreWrite::UsesPackage(m.project.id, p.id)),
        m.ops[i] matches ManifestOpView::ProjectRef { target } ==> manifest_writes(m).contains(
            StoreWrite::ReferencesProject(m.project.id, target),
        ),
{
    let f = |op: ManifestOpView| op_writes(m.project.id, op);
    let all = manifest_writes(m);
    let tail = flat(m.ops, f);
    assert(all[0] == StoreWrite::UpsertProject(m.project));
    assert(m.ops.contains(m.ops[i]));
    match m.ops[i] {
        ManifestOpView::Package(p) => {
            let a = StoreWrite::UpsertPackage(p);
            let b = StoreWrite::UsesPackage(m.project.id, p.id);
            assert(f(m.ops[i])[0] == a && f(m.ops[i])[1] == b);
            assert(m.ops.contains(m.ops[i]) && f(m.ops[i]).contains(a));
            assert(makes(m.ops, f, a));
            flat_members(m.ops, f, a);
            assert(all[1 + tail.index_of(a)] == a);
            assert(m.ops.contains(m.ops[i]) && f(m.ops[i]).contains(b));
            assert(makes(m.ops, f, b));
            flat_members(m.ops, f, b);
            assert(all[1 + tail.index_of(b)] == b);
        },
        ManifestOpView::ProjectRef { target } => {
            let a = StoreWrite::ReferencesProject(m.project.id, target);
            assert(f(m.ops[i])[0] == a);
            assert(m.ops.contains(m.ops[i]) && f(m.ops[i]).contains(a));
            assert(makes(m.ops, f, a));
            flat_members(m.ops, f, a);
            assert(all[1 + tail.index_of(a)] == a);
        },
    }
}

// --- paths ----------------------------------------------------------------------------------------
/// A path is cleaned part by part: a plain part stays, an empty one or a dot goes,
/// and two dots take the part before them with them.
pub proof fn cleaning_goes_part_by_part(parts: Seq<Seq<char>>, p: Seq<char>)
    ensures
        p != ""@ && p != "."@ && p != ".."@ ==> clean(parts.push(p)) == clean(parts).push(p) && clean(
            parts.push(p).push(".."@),
        ) == clean(parts),
        clean(parts.push("."@)) == clean(parts),
        clean(parts.push(""@)) == clean(parts),
        (forall|i: int|
            0 <= i < parts.len() ==> (#[trigger] parts[i]) != ""@ && parts[i] != "."@ && parts[i] != ".."@) ==> clean(
            parts,
        ) == parts,
    decreases parts.len(),
{
    reveal_strlit("");
    reveal_strlit(".");
    reveal_strlit("..");
    assert(".."@.len() == 2 && "."@.len() == 1);
    assert(parts.push(p).drop_last() =~= parts);
    assert(parts.push("."@).drop_last() =~= parts);
    assert(parts.push(""@).drop_last() =~= parts);
    let two = parts.push(p).push(".."@);
    assert(two.drop_last() =~= parts.push(p));
    assert(clean(parts.push(p)) == clean(parts.push(p)));
    if p != ""@ && p != "."@ && p != ".."@ {
        assert(clean(parts).push(p).drop_last() =~= clean(parts));
        assert(clean(two) == clean(parts.push(p)).drop_last());
    }
    if parts.len() > 0 {
        let rest = parts.drop_last();
        cleaning_goes_part_by_part(rest, p);
        if forall|i: int|
            0 <= i < parts.len() ==> (#[trigger] parts[i]) != ""@ && parts[i] != "."@ && parts[i] != ".."@ {
            assert forall|i: int| 0 <= i < rest.len() implies (#[trigger] rest[i]) != ""@ && rest[i] != "."@ && rest[i]
                != ".."@ by {
                assert(rest[i] == parts[i]);
            }
            assert(parts[parts.len() - 1] == parts.last());
            assert(rest.push(parts.last()) =~= parts);
        }
    }
}

/// A reference of a manifest is read from the manifest's own directory, with either
/// slash.
pub proof fn references_are_read_from_the_manifest(rel: Seq<char>, reference: Seq<char>)
    ensures
        resolved_reference(rel, reference) == clean_path(
            join_path(before_last(rel, '/'), replace_char(reference, '\\', '/')),
        ),
        clean_path(reference) == join(clean(split(replace_char(reference, '\\', '/'), '/')), "/"@),
        resolved_reference(rel, reference) == resolved_reference(rel, replace_char(reference, '\\', '/')),
{
    let r = replace_char(reference, '\\', '/');
    assert(replace_char(r, '\\', '/') =~= r);
}

// --- imports --------------------------------------------------------------------------------------
proof fn first_part(a: Seq<char>, rest: Seq<char>)
    requires
        !a.contains('/'),
    ensures
        split(a + seq!['/'] + rest, '/') == seq![a] + split(rest, '/'),
        split(a, '/') == seq![a],
{
    let s = a + seq!['/'] + rest;
    assert forall|j: int| 0 <= j < a.len() implies a[j] != '/' by {
        assert(a.contains(a[j]));
    }
    first_index_is(s, '/', a.len() as int);
    assert(s.take(a.len() as int) =~= a);
    assert(s.skip(a.len() as int + 1) =~= rest);
    first_index_is(a, '/', a.len() as int);
}

/// What is imported is a package by its name, with its scope where it has one, and
/// without what is below it; a relative or absolute path is no package.
pub proof fn imports_name_packages(a: Seq<char>, b: Seq<char>, rest: Seq<char>)
    requires
        a.len() > 0,
        !a.contains('/'),
        !b.contains('/'),
    ensures
        a[0] != '@' && a[0] != '.' ==> package_root(a) == Some(a) && package_root(a + seq!['/'] + rest) == Some(a),
        a[0] == '@' ==> package_root(a + seq!['/'] + b) == Some(a + seq!['/'] + b) && package_root(
            a + seq!['/'] + b + seq!['/'] + rest,
        ) == Some(a + seq!['/'] + b),
        a[0] == '.' ==> package_root(a) is None && package_root(a + seq!['/'] + rest) is None,
        package_root(seq!['/'] + rest) is None,
{
    reveal_strlit("/");
    assert("/"@ =~= seq!['/']);
    assert(a.contains(a[0]));
    first_part(a, rest);
    first_part(a, b);
    first_part(b, rest);
    let s = a + seq!['/'] + b + seq!['/'] + rest;
    assert(s =~= a + seq!['/'] + (b + seq!['/'] + rest));
    first_part(a, b + seq!['/'] + rest);
    split_laws(rest, '/');
    assert(split(a + seq!['/'] + b, '/')[0] == a && split(a + seq!['/'] + b, '/')[1] == b);
    assert(split(s, '/')[0] == a && split(s, '/')[1] == b);
    assert((a + seq!['/'] + rest)[0] == a[0]);
    assert((a + seq!['/'] + b)[0] == a[0]);
    assert(s[0] == a[0]);
    assert((seq!['/'] + rest)[0] == '/');
}

} // verus!
