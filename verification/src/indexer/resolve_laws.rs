//! Which edges names, supertypes and imports lead to.

use crate::graph::model::{Language, PackageView, SymbolKind, SymbolView};
use crate::graph::store::StoreWrite;
use crate::indexer::facts::{FileImportsView, ReferenceView, SuperHint, SupertypeView};
use crate::indexer::resolve::{
    declared_in, dotted_prefix, due, file_import_writes, firsts, imported_package, in_project_dir, longest_prefix,
    longest_prefix_is_longest, names_in, path_id_order, position_order, super_write, super_writes, symbols_named,
    targets, usage_writes,
};
use crate::lists::{
    first, first_found, keep, keep_members, made, made_is_picked, pick, picked_from, text_le_transitive,
};
use crate::pack::selection_laws::lies_below;
use crate::pack::selector::under;
use crate::sorting::{sorted, stable_sort, stable_sort_keeps, stable_sort_sorted, total_preorder};
use crate::text::{before_last, stripped, text_lt_laws};
use vstd::prelude::*;

verus! {

// --- where a name is declared -------------------------------------------------------------------
proof fn position_order_total()
    ensures
        total_preorder(position_order()),
{
    let le = position_order();
    assert forall|a: SymbolView, b: SymbolView| #![trigger le(a, b)] le(a, b) || le(b, a) by {
        text_lt_laws(a.id, b.id, a.id);
    }
    assert forall|a: SymbolView, b: SymbolView, c: SymbolView|
        #![trigger le(a, b), le(b, c)]
        le(a, b) && le(b, c) implies le(a, c) by {
        if a.start_line == b.start_line && b.start_line == c.start_line && a.end_line == b.end_line && b.end_line
            == c.end_line {
            text_le_transitive(a.id, b.id, c.id);
        }
    }
}

proof fn named(all: Seq<SymbolView>, name: Seq<char>, s: SymbolView)
    ensures
        symbols_named(all, name).contains(s) <==> all.contains(s) && s.name == name,
{
    let p = |x: SymbolView| x.name == name;
    keep_members(all, p);
    stable_sort_keeps(keep(all, p), position_order());
}

/// A name is declared in a file where a symbol of that name and file is known; of
/// several, the one that starts first is meant.
pub proof fn declaration_is_the_first_in_the_file(all: Seq<SymbolView>, file: Seq<char>, name: Seq<char>, s: SymbolView)
    ensures
        declared_in(all, file, name) matches Some(d) ==> all.contains(d) && d.name == name && d.file_path == file,
        all.contains(s) && s.name == name && s.file_path == file ==> declared_in(all, file, name) is Some
            && declared_in(all, file, name)->0.start_line <= s.start_line,
{
    let list = symbols_named(all, name);
    let p = |x: SymbolView| x.file_path == file;
    first_found(list, p);
    if let Some(d) = declared_in(all, file, name) {
        named(all, name, d);
    }
    named(all, name, s);
    if all.contains(s) && s.name == name && s.file_path == file {
        let k = list.index_of(s);
        assert(p(list[k]));
        position_order_total();
        stable_sort_sorted(keep(all, |x: SymbolView| x.name == name), position_order());
        first_comes_first(list, p, k);
    }
}

/// What is found first stands at or before everything that passes.
proof fn first_comes_first(list: Seq<SymbolView>, p: spec_fn(SymbolView) -> bool, k: int)
    requires
        sorted(list, position_order()),
        0 <= k < list.len(),
        p(list[k]),
    ensures
        first(list, p) is Some,
        first(list, p)->0.start_line <= list[k].start_line,
    decreases list.len(),
{
    let rest = list.drop_last();
    assert forall|i: int, j: int| 0 <= i < j < rest.len() implies position_order()(
        #[trigger] rest[i],
        #[trigger] rest[j],
    ) by {
        assert(position_order()(list[i], list[j]));
    }
    if k < rest.len() {
        assert(rest[k] == list[k]);
        first_comes_first(rest, p, k);
    } else {
        if let Some(x) = first(rest, p) {
            first_found(rest, p);
            let i = rest.index_of(x);
            assert(list[i] == x);
            assert(position_order()(list[i], list[k]));
        }
    }
}

// --- what a name means ----------------------------------------------------------------------------
/// `t` is what is meant by `name` in `file`, other than the symbol `from`: it has
/// that name, and nothing nearer has. Nearest is the file itself, then what lies
/// below its directory, then everything.
pub open spec fn meant(all: Seq<SymbolView>, file: Seq<char>, from: Seq<char>, name: Seq<char>, t: SymbolView) -> bool {
    let dir = before_last(file, '/');
    &&& other(all, from, name, t)
    &&& t.file_path == file || (forall|s: SymbolView| #[trigger] other(all, from, name, s) ==> s.file_path != file)
    &&& t.file_path == file || in_project_dir(t.file_path, dir) || (forall|s: SymbolView| #[trigger]
        other(all, from, name, s) ==> !in_project_dir(s.file_path, dir))
}

/// A symbol of that name that is not the one with the id `from`.
pub open spec fn other(all: Seq<SymbolView>, from: Seq<char>, name: Seq<char>, s: SymbolView) -> bool {
    all.contains(s) && s.name == name && s.id != from
}

/// A name leads to exactly what is meant by it.
pub proof fn names_lead_to_what_is_meant(
    all: Seq<SymbolView>,
    file: Seq<char>,
    from: Seq<char>,
    name: Seq<char>,
    t: SymbolView,
)
    ensures
        targets(all, file, from, name).contains(t) <==> meant(all, file, from, name, t),
{
    let q = |s: SymbolView| s.id != from;
    let named_list = symbols_named(all, name);
    let cands = keep(named_list, q);
    keep_members(named_list, q);
    assert forall|s: SymbolView| cands.contains(s) <==> #[trigger] other(all, from, name, s) by {
        named(all, name, s);
    }
    let a = |s: SymbolView| s.file_path == file;
    let b = |s: SymbolView| in_project_dir(s.file_path, before_last(file, '/'));
    keep_members(cands, a);
    keep_members(cands, b);
    let here = keep(cands, a);
    let near = keep(cands, b);
    if here.len() > 0 {
        assert(here.contains(here[0]));
        assert(other(all, from, name, here[0]));
    } else {
        assert forall|s: SymbolView| #[trigger] other(all, from, name, s) implies s.file_path != file by {
            if s.file_path == file {
                assert(here.contains(s));
            }
        }
    }
    if near.len() > 0 {
        assert(near.contains(near[0]));
        assert(other(all, from, name, near[0]));
    } else {
        assert forall|s: SymbolView| #[trigger] other(all, from, name, s) implies !in_project_dir(
            s.file_path,
            before_last(file, '/'),
        ) by {
            if in_project_dir(s.file_path, before_last(file, '/')) {
                assert(near.contains(s));
            }
        }
    }
    assert(cands.contains(t) <==> other(all, from, name, t));
}

/// A file lies in a project's directory where its path goes on behind it with a slash
/// (or is the directory itself); the root directory counts for none.
pub proof fn project_directories(path: Seq<char>, dir: Seq<char>)
    ensures
        in_project_dir(path, dir) <==> dir.len() > 0 && (path == dir || lies_below(path, dir)),
{
    if under(path, dir) && dir.len() > 0 {
        let rest = stripped(path, dir)->0;
        let tail = rest.skip(1);
        assert(path =~= dir + seq!['/'] + tail);
    }
    if lies_below(path, dir) && dir.len() > 0 {
        let rest = choose|rest: Seq<char>| path == #[trigger] (dir + seq!['/'] + rest);
        assert(dir =~= path.take(dir.len() as int));
        assert(path.skip(dir.len() as int)[0] == '/');
    }
}

/// A usage leads from the declaration it stands in, if its file has one, to exactly
/// what is meant by the name that is used.
pub proof fn usages_lead_to_what_is_meant(all: Seq<SymbolView>, file: Seq<char>, r: ReferenceView, w: StoreWrite)
    ensures
        usage_writes(all, file, r).contains(w) <==> r.from.len() > 0 && declared_in(all, file, r.from) is Some && exists|
            t: SymbolView,
        | #[trigger]
            meant(all, file, declared_in(all, file, r.from)->0.id, r.to, t) && w == StoreWrite::References(
                declared_in(all, file, r.from)->0.id,
                t.id,
            ),
{
    if r.from.len() > 0 && declared_in(all, file, r.from) is Some {
        let from = declared_in(all, file, r.from)->0;
        let found = targets(all, file, from.id, r.to);
        let list = stable_sort(found, path_id_order());
        stable_sort_keeps(found, path_id_order());
        let ws = usage_writes(all, file, r);
        assert(declared_in(all, file, r.from) == Some(from));
        assert(ws == list.map_values(|t: SymbolView| StoreWrite::References(from.id, t.id)));
        assert(forall|t: SymbolView| list.contains(t) <==> #[trigger] found.contains(t));
        if ws.contains(w) {
            let k = ws.index_of(w);
            assert(list.contains(list[k]));
            assert(found.contains(list[k]));
            names_lead_to_what_is_meant(all, file, from.id, r.to, list[k]);
            assert(meant(all, file, from.id, r.to, list[k]));
        }
        if exists|t: SymbolView| #[trigger]
            meant(all, file, from.id, r.to, t) && w == StoreWrite::References(from.id, t.id) {
            let t = choose|t: SymbolView| #[trigger]
                meant(all, file, from.id, r.to, t) && w == StoreWrite::References(from.id, t.id);
            names_lead_to_what_is_meant(all, file, from.id, r.to, t);
            assert(found.contains(t));
            assert(list[list.index_of(t)] == t);
            assert(ws[list.index_of(t)] == w);
        }
    }
}

/// A supertype leads from the declared type to exactly what is meant by its name: as
/// an implementation where the source says so or, where it leaves that open, the
/// target is an interface or trait; as inheritance otherwise.
pub proof fn supertypes_lead_to_what_is_meant(all: Seq<SymbolView>, file: Seq<char>, st: SupertypeView, w: StoreWrite)
    ensures
        super_writes(all, file, st).contains(w) <==> declared_in(all, file, st.child) is Some && exists|t: SymbolView|
            #[trigger] meant(all, file, declared_in(all, file, st.child)->0.id, st.supertype, t) && w == (if st.hint
                == SuperHint::Implements || (st.hint == SuperHint::Unknown && (t.kind == SymbolKind::Interface || t.kind
                == SymbolKind::Trait)) {
                StoreWrite::Implements(declared_in(all, file, st.child)->0.id, t.id)
            } else {
                StoreWrite::Inherits(declared_in(all, file, st.child)->0.id, t.id)
            }),
{
    if declared_in(all, file, st.child) is Some {
        let child = declared_in(all, file, st.child)->0;
        let found = targets(all, file, child.id, st.supertype);
        let ws = super_writes(all, file, st);
        if ws.contains(w) {
            let k = ws.index_of(w);
            assert(found.contains(found[k]));
            names_lead_to_what_is_meant(all, file, child.id, st.supertype, found[k]);
            assert(meant(all, file, child.id, st.supertype, found[k]));
        }
        if exists|t: SymbolView| #[trigger]
            meant(all, file, child.id, st.supertype, t) && w == super_write(child, st.hint, t) {
            let t = choose|t: SymbolView| #[trigger]
                meant(all, file, child.id, st.supertype, t) && w == super_write(child, st.hint, t);
            names_lead_to_what_is_meant(all, file, child.id, st.supertype, t);
            assert(ws[found.index_of(t)] == w);
        }
        assert(forall|t: SymbolView| #[trigger] super_write(child, st.hint, t) == (if st.hint == SuperHint::Implements || (
        st.hint == SuperHint::Unknown && (t.kind == SymbolKind::Interface || t.kind == SymbolKind::Trait)) {
            StoreWrite::Implements(child.id, t.id)
        } else {
            StoreWrite::Inherits(child.id, t.id)
        }));
    }
}

// --- imports --------------------------------------------------------------------------------------
proof fn names_are(packages: Seq<PackageView>, ecosystem: Seq<char>, name: Seq<char>)
    ensures
        names_in(packages, ecosystem).contains(name) <==> exists|p: PackageView| #[trigger]
            packages.contains(p) && p.ecosystem == ecosystem && p.name == name,
{
    let f = |p: PackageView|
        if p.ecosystem == ecosystem {
            Some(p.name)
        } else {
            None
        };
    let list = names_in(packages, ecosystem);
    assert(list == pick(packages, f));
    if list.contains(name) {
        picked_from(packages, f);
        assert(made(packages, f, list[list.index_of(name)]));
        let p = choose|p: PackageView| #[trigger] packages.contains(p) && f(p) == Some(name);
        assert(packages.contains(p) && p.ecosystem == ecosystem && p.name == name);
    }
    if exists|p: PackageView| #[trigger] packages.contains(p) && p.ecosystem == ecosystem && p.name == name {
        let p = choose|p: PackageView| #[trigger] packages.contains(p) && p.ecosystem == ecosystem && p.name == name;
        assert(f(p) == Some(name));
        assert(made(packages, f, name));
        made_is_picked(packages, f, name);
    }
}

/// A namespace belongs to a package where it is called like it, or goes on behind its
/// name with a dot.
pub proof fn namespaces_go_on_with_a_dot(ns: Seq<char>, pkg: Seq<char>)
    ensures
        dotted_prefix(ns, pkg) <==> ns == pkg || exists|rest: Seq<char>| ns == #[trigger] (pkg + seq!['.'] + rest),
{
    if dotted_prefix(ns, pkg) && ns != pkg {
        let rest = ns.skip(pkg.len() as int + 1);
        assert(ns =~= pkg + seq!['.'] + rest);
    }
    if exists|rest: Seq<char>| ns == #[trigger] (pkg + seq!['.'] + rest) {
        let rest = choose|rest: Seq<char>| ns == #[trigger] (pkg + seq!['.'] + rest);
        assert(pkg =~= ns.take(pkg.len() as int));
    }
}

/// An import of a script leads to the npm package of that name, where one is known;
/// an import of C# to the NuGet package with the longest name that the namespace
/// belongs to; nothing else leads anywhere.
pub proof fn imports_lead_to_known_packages(packages: Seq<PackageView>, language: Language, import: Seq<char>)
    ensures
        ({
            let npm = names_in(packages, "npm"@);
            let nuget = names_in(packages, "nuget"@);
            let found = imported_package(npm, nuget, language, import);
            &&& language == Language::JavaScript || language == Language::TypeScript ==> found == (if exists|
                p: PackageView,
            | #[trigger] packages.contains(p) && p.ecosystem == "npm"@ && p.name == import {
                Some("pkg:"@ + "npm"@ + ":"@ + import)
            } else {
                None
            })
            &&& language == Language::CSharp ==> (match found {
                Some(id) => exists|p: PackageView| #[trigger]
                    packages.contains(p) && p.ecosystem == "nuget"@ && dotted_prefix(import, p.name) && id == "pkg:"@
                        + "nuget"@ + ":"@ + p.name && forall|o: PackageView| #[trigger]
                        packages.contains(o) && o.ecosystem == "nuget"@ && dotted_prefix(import, o.name) ==> o.name.len()
                            <= p.name.len(),
                None => forall|o: PackageView| #[trigger]
                    packages.contains(o) && o.ecosystem == "nuget"@ ==> !dotted_prefix(import, o.name),
            })
            &&& language != Language::JavaScript && language != Language::TypeScript && language != Language::CSharp
                ==> found is None
        }),
{
    let npm = names_in(packages, "npm"@);
    let nuget = names_in(packages, "nuget"@);
    names_are(packages, "npm"@, import);
    longest_prefix_is_longest(import, nuget);
    assert forall|o: PackageView| #[trigger]
        packages.contains(o) && o.ecosystem == "nuget"@ && dotted_prefix(import, o.name) implies longest_prefix(
        import,
        nuget,
    ) is Some && o.name.len() <= longest_prefix(import, nuget)->0.len() by {
        names_are(packages, "nuget"@, o.name);
        let k = nuget.index_of(o.name);
        assert(dotted_prefix(import, nuget[k]));
    }
    if let Some(n) = longest_prefix(import, nuget) {
        names_are(packages, "nuget"@, n);
        let p = choose|p: PackageView| #[trigger] packages.contains(p) && p.ecosystem == "nuget"@ && p.name == n;
        assert(packages.contains(p) && dotted_prefix(import, p.name));
    }
}

proof fn firsts_keep(s: Seq<Seq<char>>, x: Seq<char>)
    ensures
        firsts(s).contains(x) <==> s.contains(x),
        firsts(s).no_duplicates(),
    decreases s.len(),
{
    if s.len() > 0 {
        let rest = s.drop_last();
        let kept = firsts(rest);
        let y = s.last();
        firsts_keep(rest, x);
        firsts_keep(rest, y);
        assert(s[s.len() - 1] == y);
        if rest.contains(x) {
            assert(s[rest.index_of(x)] == x);
        }
        if s.contains(x) && x != y {
            let k = s.index_of(x);
            assert(rest[k] == x);
        }
        let all = firsts(s);
        if !kept.contains(y) {
            assert(all[kept.len() as int] == y);
            if kept.contains(x) {
                assert(all[kept.index_of(x)] == x);
            }
            if all.contains(x) && x != y {
                let k = all.index_of(x);
                assert(kept[k] == x);
            }
            assert forall|i: int, j: int| 0 <= i < all.len() && 0 <= j < all.len() && i != j implies all[i] != all[j] by {
                if i < kept.len() && j < kept.len() {
                    assert(kept[i] != kept[j]);
                } else if i < kept.len() {
                    assert(kept.contains(kept[i]));
                } else {
                    assert(kept.contains(kept[j]));
                }
            }
        }
    }
}

/// The edges of a file's imports are those to the packages its imports lead to, each
/// once.
pub proof fn import_edges_are(npm: Seq<Seq<char>>, nuget: Seq<Seq<char>>, f: FileImportsView, w: StoreWrite)
    ensures
        file_import_writes(npm, nuget, f).contains(w) <==> exists|i: Seq<char>| #[trigger]
            f.imports.contains(i) && imported_package(npm, nuget, f.language, i) is Some && w
                == StoreWrite::ImportsPackage(f.file_id, imported_package(npm, nuget, f.language, i)->0),
        file_import_writes(npm, nuget, f).no_duplicates(),
{
    let g = |i: Seq<char>| imported_package(npm, nuget, f.language, i);
    let ids = pick(f.imports, g);
    let once = firsts(ids);
    let ws = file_import_writes(npm, nuget, f);
    assert(ws.len() == once.len());
    firsts_keep(ids, Seq::empty());
    assert forall|i: int, j: int| 0 <= i < ws.len() && 0 <= j < ws.len() && i != j implies ws[i] != ws[j] by {
        assert(once[i] != once[j]);
    }
    if ws.contains(w) {
        let k = ws.index_of(w);
        firsts_keep(ids, once[k]);
        assert(once.contains(once[k]));
        picked_from(f.imports, g);
        assert(made(f.imports, g, ids[ids.index_of(once[k])]));
        let i = choose|i: Seq<char>| #[trigger] f.imports.contains(i) && g(i) == Some(once[k]);
        assert(f.imports.contains(i) && imported_package(npm, nuget, f.language, i) is Some);
    }
    if exists|i: Seq<char>| #[trigger]
        f.imports.contains(i) && imported_package(npm, nuget, f.language, i) is Some && w == StoreWrite::ImportsPackage(
            f.file_id,
            imported_package(npm, nuget, f.language, i)->0,
        ) {
        let i = choose|i: Seq<char>| #[trigger]
            f.imports.contains(i) && imported_package(npm, nuget, f.language, i) is Some && w
                == StoreWrite::ImportsPackage(f.file_id, imported_package(npm, nuget, f.language, i)->0);
        let id = g(i)->0;
        assert(made(f.imports, g, id));
        made_is_picked(f.imports, g, id);
        firsts_keep(ids, id);
        assert(ws[once.index_of(id)] == w);
    }
}

/// Progress is reported for every file of a small run, and for about every hundredth
/// part of a large one.
pub proof fn reports_come_about_every_percent(i: nat, total: nat)
    ensures
        total < 200 ==> due(i, total),
        total >= 200 ==> due(0, total),
        total >= 200 && i % (total / 100) != 0 ==> !due(i, total),
{
}

} // verus!
