//! What is read from an MSBuild document, said of its tags and texts.

use crate::indexer::dotnet::{
    after_event, after_events, attr_value, msbuild_facts, CsprojView, PackageRefView, ProgressView,
};
use crate::indexer::xml::{XmlAttrView, XmlEventView, XmlTagView};
use crate::lists::pick;
use crate::text::{lower, trim};
use vstd::prelude::*;

verus! {

proof fn names_differ()
    ensures
        "ProjectReference"@.len() == 16,
        "PackageReference"@.len() == 16,
        "ProjectReference"@ != "PackageReference"@,
        "PackageVersion"@.len() == 14,
        "Version"@.len() == 7,
        "ManagedPackageVersionsCentrally"@.len() == 31,
        "Include"@ != "Version"@,
{
    reveal_strlit("ProjectReference");
    reveal_strlit("PackageReference");
    reveal_strlit("PackageVersion");
    reveal_strlit("Version");
    reveal_strlit("ManagedPackageVersionsCentrally");
    reveal_strlit("Include");
    assert("ProjectReference"@[1] != "PackageReference"@[1]);
    assert("Include"@[0] != "Version"@[0]);
}

/// The tag of an element, opened or self-closing.
pub open spec fn tag_of(e: XmlEventView) -> Option<XmlTagView> {
    match e {
        XmlEventView::Start(t) => Some(t),
        XmlEventView::Empty(t) => Some(t),
        _ => None,
    }
}

/// The tag of an element with that name.
pub open spec fn is_tag(e: XmlEventView, name: Seq<char>) -> bool {
    tag_of(e) matches Some(t) && t.name == name
}

// --- attributes -----------------------------------------------------------------------------
/// An attribute that no broken one and no other with its key stands before has the
/// value it was given.
pub proof fn attribute_has_its_value(attrs: Seq<XmlAttrView>, i: int, want: Seq<char>, value: Option<Seq<char>>)
    requires
        0 <= i < attrs.len(),
        attrs[i] == (XmlAttrView::Pair { key: want, value }),
        forall|j: int| 0 <= j < i ==> (#[trigger] attrs[j] matches XmlAttrView::Pair { key, .. } && key != want),
    ensures
        attr_value(attrs, want) == value,
    decreases i,
{
    if i > 0 {
        let rest = attrs.drop_first();
        assert(rest[i - 1] == attrs[i]);
        assert forall|j: int| 0 <= j < i - 1 implies (#[trigger] rest[j] matches XmlAttrView::Pair { key, .. } && key
            != want) by {
            assert(rest[j] == attrs[j + 1]);
        }
        attribute_has_its_value(rest, i - 1, want, value);
        assert(attrs[0] matches XmlAttrView::Pair { key, .. } && key != want);
    }
}

/// An attribute that is not there has no value.
pub proof fn missing_attribute_has_none(attrs: Seq<XmlAttrView>, want: Seq<char>)
    requires
        forall|j: int| 0 <= j < attrs.len() ==> !(#[trigger] attrs[j] matches XmlAttrView::Pair { key, .. } && key == want),
    ensures
        attr_value(attrs, want) is None,
    decreases attrs.len(),
{
    if attrs.len() > 0 {
        let rest = attrs.drop_first();
        assert forall|j: int| 0 <= j < rest.len() implies !(#[trigger] rest[j] matches XmlAttrView::Pair { key, .. }
            && key == want) by {
            assert(rest[j] == attrs[j + 1]);
        }
        missing_attribute_has_none(rest, want);
        assert(!(attrs[0] matches XmlAttrView::Pair { key, .. } && key == want));
    }
}

// --- projects ---------------------------------------------------------------------------------
/// The path that an element refers to another project by.
pub open spec fn project_path(e: XmlEventView) -> Option<Seq<char>> {
    if is_tag(e, "ProjectReference"@) {
        attr_value(tag_of(e)->0.attrs, "Include"@)
    } else {
        None
    }
}

/// The project references of a document are the `Include`s of its `ProjectReference`
/// elements, opened or self-closing, in document order; nothing else is one.
pub proof fn project_references_are_the_includes(events: Seq<XmlEventView>)
    ensures
        msbuild_facts(events).project_references == pick(events, |e: XmlEventView| project_path(e)),
        after_events(events).data.project_references == pick(events, |e: XmlEventView| project_path(e)),
    decreases events.len(),
{
    names_differ();
    if events.len() > 0 {
        project_references_are_the_includes(events.drop_last());
    }
}

// --- packages ---------------------------------------------------------------------------------
/// A package element: a reference, or (`pin`) a central version.
pub open spec fn package_name(pin: bool) -> Seq<char> {
    if pin {
        "PackageVersion"@
    } else {
        "PackageReference"@
    }
}

pub open spec fn packages(d: CsprojView, pin: bool) -> Seq<PackageRefView> {
    if pin {
        d.package_versions
    } else {
        d.package_references
    }
}

/// The event opens or closes no package element.
pub open spec fn no_package(e: XmlEventView) -> bool {
    !is_tag(e, "PackageReference"@) && !is_tag(e, "PackageVersion"@) && e != XmlEventView::End("PackageReference"@)
        && e != XmlEventView::End("PackageVersion"@)
}

/// A self-closing package element records its package: the name of its `Include`, and
/// the version of its `Version` attribute, if it has one. Nothing else is recorded.
pub proof fn self_closing_package_is_recorded(before: Seq<XmlEventView>, t: XmlTagView, pin: bool)
    requires
        t.name == package_name(pin),
    ensures
        ({
            let was = after_events(before);
            let later = after_events(before.push(XmlEventView::Empty(t)));
            &&& packages(later.data, !pin) == packages(was.data, !pin)
            &&& packages(later.data, pin) == (match attr_value(t.attrs, "Include"@) {
                Some(name) => packages(was.data, pin).push(
                    PackageRefView { name, version: attr_value(t.attrs, "Version"@) },
                ),
                None => packages(was.data, pin),
            })
            &&& later.pending == was.pending
        }),
{
    names_differ();
    assert(before.push(XmlEventView::Empty(t)).drop_last() =~= before);
}

/// While a package element stays open, no event changes what is recorded of
/// packages, nor the name of the open one.
proof fn open_package_stays(before: Seq<XmlEventView>, inner: Seq<XmlEventView>, p: PackageRefView, pin: bool)
    requires
        after_events(before).pending == Some((p, pin)),
        !after_events(before).in_version,
        forall|i: int| 0 <= i < inner.len() ==> no_package(#[trigger] inner[i]),
    ensures
        ({
            let was = after_events(before);
            let later = after_events(before + inner);
            &&& later.data.package_references == was.data.package_references
            &&& later.data.package_versions == was.data.package_versions
            &&& later.pending matches Some((q, other)) && other == pin && q.name == p.name
            &&& (forall|i: int|
                0 <= i < inner.len() ==> !(#[trigger] inner[i] matches XmlEventView::Start(t) && t.name == "Version"@))
                ==> later.pending == Some((p, pin)) && !later.in_version
        }),
    decreases inner.len(),
{
    names_differ();
    if inner.len() == 0 {
        assert(before + inner =~= before);
    } else {
        let rest = inner.drop_last();
        let e = inner.last();
        assert(inner[inner.len() - 1] == e);
        assert forall|i: int| 0 <= i < rest.len() implies no_package(#[trigger] rest[i]) by {
            assert(rest[i] == inner[i]);
        }
        open_package_stays(before, rest, p, pin);
        assert((before + inner).drop_last() =~= before + rest);
        assert((before + inner).last() == e);
        if forall|i: int|
            0 <= i < inner.len() ==> !(#[trigger] inner[i] matches XmlEventView::Start(t) && t.name == "Version"@) {
            assert forall|i: int| 0 <= i < rest.len() implies !(#[trigger] rest[i] matches XmlEventView::Start(t)
                && t.name == "Version"@) by {
                assert(rest[i] == inner[i]);
            }
        }
    }
}

/// A package element with children records one package when it is closed, under the
/// name of its `Include`. Where none of the children is a `<Version>`, the version is
/// that of its `Version` attribute, whatever the other children and their texts are.
pub proof fn package_with_children_is_recorded(
    before: Seq<XmlEventView>,
    t: XmlTagView,
    inner: Seq<XmlEventView>,
    pin: bool,
    name: Seq<char>,
)
    requires
        t.name == package_name(pin),
        attr_value(t.attrs, "Include"@) == Some(name),
        !after_events(before).in_version,
        forall|i: int| 0 <= i < inner.len() ==> no_package(#[trigger] inner[i]),
    ensures
        ({
            let was = after_events(before).data;
            let later = after_events(
                before.push(XmlEventView::Start(t)) + inner.push(XmlEventView::End(package_name(pin))),
            );
            let now = packages(later.data, pin);
            &&& now.len() == packages(was, pin).len() + 1
            &&& now.drop_last() == packages(was, pin)
            &&& now.last().name == name
            &&& packages(later.data, !pin) == packages(was, !pin)
            &&& later.pending is None && !later.in_version
            &&& (forall|i: int|
                0 <= i < inner.len() ==> !(#[trigger] inner[i] matches XmlEventView::Start(c) && c.name == "Version"@))
                ==> now.last().version == attr_value(t.attrs, "Version"@)
        }),
{
    names_differ();
    let opened = before.push(XmlEventView::Start(t));
    assert(opened.drop_last() =~= before);
    let p = PackageRefView { name, version: attr_value(t.attrs, "Version"@) };
    assert(after_events(opened).pending == Some((p, pin)));
    open_package_stays(opened, inner, p, pin);
    let all = opened + inner.push(XmlEventView::End(package_name(pin)));
    assert(all.drop_last() =~= opened + inner);
    let now = packages(after_events(all).data, pin);
    assert(now.drop_last() =~= packages(after_events(before).data, pin));
}

/// A `<Version>` child with a text gives its package that text, without white space
/// around it, for its version, whatever its `Version` attribute says.
pub proof fn version_child_gives_the_version(
    before: Seq<XmlEventView>,
    t: XmlTagView,
    v: XmlTagView,
    text: Seq<char>,
    pin: bool,
    name: Seq<char>,
)
    requires
        t.name == package_name(pin),
        attr_value(t.attrs, "Include"@) == Some(name),
        v.name == "Version"@,
        trim(text).len() > 0,
    ensures
        packages(
            after_events(
                before + seq![
                    XmlEventView::Start(t),
                    XmlEventView::Start(v),
                    XmlEventView::Text(text),
                    XmlEventView::End("Version"@),
                    XmlEventView::End(package_name(pin)),
                ],
            ).data,
            pin,
        ) == packages(after_events(before).data, pin).push(PackageRefView { name, version: Some(trim(text)) }),
{
    names_differ();
    let e1 = before.push(XmlEventView::Start(t));
    let e2 = e1.push(XmlEventView::Start(v));
    let e3 = e2.push(XmlEventView::Text(text));
    let e4 = e3.push(XmlEventView::End("Version"@));
    let e5 = e4.push(XmlEventView::End(package_name(pin)));
    assert(e1.drop_last() =~= before);
    assert(e2.drop_last() =~= e1);
    assert(e3.drop_last() =~= e2);
    assert(e4.drop_last() =~= e3);
    assert(e5.drop_last() =~= e4);
    assert(after_events(e1) == after_event(after_events(before), XmlEventView::Start(t)));
    assert(after_events(e2) == after_event(after_events(e1), XmlEventView::Start(v)));
    assert(after_events(e3) == after_event(after_events(e2), XmlEventView::Text(text)));
    assert(after_events(e4) == after_event(after_events(e3), XmlEventView::End("Version"@)));
    assert(after_events(e5) == after_event(after_events(e4), XmlEventView::End(package_name(pin))));
    assert(before + seq![
        XmlEventView::Start(t),
        XmlEventView::Start(v),
        XmlEventView::Text(text),
        XmlEventView::End("Version"@),
        XmlEventView::End(package_name(pin)),
    ] =~= e5);
}

/// What is recorded stays recorded, in the order it was: more of a document only adds
/// to it.
pub proof fn recorded_packages_stay(before: Seq<XmlEventView>, after: Seq<XmlEventView>, pin: bool)
    ensures
        packages(after_events(before).data, pin).is_prefix_of(packages(after_events(before + after).data, pin)),
        packages(after_events(before).data, pin).is_prefix_of(packages(msbuild_facts(before + after), pin)),
    decreases after.len(),
{
    names_differ();
    let was = packages(after_events(before).data, pin);
    if after.len() == 0 {
        assert(before + after =~= before);
        assert(was.is_prefix_of(was)) by {
            assert(was =~= was.take(was.len() as int));
        }
        let later = packages(msbuild_facts(before), pin);
        assert(was =~= later.take(was.len() as int));
    } else {
        recorded_packages_stay(before, after.drop_last(), pin);
        let mid = packages(after_events(before + after.drop_last()).data, pin);
        assert((before + after).drop_last() =~= before + after.drop_last());
        let now = packages(after_events(before + after).data, pin);
        assert(now == mid || now.drop_last() =~= mid);
        assert(was =~= now.take(was.len() as int)) by {
            assert(was =~= mid.take(was.len() as int));
        }
        let later = packages(msbuild_facts(before + after), pin);
        assert(was =~= later.take(was.len() as int));
    }
}

/// The version that an attribute of an element with that name gives.
pub open spec fn given_by_attribute(events: Seq<XmlEventView>, p: PackageRefView, pin: bool) -> bool {
    exists|i: int|
        0 <= i < events.len() && is_tag(#[trigger] events[i], package_name(pin)) && attr_value(
            tag_of(events[i])->0.attrs,
            "Include"@,
        ) == Some(p.name) && attr_value(tag_of(events[i])->0.attrs, "Version"@) == p.version
}

/// A `<Version>` tag was opened at `i` and is not closed before `k`.
pub open spec fn version_open(events: Seq<XmlEventView>, i: int, k: int) -> bool {
    &&& 0 <= i < k <= events.len()
    &&& events[i] matches XmlEventView::Start(t) && t.name == "Version"@
    &&& forall|j: int| i < j < k ==> #[trigger] events[j] != XmlEventView::End("Version"@)
}

/// The version is the trimmed text within a `<Version>` element.
pub open spec fn given_by_child(events: Seq<XmlEventView>, p: PackageRefView) -> bool {
    exists|i: int, k: int| #[trigger]
        version_open(events, i, k) && k < events.len() && (events[k] matches XmlEventView::Text(text) && p.version
            == Some(trim(text)) && trim(text).len() > 0)
}

pub open spec fn named_by_tag(events: Seq<XmlEventView>, p: PackageRefView, pin: bool) -> bool {
    exists|i: int|
        0 <= i < events.len() && is_tag(#[trigger] events[i], package_name(pin)) && attr_value(
            tag_of(events[i])->0.attrs,
            "Include"@,
        ) == Some(p.name)
}

/// What a package is read from.
pub open spec fn well_founded(events: Seq<XmlEventView>, p: PackageRefView, pin: bool) -> bool {
    named_by_tag(events, p, pin) && (given_by_attribute(events, p, pin) || given_by_child(events, p))
}

proof fn founded_grows(events: Seq<XmlEventView>, p: PackageRefView, pin: bool, e: XmlEventView)
    requires
        well_founded(events, p, pin),
    ensures
        well_founded(events.push(e), p, pin),
{
    let more = events.push(e);
    let i = choose|i: int|
        0 <= i < events.len() && is_tag(#[trigger] events[i], package_name(pin)) && attr_value(
            tag_of(events[i])->0.attrs,
            "Include"@,
        ) == Some(p.name);
    assert(more[i] == events[i]);
    if given_by_attribute(events, p, pin) {
        let i = choose|i: int|
            0 <= i < events.len() && is_tag(#[trigger] events[i], package_name(pin)) && attr_value(
                tag_of(events[i])->0.attrs,
                "Include"@,
            ) == Some(p.name) && attr_value(tag_of(events[i])->0.attrs, "Version"@) == p.version;
        assert(more[i] == events[i]);
    } else {
        let (i, k) = choose|i: int, k: int| #[trigger]
            version_open(events, i, k) && k < events.len() && (events[k] matches XmlEventView::Text(text) && p.version
                == Some(trim(text)) && trim(text).len() > 0);
        assert(version_open(more, i, k)) by {
            assert forall|j: int| i < j < k implies #[trigger] more[j] != XmlEventView::End("Version"@) by {
                assert(more[j] == events[j]);
            }
        }
        assert(more[k] == events[k]);
    }
}

spec fn all_founded(events: Seq<XmlEventView>, list: Seq<PackageRefView>, pin: bool) -> bool {
    forall|i: int| 0 <= i < list.len() ==> well_founded(events, #[trigger] list[i], pin)
}

spec fn sound(events: Seq<XmlEventView>, s: ProgressView) -> bool {
    &&& all_founded(events, s.data.package_references, false)
    &&& all_founded(events, s.data.package_versions, true)
    &&& s.pending matches Some((p, pin)) ==> well_founded(events, p, pin)
    &&& s.in_version ==> exists|i: int| #[trigger] version_open(events, i, events.len() as int)
}

proof fn reading_is_sound(events: Seq<XmlEventView>)
    ensures
        sound(events, after_events(events)),
    decreases events.len(),
{
    names_differ();
    if events.len() > 0 {
        let before = events.drop_last();
        let e = events.last();
        reading_is_sound(before);
        let s = after_events(before);
        let r = after_events(events);
        assert(events =~= before.push(e));
        assert(events[events.len() - 1] == e);
        assert forall|p: PackageRefView, pin: bool| well_founded(before, p, pin) implies #[trigger] well_founded(
            events,
            p,
            pin,
        ) by {
            founded_grows(before, p, pin, e);
        }
        if s.in_version && e != XmlEventView::End("Version"@) {
            let i = choose|i: int| #[trigger] version_open(before, i, before.len() as int);
            assert(version_open(events, i, events.len() as int)) by {
                assert forall|j: int| i < j < events.len() implies #[trigger] events[j] != XmlEventView::End(
                    "Version"@,
                ) by {
                    if j < before.len() {
                        assert(events[j] == before[j]);
                    }
                }
            }
            assert(version_open(events, i, before.len() as int)) by {
                assert forall|j: int| i < j < before.len() implies #[trigger] events[j] != XmlEventView::End(
                    "Version"@,
                ) by {
                    assert(events[j] == before[j]);
                }
            }
        }
        if let XmlEventView::Start(t) = e {
            if t.name == "Version"@ {
                assert(version_open(events, events.len() - 1, events.len() as int));
            }
        }
        if let Some(t) = tag_of(e) {
            if t.name == "PackageReference"@ || t.name == "PackageVersion"@ {
                let pin = t.name == "PackageVersion"@;
                assert(is_tag(events[events.len() - 1], package_name(pin)));
                if let Some(name) = attr_value(t.attrs, "Include"@) {
                    let p = PackageRefView { name, version: attr_value(t.attrs, "Version"@) };
                    assert(well_founded(events, p, pin));
                }
            }
        }
        if let XmlEventView::Text(text) = e {
            if s.in_version && s.pending is Some && trim(text).len() > 0 {
                let (p, pin) = s.pending->0;
                let q = PackageRefView { version: Some(trim(text)), ..p };
                assert(well_founded(events, p, pin));
                let i = choose|i: int| #[trigger] version_open(before, i, before.len() as int);
                assert(version_open(events, i, before.len() as int));
                assert(given_by_child(events, q));
                let n = choose|n: int|
                    0 <= n < events.len() && is_tag(#[trigger] events[n], package_name(pin)) && attr_value(
                        tag_of(events[n])->0.attrs,
                        "Include"@,
                    ) == Some(p.name);
                assert(named_by_tag(events, q, pin));
                assert(well_founded(events, q, pin));
            }
        }
        assert(all_founded(events, r.data.package_references, false));
        assert(all_founded(events, r.data.package_versions, true));
    }
}

/// Every package of a document is named by the `Include` of a package element, and
/// its version is either the `Version` attribute of such an element or the text,
/// without white space around it, within a `<Version>` element.
pub proof fn every_version_is_given(events: Seq<XmlEventView>, pin: bool, i: int)
    requires
        0 <= i < packages(msbuild_facts(events), pin).len(),
    ensures
        well_founded(events, packages(msbuild_facts(events), pin)[i], pin),
{
    reading_is_sound(events);
    let s = after_events(events);
    let list = packages(s.data, pin);
    if i < list.len() {
        assert(well_founded(events, list[i], pin));
    }
}

// --- the switch -----------------------------------------------------------------------------------
/// Central management is switched on by the text `true` and off by any other, in any
/// case of letters; a document without the element leaves it open.
pub proof fn switch_is_read(before: Seq<XmlEventView>, t: XmlTagView, text: Seq<char>)
    requires
        t.name == "ManagedPackageVersionsCentrally"@,
        after_events(before).pending is None,
        trim(text).len() > 0,
    ensures
        after_events(before.push(XmlEventView::Start(t)).push(XmlEventView::Text(text))).data.cpm_enabled == Some(
            lower(trim(text)) == "true"@,
        ),
{
    names_differ();
    let e1 = before.push(XmlEventView::Start(t));
    let e2 = e1.push(XmlEventView::Text(text));
    assert(e1.drop_last() =~= before);
    assert(e2.drop_last() =~= e1);
    assert(after_events(e1) == after_event(after_events(before), XmlEventView::Start(t)));
    assert(after_events(e2) == after_event(after_events(e1), XmlEventView::Text(text)));
}

/// Without the element the switch is not set.
pub proof fn no_switch_is_none(events: Seq<XmlEventView>)
    requires
        forall|i: int|
            0 <= i < events.len() ==> !(#[trigger] events[i] matches XmlEventView::Start(t) && t.name
                == "ManagedPackageVersionsCentrally"@),
    ensures
        msbuild_facts(events).cpm_enabled is None,
        after_events(events).data.cpm_enabled is None,
        !after_events(events).in_cpm_flag,
    decreases events.len(),
{
    names_differ();
    if events.len() > 0 {
        let rest = events.drop_last();
        assert forall|i: int| 0 <= i < rest.len() implies !(#[trigger] rest[i] matches XmlEventView::Start(t) && t.name
            == "ManagedPackageVersionsCentrally"@) by {
            assert(rest[i] == events[i]);
        }
        no_switch_is_none(rest);
        assert(events[events.len() - 1] == events.last());
    }
}

} // verus!
