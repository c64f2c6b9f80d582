//! Parsing of `.csproj` MSBuild project files into the dependency facts the
//! indexer cares about: project-to-project references and NuGet package
//! references.
//!
//! `.csproj` files are XML, read as a stream of events: that is robust to the
//! wide variety of hand-edited and tool-generated layouts seen in the wild
//! (self-closing vs. nested elements, arbitrary attribute ordering).
//!
//! Two shapes of `PackageReference` are supported: with the version as an
//! attribute, and with the version as a `<Version>` child element.
//!
//! Ordering is preserved in document order; de-duplication is left to the caller.

use crate::errors::SynapseError;
use crate::indexer::xml::{
    events_left, is_last, new_reader, next_event, stops_once, xml_events, XmlAttr, XmlAttrView, XmlEvent, XmlEventView,
    XmlTag, XmlTagView,
};
use crate::lists::views_push;
use crate::text::{ascii_lowercase, clone_opt, lower, opt_view, same, trim, trimmed, views};
use vstd::prelude::*;

verus! {

/// A single NuGet package reference.
#[derive(Debug)]
pub struct PackageRef {
    /// Package id, taken from the `Include` attribute.
    pub name: String,
    /// Package version, from the `Version` attribute or a child `<Version>`
    /// element. `None` when neither is present (e.g. central package
    /// management, where versions live in `Directory.Packages.props`).
    pub version: Option<String>,
}

pub struct PackageRefView {
    pub name: Seq<char>,
    pub version: Option<Seq<char>>,
}

impl View for PackageRef {
    type V = PackageRefView;

    open spec fn view(&self) -> PackageRefView {
        PackageRefView { name: self.name@, version: opt_view(self.version) }
    }
}

impl Clone for PackageRef {
    fn clone(&self) -> (r: Self)
        ensures
            r@ == self@,
    {
        PackageRef { name: self.name.clone(), version: clone_opt(&self.version) }
    }
}

/// Parsed dependency facts extracted from a single `.csproj` file.
#[derive(Debug)]
pub struct CsprojData {
    /// Raw `Include` values of every `<ProjectReference>` (typically relative
    /// paths to other `.csproj` files), in document order.
    pub project_references: Vec<String>,
    /// Every `<PackageReference>` (NuGet dependency), in document order.
    pub package_references: Vec<PackageRef>,
    /// Every `<PackageVersion>` (Central Package Management version pin), in
    /// document order. Populated mainly from `Directory.Packages.props`, but a
    /// `.csproj`/`.props` may carry them too.
    pub package_versions: Vec<PackageRef>,
    /// Value of `<ManagedPackageVersionsCentrally>` if present (the flag that
    /// enables Central Package Management). `Some(true)` when explicitly enabled,
    /// `Some(false)` when disabled.
    pub cpm_enabled: Option<bool>,
}

pub struct CsprojView {
    pub project_references: Seq<Seq<char>>,
    pub package_references: Seq<PackageRefView>,
    pub package_versions: Seq<PackageRefView>,
    pub cpm_enabled: Option<bool>,
}

impl View for CsprojData {
    type V = CsprojView;

    open spec fn view(&self) -> CsprojView {
        CsprojView {
            project_references: views(self.project_references@),
            package_references: views(self.package_references@),
            package_versions: views(self.package_versions@),
            cpm_enabled: self.cpm_enabled,
        }
    }
}

pub open spec fn no_data() -> CsprojView {
    CsprojView {
        project_references: Seq::empty(),
        package_references: Seq::empty(),
        package_versions: Seq::empty(),
        cpm_enabled: None,
    }
}

impl Default for CsprojData {
    fn default() -> (r: Self)
        ensures
            r@ == no_data(),
    {
        let r = CsprojData {
            project_references: Vec::new(),
            package_references: Vec::new(),
            package_versions: Vec::new(),
            cpm_enabled: None,
        };
        assert(r@.project_references =~= Seq::<Seq<char>>::empty());
        assert(r@.package_references =~= Seq::<PackageRefView>::empty());
        assert(r@.package_versions =~= Seq::<PackageRefView>::empty());
        r
    }
}

/// What has been read so far.
pub struct Progress {
    pub data: CsprojData,
    /// A package element that is still open and may yet get its version from a
    /// `<Version>` child; `true` marks a `<PackageVersion>`.
    pub pending: Option<(PackageRef, bool)>,
    /// Inside the `<Version>` child of the pending package.
    pub in_version: bool,
    /// Inside `<ManagedPackageVersionsCentrally>`.
    pub in_cpm_flag: bool,
}

pub struct ProgressView {
    pub data: CsprojView,
    pub pending: Option<(PackageRefView, bool)>,
    pub in_version: bool,
    pub in_cpm_flag: bool,
}

impl View for Progress {
    type V = ProgressView;

    open spec fn view(&self) -> ProgressView {
        ProgressView {
            data: self.data@,
            pending: match self.pending {
                Some((p, v)) => Some((p@, v)),
                None => None,
            },
            in_version: self.in_version,
            in_cpm_flag: self.in_cpm_flag,
        }
    }
}

/// The value of an attribute: of the first with that key, as long as everything
/// before it could be read.
pub open spec fn attr_value(attrs: Seq<XmlAttrView>, want: Seq<char>) -> Option<Seq<char>>
    decreases attrs.len(),
{
    if attrs.len() == 0 {
        None
    } else {
        match attrs[0] {
            XmlAttrView::Broken => None,
            XmlAttrView::Pair { key, value } => if key == want {
                value
            } else {
                attr_value(attrs.drop_first(), want)
            },
        }
    }
}

pub open spec fn with_project(d: CsprojView, path: Option<Seq<char>>) -> CsprojView {
    match path {
        Some(p) => CsprojView { project_references: d.project_references.push(p), ..d },
        None => d,
    }
}

/// The facts with one more package (`pin`: a `<PackageVersion>`).
pub open spec fn with_package(d: CsprojView, p: PackageRefView, pin: bool) -> CsprojView {
    if pin {
        CsprojView { package_versions: d.package_versions.push(p), ..d }
    } else {
        CsprojView { package_references: d.package_references.push(p), ..d }
    }
}

/// The package that a tag names, if it has an `Include` attribute.
pub open spec fn tagged_package(t: XmlTagView) -> Option<PackageRefView> {
    match attr_value(t.attrs, "Include"@) {
        Some(name) => Some(PackageRefView { name, version: attr_value(t.attrs, "Version"@) }),
        None => None,
    }
}

/// A self-closing tag carries everything in its attributes.
pub open spec fn after_empty(s: ProgressView, t: XmlTagView) -> ProgressView {
    if t.name == "ProjectReference"@ {
        ProgressView { data: with_project(s.data, attr_value(t.attrs, "Include"@)), ..s }
    } else if t.name == "PackageReference"@ || t.name == "PackageVersion"@ {
        match tagged_package(t) {
            Some(p) => ProgressView { data: with_package(s.data, p, t.name == "PackageVersion"@), ..s },
            None => s,
        }
    } else {
        s
    }
}

/// An opening tag of a package leaves it pending until it is closed.
pub open spec fn after_start(s: ProgressView, t: XmlTagView) -> ProgressView {
    if t.name == "ProjectReference"@ {
        ProgressView { data: with_project(s.data, attr_value(t.attrs, "Include"@)), ..s }
    } else if t.name == "PackageReference"@ || t.name == "PackageVersion"@ {
        match tagged_package(t) {
            Some(p) => ProgressView { pending: Some((p, t.name == "PackageVersion"@)), ..s },
            None => s,
        }
    } else if t.name == "Version"@ && s.pending is Some {
        ProgressView { in_version: true, ..s }
    } else if t.name == "ManagedPackageVersionsCentrally"@ {
        ProgressView { in_cpm_flag: true, ..s }
    } else {
        s
    }
}

/// Text is the version of the pending package, or the value of the flag.
pub open spec fn after_text(s: ProgressView, text: Seq<char>) -> ProgressView {
    let v = trim(text);
    if s.in_version && s.pending is Some {
        if v.len() > 0 {
            let (p, pin) = s.pending->0;
            ProgressView { pending: Some((PackageRefView { version: Some(v), ..p }, pin)), ..s }
        } else {
            s
        }
    } else if s.in_cpm_flag && v.len() > 0 {
        ProgressView { data: CsprojView { cpm_enabled: Some(lower(v) == "true"@), ..s.data }, ..s }
    } else {
        s
    }
}

/// The pending package, if any, is recorded.
pub open spec fn flushed(s: ProgressView) -> CsprojView {
    match s.pending {
        Some((p, pin)) => with_package(s.data, p, pin),
        None => s.data,
    }
}

pub open spec fn after_end(s: ProgressView, name: Seq<char>) -> ProgressView {
    if name == "Version"@ {
        ProgressView { in_version: false, ..s }
    } else if name == "ManagedPackageVersionsCentrally"@ {
        ProgressView { in_cpm_flag: false, ..s }
    } else if name == "PackageReference"@ || name == "PackageVersion"@ {
        ProgressView { data: flushed(s), pending: None, in_version: false, ..s }
    } else {
        s
    }
}

pub open spec fn after_event(s: ProgressView, e: XmlEventView) -> ProgressView {
    match e {
        XmlEventView::Start(t) => after_start(s, t),
        XmlEventView::Empty(t) => after_empty(s, t),
        XmlEventView::Text(text) => after_text(s, text),
        XmlEventView::End(name) => after_end(s, name),
        _ => s,
    }
}

pub open spec fn nothing_read() -> ProgressView {
    ProgressView { data: no_data(), pending: None, in_version: false, in_cpm_flag: false }
}

/// What has been read after all of the events.
pub open spec fn after_events(events: Seq<XmlEventView>) -> ProgressView
    decreases events.len(),
{
    if events.len() == 0 {
        nothing_read()
    } else {
        after_event(after_events(events.drop_last()), events.last())
    }
}

/// The facts of a document that was read to its end.
pub open spec fn msbuild_facts(events: Seq<XmlEventView>) -> CsprojView {
    flushed(after_events(events))
}

fn find_attr(attrs: &Vec<XmlAttr>, want: &str) -> (r: Option<String>)
    ensures
        opt_view(r) == attr_value(views(attrs@), want@),
{
    let ghost all = views(attrs@);
    let mut i: usize = 0;
    assert(all.skip(0) =~= all);
    while i < attrs.len()
        invariant
            i <= attrs@.len(),
            all == views(attrs@),
            attr_value(all, want@) == attr_value(all.skip(i as int), want@),
        decreases attrs@.len() - i,
    {
        assert(all.skip(i as int).drop_first() =~= all.skip(i as int + 1));
        assert(all.skip(i as int)[0] == attrs@[i as int]@);
        match &attrs[i] {
            XmlAttr::Broken => {
                return None;
            },
            XmlAttr::Pair { key, value } => {
                if same(key.as_str(), want) {
                    return clone_opt(value);
                }
            },
        }
        i += 1;
    }
    None
}

fn package_of(t: &XmlTag) -> (r: Option<PackageRef>)
    ensures
        opt_view(r) == tagged_package(t@),
{
    match find_attr(&t.attrs, "Include") {
        Some(name) => Some(PackageRef { name, version: find_attr(&t.attrs, "Version") }),
        None => None,
    }
}

impl CsprojData {
    fn add_project(&mut self, path: Option<String>)
        ensures
            final(self)@ == with_project(old(self)@, opt_view(path)),
    {
        match path {
            Some(p) => {
                proof {
                    views_push(self.project_references@, p);
                }
                self.project_references.push(p);
            },
            None => {},
        }
    }

    fn add_package(&mut self, p: PackageRef, pin: bool)
        ensures
            final(self)@ == with_package(old(self)@, p@, pin),
    {
        if pin {
            proof {
                views_push(self.package_versions@, p);
            }
            self.package_versions.push(p);
        } else {
            proof {
                views_push(self.package_references@, p);
            }
            self.package_references.push(p);
        }
    }
}

impl Progress {
    fn start() -> (r: Progress)
        ensures
            r@ == nothing_read(),
    {
        Progress { data: CsprojData::default(), pending: None, in_version: false, in_cpm_flag: false }
    }

    /// Takes in an opening tag.
    fn open_tag(&mut self, t: &XmlTag)
        ensures
            final(self)@ == after_start(old(self)@, t@),
    {
        let name = t.name.as_str();
        if same(name, "ProjectReference") {
            self.data.add_project(find_attr(&t.attrs, "Include"));
        } else if same(name, "PackageReference") || same(name, "PackageVersion") {
            match package_of(t) {
                Some(p) => {
                    self.pending = Some((p, same(name, "PackageVersion")));
                },
                None => {},
            }
        } else if same(name, "Version") && self.pending.is_some() {
            self.in_version = true;
        } else if same(name, "ManagedPackageVersionsCentrally") {
            self.in_cpm_flag = true;
        }
    }

    /// Takes in a self-closing tag.
    fn empty_tag(&mut self, t: &XmlTag)
        ensures
            final(self)@ == after_empty(old(self)@, t@),
    {
        let name = t.name.as_str();
        if same(name, "ProjectReference") {
            self.data.add_project(find_attr(&t.attrs, "Include"));
        } else if same(name, "PackageReference") || same(name, "PackageVersion") {
            match package_of(t) {
                Some(p) => {
                    self.data.add_package(p, same(name, "PackageVersion"));
                },
                None => {},
            }
        }
    }

    /// Takes in text.
    fn text(&mut self, text: &str)
        ensures
            final(self)@ == after_text(old(self)@, text@),
    {
        let v = trimmed(text);
        if self.in_version && self.pending.is_some() {
            if !v.as_str().is_empty() {
                let mut taken: Option<(PackageRef, bool)> = None;
                std::mem::swap(&mut self.pending, &mut taken);
                match taken {
                    Some((p, pin)) => {
                        self.pending = Some((PackageRef { name: p.name, version: Some(v) }, pin));
                    },
                    None => {},
                }
            }
        } else if self.in_cpm_flag && !v.as_str().is_empty() {
            let l = ascii_lowercase(v.as_str());
            self.data.cpm_enabled = Some(same(l.as_str(), "true"));
        }
    }

    /// Records the pending package, if any.
    fn flush(&mut self)
        ensures
            final(self)@ == (ProgressView { data: flushed(old(self)@), pending: None, ..old(self)@ }),
    {
        let mut taken: Option<(PackageRef, bool)> = None;
        std::mem::swap(&mut self.pending, &mut taken);
        match taken {
            Some((p, pin)) => {
                self.data.add_package(p, pin);
            },
            None => {},
        }
    }

    /// Takes in a closing tag.
    fn close_tag(&mut self, name: &str)
        ensures
            final(self)@ == after_end(old(self)@, name@),
    {
        if same(name, "Version") {
            self.in_version = false;
        } else if same(name, "ManagedPackageVersionsCentrally") {
            self.in_cpm_flag = false;
        } else if same(name, "PackageReference") || same(name, "PackageVersion") {
            self.flush();
            self.in_version = false;
        }
    }

    /// Takes in one event.
    fn event(&mut self, e: &XmlEvent)
        ensures
            final(self)@ == after_event(old(self)@, e@),
    {
        match e {
            XmlEvent::Start(t) => self.open_tag(t),
            XmlEvent::Empty(t) => self.empty_tag(t),
            XmlEvent::Text(text) => self.text(text.as_str()),
            XmlEvent::End(name) => self.close_tag(name.as_str()),
            XmlEvent::Other => {},
            XmlEvent::Eof => {},
            XmlEvent::Failed => {},
        }
    }
}

/// The facts of a document, from its events (without the one that ends it).
pub fn facts_of(events: &Vec<XmlEvent>) -> (r: CsprojData)
    ensures
        r@ == msbuild_facts(views(events@)),
{
    let mut progress = Progress::start();
    let mut i: usize = 0;
    proof {
        crate::lists::take_none(views(events@));
    }
    while i < events.len()
        invariant
            i <= events@.len(),
            progress@ == after_events(views(events@).take(i as int)),
        decreases events@.len() - i,
    {
        proof {
            crate::lists::take_next(views(events@), i as int);
        }
        progress.event(&events[i]);
        i += 1;
    }
    proof {
        crate::lists::take_whole(views(events@));
    }
    progress.flush();
    progress.data
}

/// Parse the textual contents of a `.csproj` file.
///
/// Extracts every `<ProjectReference Include="..."/>` and every
/// `<PackageReference Include="..." [Version="..."]/>`. The version of a package
/// may instead be supplied via a nested `<Version>` child element; that form is
/// also handled.
///
/// Returns an error only if the XML is malformed enough that the streaming
/// reader cannot make progress; missing attributes or unexpected elements are
/// tolerated silently.
pub fn parse_csproj(text: &str) -> (r: Result<CsprojData, SynapseError>)
    ensures
        stops_once(xml_events(text@)),
        r is Err == (xml_events(text@).last() is Failed),
        r matches Ok(d) ==> d@ == msbuild_facts(xml_events(text@).drop_last()),
        r matches Err(e) ==> e is Invalid && e.text() == "failed reading MSBuild XML"@,
{
    let mut reader = new_reader(text);
    let ghost all = xml_events(text@);
    let mut events: Vec<XmlEvent> = Vec::new();
    proof {
        assert(views(events@) =~= all.take(0));
        assert(all.skip(0) =~= all);
    }
    loop
        invariant_except_break
            events@.len() < all.len(),
            events_left(reader) == all.skip(events@.len() as int),
        invariant
            all == xml_events(text@),
            stops_once(all),
            views(events@) == all.take(events@.len() as int),
        ensures
            views(events@) == all.drop_last(),
            all.last() is Eof,
        decreases all.len() - events@.len(),
    {
        let ghost n = events@.len() as int;
        let e = next_event(&mut reader);
        proof {
            assert(e@ == all[n]);
            assert(all.skip(n).drop_first() =~= all.skip(n + 1));
            crate::lists::take_next(all, n);
            views_push(events@, e);
            if is_last(e@) {
                assert(n == all.len() - 1);
                assert(all.take(n) =~= all.drop_last());
            }
        }
        match e {
            XmlEvent::Failed => {
                return Err(SynapseError::Invalid("failed reading MSBuild XML".to_owned()));
            },
            XmlEvent::Eof => {
                break;
            },
            _ => {},
        }
        events.push(e);
    }
    Ok(facts_of(&events))
}

/// Parse any MSBuild XML file (`.csproj`, `.props`, `.targets`) for the same
/// dependency facts. `Directory.Packages.props` supplies `<PackageVersion>`
/// entries; `Directory.Build.props` may carry shared `<PackageReference>`s.
///
/// This is an alias of [`parse_csproj`].
pub fn parse_msbuild(text: &str) -> (r: Result<CsprojData, SynapseError>)
    ensures
        stops_once(xml_events(text@)),
        r is Err == (xml_events(text@).last() is Failed),
        r matches Ok(d) ==> d@ == msbuild_facts(xml_events(text@).drop_last()),
        r matches Err(e) ==> e is Invalid && e.text() == "failed reading MSBuild XML"@,
{
    parse_csproj(text)
}

// --- central package management ------------------------------------------------------
/// The version pins of a list of `<PackageVersion>`s; a later pin wins.
pub open spec fn pins_of(list: Seq<PackageRefView>) -> Map<Seq<char>, Seq<char>>
    decreases list.len(),
{
    if list.len() == 0 {
        Map::empty()
    } else {
        match list.last().version {
            Some(v) => pins_of(list.drop_last()).insert(list.last().name, v),
            None => pins_of(list.drop_last()),
        }
    }
}

/// The pins of several files, one after another.
pub open spec fn all_pins(sources: Seq<CsprojView>) -> Seq<PackageRefView>
    decreases sources.len(),
{
    if sources.len() == 0 {
        Seq::empty()
    } else {
        all_pins(sources.drop_last()) + sources.last().package_versions
    }
}

/// Central version pins: package name to version.
pub struct VersionMap {
    pins: Vec<PackageRef>,
}

impl View for VersionMap {
    type V = Map<Seq<char>, Seq<char>>;

    closed spec fn view(&self) -> Map<Seq<char>, Seq<char>> {
        pins_of(views(self.pins@))
    }
}

impl VersionMap {
    /// The version pinned for a package.
    pub fn get(&self, name: &str) -> (r: Option<&String>)
        ensures
            r is Some == self@.contains_key(name@),
            r matches Some(v) ==> v@ == self@[name@],
    {
        let mut i: usize = self.pins.len();
        let ghost all = views(self.pins@);
        proof {
            crate::lists::take_whole(all);
        }
        while i > 0
            invariant
                i <= self.pins@.len(),
                all == views(self.pins@),
                self@.contains_key(name@) == pins_of(all.take(i as int)).contains_key(name@),
                self@.contains_key(name@) ==> self@[name@] == pins_of(all.take(i as int))[name@],
            decreases i,
        {
            i -= 1;
            proof {
                crate::lists::take_next(all, i as int);
                assert(all[i as int] == self.pins@[i as int]@);
            }
            match &self.pins[i].version {
                Some(v) => {
                    if same(self.pins[i].name.as_str(), name) {
                        return Some(v);
                    }
                },
                None => {},
            }
        }
        proof {
            crate::lists::take_none(all);
        }
        None
    }
}

/// Build a central-version map (`package name -> version`) from one or more
/// parsed MSBuild files' `package_versions`. Later entries win on conflict,
/// matching MSBuild's "nearest Directory.Packages.props" precedence when the
/// caller feeds files in farthest-to-nearest order.
pub fn central_version_map(sources: &Vec<CsprojData>) -> (r: VersionMap)
    ensures
        r@ == pins_of(all_pins(views(sources@))),
{
    let mut pins: Vec<PackageRef> = Vec::new();
    let mut i: usize = 0;
    proof {
        crate::lists::take_none(views(sources@));
        assert(views(pins@) =~= Seq::<PackageRefView>::empty());
    }
    while i < sources.len()
        invariant
            i <= sources@.len(),
            views(pins@) == all_pins(views(sources@).take(i as int)),
        decreases sources@.len() - i,
    {
        let mut more = crate::lists::clone_all(&sources[i].package_versions);
        proof {
            crate::lists::take_next(views(sources@), i as int);
            crate::lists::views_add(pins@, more@);
        }
        pins.append(&mut more);
        i += 1;
    }
    proof {
        crate::lists::take_whole(views(sources@));
    }
    VersionMap { pins }
}

proof fn pins_of_sum(a: Seq<PackageRefView>, b: Seq<PackageRefView>, name: Seq<char>)
    ensures
        pins_of(b).contains_key(name) ==> pins_of(a + b).contains_key(name) && pins_of(a + b)[name] == pins_of(b)[name],
        !pins_of(b).contains_key(name) ==> pins_of(a + b).contains_key(name) == pins_of(a).contains_key(name) && (
        pins_of(a).contains_key(name) ==> pins_of(a + b)[name] == pins_of(a)[name]),
    decreases b.len(),
{
    if b.len() == 0 {
        assert(a + b =~= a);
    } else {
        pins_of_sum(a, b.drop_last(), name);
        assert((a + b).drop_last() =~= a + b.drop_last());
    }
}

/// A pin of a later file wins over every earlier file.
pub proof fn later_pins_win(earlier: Seq<CsprojView>, last: CsprojView, name: Seq<char>)
    requires
        pins_of(last.package_versions).contains_key(name),
    ensures
        pins_of(all_pins(earlier.push(last))).contains_key(name),
        pins_of(all_pins(earlier.push(last)))[name] == pins_of(last.package_versions)[name],
{
    assert(earlier.push(last).drop_last() =~= earlier);
    pins_of_sum(all_pins(earlier), last.package_versions, name);
}

/// A `<Version>` child overrides the version attribute of its package.
pub proof fn version_child_overrides(s: ProgressView, p: PackageRefView, pin: bool, text: Seq<char>)
    requires
        s.pending == Some((p, pin)),
        trim(text).len() > 0,
        !s.in_version,
    ensures
        ({
            let opened = after_start(s, XmlTagView { name: "Version"@, attrs: Seq::empty() });
            let closed = after_end(after_text(opened, text), "Version"@);
            closed.pending == Some((PackageRefView { name: p.name, version: Some(trim(text)) }, pin))
        }),
{
    reveal_strlit("Version");
    reveal_strlit("ProjectReference");
    reveal_strlit("PackageReference");
    reveal_strlit("PackageVersion");
    assert("Version"@.len() != "ProjectReference"@.len());
}

} // verus!
