//! Sharing the indexed graph via an OCI registry (`synapse push` / `pull`).
//!
//! The registry itself is talked to outside; here stands what is sent, what the
//! replies mean, and when a push or pull is refused. The graph is shipped as a
//! single-layer artifact: the raw `synapse.lbug` bytes as one layer, a tiny JSON
//! config blob, and the git/version/blake3 metadata stamped into manifest
//! annotations so identity is verifiable and staleness detectable without
//! downloading the (multi-MB) blob.

use crate::config::ShareConfig;
use crate::errors::SynapseError;
use crate::hashing::{blake3_hex, content_hash};
use crate::indexer::tree::bytes_of;
use crate::json::{
    compact, compact_json, distinct_keys, entry, entry_is_member, item, json_member, json_text_member, json_view, number,
    object, object_members, parsed_json, pretty, pretty_json, string, string_or_null, text_or_null, texts_only,
    JsonEntry, JsonEntryView, JsonView,
};
use crate::lists::{clone_all, take_next, take_none, take_whole};
use crate::text::{
    among, ascii_lowercase, cat, cat3, chars_of, clone_opt, contains, decimal, has, lower, opt_view, same,
    same_ignore_ascii_case, string_of, trim, trimmed, views,
};
use vstd::prelude::*;
use vstd::string::StringExecFns;

verus! {

/// Media type of the graph layer (the raw `.lbug` bytes).
pub const GRAPH_LAYER_MEDIA_TYPE: &'static str = "application/vnd.simcube.synapse.graph.v1+lbug";

/// Media type of the small JSON config blob.
pub const GRAPH_CONFIG_MEDIA_TYPE: &'static str = "application/vnd.simcube.synapse.graph.config.v1+json";

/// Full commit SHA the graph was indexed at (OCI standard key).
pub const ANNOT_REVISION: &'static str = "org.opencontainers.image.revision";

/// RFC3339 creation timestamp (OCI standard key).
pub const ANNOT_CREATED: &'static str = "org.opencontainers.image.created";

/// synapse version that produced the graph (OCI standard key).
pub const ANNOT_VERSION: &'static str = "org.opencontainers.image.version";

/// Repo name / artifact title (OCI standard key).
pub const ANNOT_TITLE: &'static str = "org.opencontainers.image.title";

/// Branch the graph was indexed on (synapse namespace).
pub const ANNOT_BRANCH: &'static str = "com.simcube.synapse.branch";

/// blake3 of the graph blob (synapse namespace).
pub const ANNOT_BLAKE3: &'static str = "com.simcube.synapse.blake3";

/// Full commit SHA, duplicated in our namespace (robust to tooling that drops
/// the standard `revision` key).
pub const ANNOT_COMMIT: &'static str = "com.simcube.synapse.commit";

/// Metadata describing a shared graph artifact — carried in manifest
/// annotations (and mirrored into the config blob). All fields optional so a
/// partially-annotated artifact still parses.
#[derive(Debug, PartialEq, Eq)]
pub struct GraphArtifactMeta {
    /// Full commit SHA the graph was indexed at.
    pub commit: Option<String>,
    pub branch: Option<String>,
    pub repo_name: Option<String>,
    pub synapse_version: Option<String>,
    /// blake3 hex of the graph blob, for integrity verification on pull.
    pub blob_blake3: Option<String>,
    pub created_at: Option<String>,
}

/// What `GraphArtifactMeta` says, as mathematical values.
pub struct MetaView {
    pub commit: Option<Seq<char>>,
    pub branch: Option<Seq<char>>,
    pub repo_name: Option<Seq<char>>,
    pub synapse_version: Option<Seq<char>>,
    pub blob_blake3: Option<Seq<char>>,
    pub created_at: Option<Seq<char>>,
}

impl View for GraphArtifactMeta {
    type V = MetaView;

    open spec fn view(&self) -> MetaView {
        MetaView {
            commit: opt_view(self.commit),
            branch: opt_view(self.branch),
            repo_name: opt_view(self.repo_name),
            synapse_version: opt_view(self.synapse_version),
            blob_blake3: opt_view(self.blob_blake3),
            created_at: opt_view(self.created_at),
        }
    }
}

pub open spec fn no_meta() -> MetaView {
    MetaView { commit: None, branch: None, repo_name: None, synapse_version: None, blob_blake3: None, created_at: None }
}

impl Default for GraphArtifactMeta {
    fn default() -> (r: Self)
        ensures
            r@ == no_meta(),
    {
        GraphArtifactMeta {
            commit: None,
            branch: None,
            repo_name: None,
            synapse_version: None,
            blob_blake3: None,
            created_at: None,
        }
    }
}

impl Clone for GraphArtifactMeta {
    fn clone(&self) -> (r: Self)
        ensures
            r@ == self@,
    {
        GraphArtifactMeta {
            commit: clone_opt(&self.commit),
            branch: clone_opt(&self.branch),
            repo_name: clone_opt(&self.repo_name),
            synapse_version: clone_opt(&self.synapse_version),
            blob_blake3: clone_opt(&self.blob_blake3),
            created_at: clone_opt(&self.created_at),
        }
    }
}

// --- annotations ---------------------------------------------------------------------------
/// One annotation.
#[derive(Debug, PartialEq, Eq)]
pub struct Annotation {
    pub key: String,
    pub value: String,
}

/// Manifest annotations: keys with their values.
#[derive(Debug, PartialEq, Eq)]
pub struct Annotations {
    pub list: Vec<Annotation>,
}

/// The map that a list of annotations stands for; a later one wins.
pub open spec fn annotation_map(list: Seq<Annotation>) -> Map<Seq<char>, Seq<char>>
    decreases list.len(),
{
    if list.len() == 0 {
        Map::empty()
    } else {
        annotation_map(list.drop_last()).insert(list.last().key@, list.last().value@)
    }
}

impl View for Annotations {
    type V = Map<Seq<char>, Seq<char>>;

    open spec fn view(&self) -> Map<Seq<char>, Seq<char>> {
        annotation_map(self.list@)
    }
}

impl Annotations {
    pub fn new() -> (r: Annotations)
        ensures
            r@ == Map::<Seq<char>, Seq<char>>::empty(),
    {
        Annotations { list: Vec::new() }
    }

    pub fn insert(&mut self, key: &str, value: &str)
        ensures
            final(self)@ == old(self)@.insert(key@, value@),
    {
        let a = Annotation { key: key.to_owned(), value: value.to_owned() };
        assert(self.list@.push(a).drop_last() =~= self.list@);
        self.list.push(a);
    }

    /// The value of a key.
    pub fn get(&self, key: &str) -> (r: Option<&String>)
        ensures
            r is Some == self@.contains_key(key@),
            r matches Some(v) ==> v@ == self@[key@],
    {
        let ghost all = self.list@;
        let mut i: usize = self.list.len();
        proof {
            take_whole(all);
        }
        while i > 0
            invariant
                i <= self.list@.len(),
                all == self.list@,
                self@.contains_key(key@) == annotation_map(all.take(i as int)).contains_key(key@),
                self@.contains_key(key@) ==> self@[key@] == annotation_map(all.take(i as int))[key@],
            decreases i,
        {
            i -= 1;
            proof {
                take_next(all, i as int);
            }
            if same(self.list[i].key.as_str(), key) {
                return Some(&self.list[i].value);
            }
        }
        proof {
            take_none(all);
        }
        None
    }

    pub fn contains_key(&self, key: &str) -> (r: bool)
        ensures
            r == self@.contains_key(key@),
    {
        self.get(key).is_some()
    }
}

/// The map with a key set, unless its value is missing or empty.
pub open spec fn put(m: Map<Seq<char>, Seq<char>>, key: Seq<char>, value: Option<Seq<char>>) -> Map<
    Seq<char>,
    Seq<char>,
> {
    match value {
        Some(v) => if v.len() > 0 {
            m.insert(key, v)
        } else {
            m
        },
        None => m,
    }
}

/// The value of a key, unless it is missing or empty.
pub open spec fn found(m: Map<Seq<char>, Seq<char>>, key: Seq<char>) -> Option<Seq<char>> {
    if m.contains_key(key) && m[key].len() > 0 {
        Some(m[key])
    } else {
        None
    }
}

/// The annotations of an artifact.
pub open spec fn annotations_of(m: MetaView) -> Map<Seq<char>, Seq<char>> {
    let a = Map::<Seq<char>, Seq<char>>::empty();
    let a = put(a, ANNOT_REVISION@, m.commit);
    let a = put(a, ANNOT_COMMIT@, m.commit);
    let a = put(a, ANNOT_CREATED@, m.created_at);
    let a = put(a, ANNOT_VERSION@, m.synapse_version);
    let a = put(a, ANNOT_TITLE@, m.repo_name);
    let a = put(a, ANNOT_BRANCH@, m.branch);
    let a = put(a, ANNOT_BLAKE3@, m.blob_blake3);
    a
}

/// What annotations say of an artifact: our namespaced commit key wins over the
/// standard one.
pub open spec fn meta_of(a: Map<Seq<char>, Seq<char>>) -> MetaView {
    MetaView {
        commit: match found(a, ANNOT_COMMIT@) {
            Some(c) => Some(c),
            None => found(a, ANNOT_REVISION@),
        },
        branch: found(a, ANNOT_BRANCH@),
        repo_name: found(a, ANNOT_TITLE@),
        synapse_version: found(a, ANNOT_VERSION@),
        blob_blake3: found(a, ANNOT_BLAKE3@),
        created_at: found(a, ANNOT_CREATED@),
    }
}

fn put_annotation(a: &mut Annotations, key: &str, value: &Option<String>)
    ensures
        final(a)@ == put(old(a)@, key@, opt_view(*value)),
{
    match value {
        Some(v) => {
            if !v.as_str().is_empty() {
                a.insert(key, v.as_str());
            }
        },
        None => {},
    }
}

fn found_annotation(a: &Annotations, key: &str) -> (r: Option<String>)
    ensures
        opt_view(r) == found(a@, key@),
{
    match a.get(key) {
        Some(v) => if v.as_str().is_empty() {
            None
        } else {
            Some(v.clone())
        },
        None => None,
    }
}

/// The entries of an artifact's config blob.
pub open spec fn config_entries(m: MetaView) -> Seq<JsonEntryView> {
    seq![
        item("schemaVersion"@, JsonView::Number(decimal(1))),
        item("tool"@, JsonView::Text("synapse"@)),
        item("synapseVersion"@, text_or_null(m.synapse_version)),
        item("commit"@, text_or_null(m.commit)),
        item("branch"@, text_or_null(m.branch)),
        item("repo"@, text_or_null(m.repo_name)),
        item("blake3"@, text_or_null(m.blob_blake3)),
        item("createdAt"@, text_or_null(m.created_at)),
    ]
}

/// The config blob of an artifact, as JSON.
pub open spec fn config_blob(m: MetaView) -> JsonView {
    JsonView::Object(object_members(config_entries(m)))
}

impl GraphArtifactMeta {
    /// Render to the OCI manifest annotations (omitting empty fields).
    pub fn to_annotations(&self) -> (r: Annotations)
        ensures
            r@ == annotations_of(self@),
    {
        let mut a = Annotations::new();
        put_annotation(&mut a, ANNOT_REVISION, &self.commit);
        put_annotation(&mut a, ANNOT_COMMIT, &self.commit);
        put_annotation(&mut a, ANNOT_CREATED, &self.created_at);
        put_annotation(&mut a, ANNOT_VERSION, &self.synapse_version);
        put_annotation(&mut a, ANNOT_TITLE, &self.repo_name);
        put_annotation(&mut a, ANNOT_BRANCH, &self.branch);
        put_annotation(&mut a, ANNOT_BLAKE3, &self.blob_blake3);
        a
    }

    /// Parse from OCI manifest annotations. Prefers our namespaced commit key,
    /// falling back to the OCI standard `revision`.
    pub fn from_annotations(a: &Annotations) -> (r: GraphArtifactMeta)
        ensures
            r@ == meta_of(a@),
    {
        let commit = match found_annotation(a, ANNOT_COMMIT) {
            Some(c) => Some(c),
            None => found_annotation(a, ANNOT_REVISION),
        };
        GraphArtifactMeta {
            commit,
            branch: found_annotation(a, ANNOT_BRANCH),
            repo_name: found_annotation(a, ANNOT_TITLE),
            synapse_version: found_annotation(a, ANNOT_VERSION),
            blob_blake3: found_annotation(a, ANNOT_BLAKE3),
            created_at: found_annotation(a, ANNOT_CREATED),
        }
    }

    /// The self-describing JSON config blob bytes for this artifact.
    pub fn to_config_blob(&self) -> (r: Vec<u8>)
        ensures
            r@ == vstd::utf8::encode_utf8(compact_json(config_blob(self@))),
    {
        let mut e: Vec<JsonEntry> = Vec::new();
        e.push(entry("schemaVersion", number(1)));
        e.push(entry("tool", string("synapse")));
        e.push(entry("synapseVersion", string_or_null(&self.synapse_version)));
        e.push(entry("commit", string_or_null(&self.commit)));
        e.push(entry("branch", string_or_null(&self.branch)));
        e.push(entry("repo", string_or_null(&self.repo_name)));
        e.push(entry("blake3", string_or_null(&self.blob_blake3)));
        e.push(entry("createdAt", string_or_null(&self.created_at)));
        assert(views(e@) =~= seq![
            item("schemaVersion"@, JsonView::Number(decimal(1))),
            item("tool"@, JsonView::Text("synapse"@)),
            item("synapseVersion"@, text_or_null(self@.synapse_version)),
            item("commit"@, text_or_null(self@.commit)),
            item("branch"@, text_or_null(self@.branch)),
            item("repo"@, text_or_null(self@.repo_name)),
            item("blake3"@, text_or_null(self@.blob_blake3)),
            item("createdAt"@, text_or_null(self@.created_at)),
        ]);
        let text = compact(&object(e));
        bytes_of(text.as_str())
    }
}

/// A text, unless it is empty.
pub open spec fn nonempty(o: Option<Seq<char>>) -> Option<Seq<char>> {
    match o {
        Some(s) => if s.len() > 0 {
            Some(s)
        } else {
            None
        },
        None => None,
    }
}

/// Metadata with empty fields left out.
pub open spec fn without_empty(m: MetaView) -> MetaView {
    MetaView {
        commit: nonempty(m.commit),
        branch: nonempty(m.branch),
        repo_name: nonempty(m.repo_name),
        synapse_version: nonempty(m.synapse_version),
        blob_blake3: nonempty(m.blob_blake3),
        created_at: nonempty(m.created_at),
    }
}

/// No two fields are annotated under the same key.
pub proof fn annotation_keys_differ()
    ensures
        ANNOT_REVISION@ != ANNOT_COMMIT@,
        ANNOT_REVISION@ != ANNOT_CREATED@,
        ANNOT_REVISION@ != ANNOT_VERSION@,
        ANNOT_REVISION@ != ANNOT_TITLE@,
        ANNOT_REVISION@ != ANNOT_BRANCH@,
        ANNOT_REVISION@ != ANNOT_BLAKE3@,
        ANNOT_COMMIT@ != ANNOT_CREATED@,
        ANNOT_COMMIT@ != ANNOT_VERSION@,
        ANNOT_COMMIT@ != ANNOT_TITLE@,
        ANNOT_COMMIT@ != ANNOT_BRANCH@,
        ANNOT_COMMIT@ != ANNOT_BLAKE3@,
        ANNOT_CREATED@ != ANNOT_VERSION@,
        ANNOT_CREATED@ != ANNOT_TITLE@,
        ANNOT_CREATED@ != ANNOT_BRANCH@,
        ANNOT_CREATED@ != ANNOT_BLAKE3@,
        ANNOT_VERSION@ != ANNOT_TITLE@,
        ANNOT_VERSION@ != ANNOT_BRANCH@,
        ANNOT_VERSION@ != ANNOT_BLAKE3@,
        ANNOT_TITLE@ != ANNOT_BRANCH@,
        ANNOT_TITLE@ != ANNOT_BLAKE3@,
        ANNOT_BRANCH@ != ANNOT_BLAKE3@,
{
    reveal_strlit("org.opencontainers.image.revision");
    reveal_strlit("org.opencontainers.image.created");
    reveal_strlit("org.opencontainers.image.version");
    reveal_strlit("org.opencontainers.image.title");
    reveal_strlit("com.simcube.synapse.branch");
    reveal_strlit("com.simcube.synapse.blake3");
    reveal_strlit("com.simcube.synapse.commit");
    assert(ANNOT_REVISION@.len() != ANNOT_CREATED@.len());
    assert(ANNOT_REVISION@.len() != ANNOT_VERSION@.len());
    assert(ANNOT_REVISION@.len() != ANNOT_TITLE@.len());
    assert(ANNOT_REVISION@.len() != ANNOT_BRANCH@.len());
    assert(ANNOT_REVISION@.len() != ANNOT_BLAKE3@.len());
    assert(ANNOT_REVISION@.len() != ANNOT_COMMIT@.len());
    assert(ANNOT_CREATED@[25] != ANNOT_VERSION@[25]);
    assert(ANNOT_CREATED@.len() != ANNOT_TITLE@.len());
    assert(ANNOT_CREATED@.len() != ANNOT_BRANCH@.len());
    assert(ANNOT_CREATED@.len() != ANNOT_BLAKE3@.len());
    assert(ANNOT_CREATED@.len() != ANNOT_COMMIT@.len());
    assert(ANNOT_VERSION@.len() != ANNOT_TITLE@.len());
    assert(ANNOT_VERSION@.len() != ANNOT_BRANCH@.len());
    assert(ANNOT_VERSION@.len() != ANNOT_BLAKE3@.len());
    assert(ANNOT_VERSION@.len() != ANNOT_COMMIT@.len());
    assert(ANNOT_TITLE@.len() != ANNOT_BRANCH@.len());
    assert(ANNOT_TITLE@.len() != ANNOT_BLAKE3@.len());
    assert(ANNOT_TITLE@.len() != ANNOT_COMMIT@.len());
    assert(ANNOT_BRANCH@[21] != ANNOT_BLAKE3@[21]);
    assert(ANNOT_BRANCH@[20] != ANNOT_COMMIT@[20]);
    assert(ANNOT_BLAKE3@[20] != ANNOT_COMMIT@[20]);
}

/// Metadata written to annotations and read back is the same, but that fields
/// that are empty come back as missing.
pub proof fn annotations_round_trip(m: MetaView)
    ensures
        meta_of(annotations_of(m)) == without_empty(m),
{
    annotation_keys_differ();
}

/// Fields that are missing or empty leave no annotation.
pub proof fn empty_fields_leave_no_annotation(m: MetaView)
    ensures
        nonempty(m.commit) is None ==> !annotations_of(m).contains_key(ANNOT_COMMIT@) && !annotations_of(
            m,
        ).contains_key(ANNOT_REVISION@),
        nonempty(m.branch) is None ==> !annotations_of(m).contains_key(ANNOT_BRANCH@),
        nonempty(m.blob_blake3) is None ==> !annotations_of(m).contains_key(ANNOT_BLAKE3@),
{
    annotation_keys_differ();
}

// --- staleness -------------------------------------------------------------------------------
/// Result of comparing a shared graph's indexed commit against local HEAD.
#[derive(Debug, PartialEq, Eq)]
pub enum GraphFreshness {
    /// The graph was indexed at the same commit as local HEAD.
    Match,
    /// The graph's commit differs from local HEAD — results may be stale.
    Mismatch { graph_commit: String, head_commit: String },
    /// Can't tell (not a git repo, or the artifact has no commit annotation).
    Unknown,
}

pub enum FreshnessView {
    Match,
    Mismatch { graph_commit: Seq<char>, head_commit: Seq<char> },
    Unknown,
}

impl View for GraphFreshness {
    type V = FreshnessView;

    open spec fn view(&self) -> FreshnessView {
        match self {
            GraphFreshness::Match => FreshnessView::Match,
            GraphFreshness::Mismatch { graph_commit, head_commit } => FreshnessView::Mismatch {
                graph_commit: graph_commit@,
                head_commit: head_commit@,
            },
            GraphFreshness::Unknown => FreshnessView::Unknown,
        }
    }
}

pub open spec fn shorter(a: Seq<char>, b: Seq<char>) -> int {
    if a.len() <= b.len() {
        a.len() as int
    } else {
        b.len() as int
    }
}

/// The shorter commit is the start of the longer, up to the case of ASCII letters.
pub open spec fn same_commit(g: Seq<char>, h: Seq<char>) -> bool {
    lower(g.take(shorter(g, h))) == lower(h.take(shorter(g, h)))
}

pub open spec fn freshness(graph: Option<Seq<char>>, head: Option<Seq<char>>) -> FreshnessView {
    match (graph, head) {
        (Some(g), Some(h)) => if g.len() == 0 || h.len() == 0 {
            FreshnessView::Unknown
        } else if same_commit(g, h) {
            FreshnessView::Match
        } else {
            FreshnessView::Mismatch { graph_commit: g, head_commit: h }
        },
        _ => FreshnessView::Unknown,
    }
}

/// The view of an optional text slice.
pub open spec fn slice_view(o: Option<&str>) -> Option<Seq<char>> {
    match o {
        Some(s) => Some(s@),
        None => None,
    }
}

/// Compare a graph's indexed commit against local HEAD. Prefix-tolerant so a
/// short SHA on either side still matches a full SHA (e.g. a per-commit tag vs
/// the full annotation). `Unknown` when either side is absent.
pub fn compare_commit(graph_commit: Option<&str>, head_commit: Option<&str>) -> (r: GraphFreshness)
    ensures
        r@ == freshness(slice_view(graph_commit), slice_view(head_commit)),
{
    match graph_commit {
        Some(g) => match head_commit {
            Some(h) => {
                if g.is_empty() || h.is_empty() {
                    return GraphFreshness::Unknown;
                }
                let x = chars_of(g);
                let y = chars_of(h);
                let n: usize = if x.len() <= y.len() {
                    x.len()
                } else {
                    y.len()
                };
                let a = string_of(&x, 0, n);
                let b = string_of(&y, 0, n);
                proof {
                    assert(a@ =~= g@.take(n as int));
                    assert(b@ =~= h@.take(n as int));
                }
                if same_ignore_ascii_case(a.as_str(), b.as_str()) {
                    GraphFreshness::Match
                } else {
                    GraphFreshness::Mismatch { graph_commit: g.to_owned(), head_commit: h.to_owned() }
                }
            },
            None => GraphFreshness::Unknown,
        },
        None => GraphFreshness::Unknown,
    }
}

/// A graph matches HEAD exactly when HEAD matches the graph; a commit matches
/// itself and every start of itself.
pub proof fn commit_comparison_laws(g: Seq<char>, h: Seq<char>, n: int)
    requires
        0 <= n <= g.len(),
    ensures
        same_commit(g, h) == same_commit(h, g),
        same_commit(g, g),
        same_commit(g.take(n), g),
        same_commit(g, g.take(n)),
{
    assert(g.take(n).take(n) =~= g.take(n));
    assert(g.take(g.len() as int).take(n) =~= g.take(n));
}

// --- tags --------------------------------------------------------------------------------------
pub open spec fn pull_tag(explicit: Option<Seq<char>>, moving_tag: Seq<char>) -> Seq<char> {
    match nonempty(explicit) {
        Some(t) => t,
        None => moving_tag,
    }
}

/// Resolve which tag a `pull` should fetch:
/// 1. an explicit `--tag` override (e.g. a specific commit SHA);
/// 2. otherwise the configured moving tag (e.g. "latest").
///
/// The default deliberately does NOT auto-pick the local HEAD commit tag: a
/// teammate is usually on a *different* commit than the pushed graph, so that
/// tag typically wouldn't exist in the registry and the pull would hard-fail
/// with "manifest unknown". Use `--tag <sha>` to pull the exact graph for a
/// specific commit.
pub fn resolve_pull_tag(explicit: Option<&str>, moving_tag: &str) -> (r: String)
    ensures
        r@ == pull_tag(slice_view(explicit), moving_tag@),
{
    match explicit {
        Some(t) => if t.is_empty() {
            moving_tag.to_owned()
        } else {
            t.to_owned()
        },
        None => moving_tag.to_owned(),
    }
}

/// The tags that a push writes: the explicit tag or else the short commit, and
/// the moving tag; none twice, none empty.
pub open spec fn tags_to_push(
    explicit: Option<Seq<char>>,
    head_short: Option<Seq<char>>,
    moving_tag: Seq<char>,
) -> Seq<Seq<char>> {
    let first = match nonempty(explicit) {
        Some(t) => seq![t],
        None => match nonempty(head_short) {
            Some(t) => seq![t],
            None => Seq::empty(),
        },
    };
    if moving_tag.len() > 0 && !first.contains(moving_tag) {
        first.push(moving_tag)
    } else {
        first
    }
}

/// The two tags a `push` writes: the immutable per-commit tag (short SHA) and
/// the moving tag. An explicit `--tag` overrides the per-commit tag.
pub fn push_tags(explicit: Option<&str>, head_short: Option<&str>, moving_tag: &str) -> (r: Vec<String>)
    ensures
        views(r@) == tags_to_push(slice_view(explicit), slice_view(head_short), moving_tag@),
{
    let mut tags: Vec<String> = Vec::new();
    let mut taken = false;
    match explicit {
        Some(t) => {
            if !t.is_empty() {
                tags.push(t.to_owned());
                taken = true;
            }
        },
        None => {},
    }
    if !taken {
        match head_short {
            Some(t) => {
                if !t.is_empty() {
                    tags.push(t.to_owned());
                }
            },
            None => {},
        }
    }
    let ghost first = match nonempty(slice_view(explicit)) {
        Some(t) => seq![t],
        None => match nonempty(slice_view(head_short)) {
            Some(t) => seq![t],
            None => Seq::empty(),
        },
    };
    assert(views(tags@) =~= first);
    if !moving_tag.is_empty() && !among(&tags, moving_tag) {
        let m = moving_tag.to_owned();
        proof {
            crate::lists::views_push(tags@, m);
        }
        tags.push(m);
    }
    tags
}

/// No tag is pushed twice or empty, and the moving tag is always pushed (unless
/// it is empty).
pub proof fn pushed_tags_are_distinct(explicit: Option<Seq<char>>, head_short: Option<Seq<char>>, moving_tag: Seq<char>)
    ensures
        tags_to_push(explicit, head_short, moving_tag).no_duplicates(),
        forall|i: int|
            0 <= i < tags_to_push(explicit, head_short, moving_tag).len() ==> (#[trigger] tags_to_push(
                explicit,
                head_short,
                moving_tag,
            )[i]).len() > 0,
        moving_tag.len() > 0 ==> tags_to_push(explicit, head_short, moving_tag).contains(moving_tag),
{
    let t = tags_to_push(explicit, head_short, moving_tag);
    if moving_tag.len() > 0 && t.len() > 0 {
        assert(t[t.len() - 1] == moving_tag || t.contains(moving_tag));
    }
}

// --- coordinates -------------------------------------------------------------------------------
/// Resolved registry coordinates for a single push/pull.
#[derive(Debug, PartialEq, Eq)]
pub struct ShareTarget {
    pub registry: String,
    pub repository: String,
    pub tag: String,
}

impl ShareTarget {
    /// `registry/repository:tag` for display.
    pub fn display(&self) -> (r: String)
        ensures
            r@ == self.registry@ + "/"@ + self.repository@ + ":"@ + self.tag@,
    {
        let mut out = self.registry.clone();
        out.append("/");
        out.append(self.repository.as_str());
        out.append(":");
        out.append(self.tag.as_str());
        out
    }
}

/// An override, where it is given and not empty, else what is configured.
pub open spec fn overridden(given: Option<Seq<char>>, configured: Seq<char>) -> Seq<char> {
    match nonempty(given) {
        Some(s) => s,
        None => configured,
    }
}

fn either(given: &Option<String>, configured: &str) -> (r: String)
    ensures
        r@ == overridden(opt_view(*given), configured@),
{
    match given {
        Some(s) => if s.as_str().is_empty() {
            configured.to_owned()
        } else {
            s.clone()
        },
        None => configured.to_owned(),
    }
}

/// Resolve registry + repository from config with per-invocation overrides.
/// Errors if neither config nor override supplies both.
pub fn resolve_share_coords(config: &ShareConfig, registry: &Option<String>, repository: &Option<String>) -> (r: Result<
    (String, String),
    SynapseError,
>)
    ensures
        ({
            let a = overridden(opt_view(*registry), config.registry@);
            let b = overridden(opt_view(*repository), config.repository@);
            match r {
                Ok((x, y)) => a.len() > 0 && b.len() > 0 && x@ == a && y@ == b,
                Err(e) => (a.len() == 0 || b.len() == 0) && e is ShareNotConfigured,
            }
        }),
{
    let a = either(registry, config.registry.as_str());
    let b = either(repository, config.repository.as_str());
    if a.as_str().is_empty() || b.as_str().is_empty() {
        Err(SynapseError::ShareNotConfigured)
    } else {
        Ok((a, b))
    }
}

// --- credentials and transport -------------------------------------------------------------------
/// Where credentials may come from.
#[derive(Debug, Clone, Copy, PartialEq, Eq, Structural)]
pub enum AuthSource {
    /// The `SYNAPSE_REGISTRY_*` environment variables.
    Environment,
    /// The docker login (`~/.docker/config.json` + helpers).
    Docker,
}

/// The sources that a strategy asks, in order; after them, anonymous access.
pub open spec fn auth_order(strategy: Seq<char>) -> Seq<AuthSource> {
    if strategy == "anonymous"@ {
        Seq::empty()
    } else if strategy == "env"@ {
        seq![AuthSource::Environment]
    } else if strategy == "docker"@ {
        seq![AuthSource::Docker]
    } else {
        seq![AuthSource::Environment, AuthSource::Docker]
    }
}

/// Which credential sources to ask, in order. For `auto`: env override -> docker
/// credentials -> anonymous. Credentials are never read from synapse's own
/// config.
pub fn auth_sources(config: &ShareConfig) -> (r: Vec<AuthSource>)
    ensures
        r@ == auth_order(config.auth@),
{
    let a = config.auth.as_str();
    let mut out: Vec<AuthSource> = Vec::new();
    if same(a, "anonymous") {
    } else if same(a, "env") {
        out.push(AuthSource::Environment);
    } else if same(a, "docker") {
        out.push(AuthSource::Docker);
    } else {
        out.push(AuthSource::Environment);
        out.push(AuthSource::Docker);
    }
    assert(out@ =~= auth_order(config.auth@));
    out
}

/// Credentials for a registry.
#[derive(Debug, PartialEq, Eq)]
pub enum Credentials {
    Bearer(String),
    Basic(String, String),
}

pub enum CredentialsView {
    Bearer(Seq<char>),
    Basic(Seq<char>, Seq<char>),
}

impl View for Credentials {
    type V = CredentialsView;

    open spec fn view(&self) -> CredentialsView {
        match self {
            Credentials::Bearer(t) => CredentialsView::Bearer(t@),
            Credentials::Basic(u, p) => CredentialsView::Basic(u@, p@),
        }
    }
}

/// The credentials in the environment: a token, else a user with a password.
pub fn env_credentials(token: Option<String>, user: Option<String>, password: Option<String>) -> (r: Option<
    Credentials,
>)
    ensures
        opt_view(r) == (match nonempty(opt_view(token)) {
            Some(t) => Some(CredentialsView::Bearer(t)),
            None => match (nonempty(opt_view(user)), opt_view(password)) {
                (Some(u), Some(p)) => Some(CredentialsView::Basic(u, p)),
                _ => None,
            },
        }),
{
    match token {
        Some(t) => {
            if !t.as_str().is_empty() {
                return Some(Credentials::Bearer(t));
            }
        },
        None => {},
    }
    match user {
        Some(u) => match password {
            Some(p) => if u.as_str().is_empty() {
                None
            } else {
                Some(Credentials::Basic(u, p))
            },
            None => None,
        },
        None => None,
    }
}

/// Whether the transport is plaintext: only where the config asks for "http".
pub fn uses_plain_http(config: &ShareConfig) -> (r: bool)
    ensures
        r == (config.protocol@ == "http"@),
{
    same(config.protocol.as_str(), "http")
}

/// A message that speaks of authentication.
pub open spec fn about_auth(message: Seq<char>) -> bool {
    let l = lower(message);
    has(l, "auth"@) || has(l, "401"@) || has(l, "unauthorized"@)
}

/// The error for what the registry client reported, telling auth failures from
/// other network errors.
pub fn registry_error(message: String) -> (r: SynapseError)
    ensures
        about_auth(message@) ==> (r matches SynapseError::RegistryAuth(m) && m@ == message@),
        !about_auth(message@) ==> (r matches SynapseError::RegistryNetwork(m) && m@ == message@),
{
    let l = ascii_lowercase(message.as_str());
    let l = l.as_str();
    if contains(l, "auth") || contains(l, "401") || contains(l, "unauthorized") {
        SynapseError::RegistryAuth(message)
    } else {
        SynapseError::RegistryNetwork(message)
    }
}

// --- pulling -----------------------------------------------------------------------------------
/// A pulled graph: the raw blob bytes plus the parsed artifact metadata.
pub struct PulledGraph {
    pub bytes: Vec<u8>,
    pub meta: GraphArtifactMeta,
}

/// What the annotations of a manifest, if it has any, say.
pub open spec fn manifest_meta(annotations: Option<Map<Seq<char>, Seq<char>>>) -> MetaView {
    match annotations {
        Some(a) => meta_of(a),
        None => no_meta(),
    }
}

/// What the manifest of an artifact says of it, from its annotations.
pub fn fetch_meta(annotations: &Option<Annotations>) -> (r: GraphArtifactMeta)
    ensures
        r@ == manifest_meta(opt_view(*annotations)),
{
    match annotations {
        Some(a) => GraphArtifactMeta::from_annotations(a),
        None => GraphArtifactMeta::default(),
    }
}

/// The blob is what the artifact says it is, as far as it says.
pub open spec fn intact(bytes: Seq<u8>, meta: MetaView) -> bool {
    meta.blob_blake3 matches Some(expected) ==> blake3_hex(bytes) == expected
}

/// Take in a pulled artifact: its first layer and the annotations of its
/// manifest. The blob's blake3 must be that of the annotation (a mismatch is a
/// hard error — corruption/tampering).
pub fn pull_graph(layer: Option<Vec<u8>>, annotations: &Option<Annotations>) -> (r: Result<PulledGraph, SynapseError>)
    ensures
        ({
            let meta = manifest_meta(opt_view(*annotations));
            match layer {
                None => r matches Err(e) && e is Invalid && e.text() == "pulled artifact has no layers"@,
                Some(b) => if intact(b@, meta) {
                    r matches Ok(p) && p.bytes@ == b@ && p.meta@ == meta
                } else {
                    r matches Err(e) && e is IntegrityMismatch
                },
            }
        }),
{
    let meta = fetch_meta(annotations);
    let bytes = match layer {
        Some(b) => b,
        None => {
            return Err(SynapseError::Invalid("pulled artifact has no layers".to_owned()));
        },
    };
    match &meta.blob_blake3 {
        Some(expected) => {
            let actual = content_hash(&bytes);
            if !same(actual.as_str(), expected.as_str()) {
                return Err(SynapseError::IntegrityMismatch);
            }
        },
        None => {},
    }
    Ok(PulledGraph { bytes, meta })
}

/// Where a pull fetches from.
pub fn pull_target(
    config: &ShareConfig,
    registry: &Option<String>,
    repository: &Option<String>,
    tag: Option<&str>,
) -> (r: Result<ShareTarget, SynapseError>)
    ensures
        ({
            let a = overridden(opt_view(*registry), config.registry@);
            let b = overridden(opt_view(*repository), config.repository@);
            match r {
                Ok(t) => a.len() > 0 && b.len() > 0 && t.registry@ == a && t.repository@ == b && t.tag@ == pull_tag(
                    slice_view(tag),
                    config.moving_tag@,
                ),
                Err(e) => (a.len() == 0 || b.len() == 0) && e is ShareNotConfigured,
            }
        }),
{
    match resolve_share_coords(config, registry, repository) {
        Ok((registry, repository)) => Ok(
            ShareTarget { registry, repository, tag: resolve_pull_tag(tag, config.moving_tag.as_str()) },
        ),
        Err(e) => Err(e),
    }
}

/// What is recorded of a pulled graph's origin.
pub open spec fn origin_entries(
    registry: Seq<char>,
    repository: Seq<char>,
    tag: Seq<char>,
    meta: MetaView,
    now: Seq<char>,
) -> Seq<JsonEntryView> {
    seq![
        item("source"@, JsonView::Text("registry"@)),
        item("registry"@, JsonView::Text(registry)),
        item("repository"@, JsonView::Text(repository)),
        item("tag"@, JsonView::Text(tag)),
        item("commit"@, text_or_null(meta.commit)),
        item("branch"@, text_or_null(meta.branch)),
        item("synapseVersion"@, text_or_null(meta.synapse_version)),
        item("blake3"@, text_or_null(meta.blob_blake3)),
        item("pulledAt"@, JsonView::Text(now)),
    ]
}

/// What is recorded of a pulled graph's origin, as JSON.
pub open spec fn origin_record(
    registry: Seq<char>,
    repository: Seq<char>,
    tag: Seq<char>,
    meta: MetaView,
    now: Seq<char>,
) -> JsonView {
    JsonView::Object(object_members(origin_entries(registry, repository, tag, meta, now)))
}

/// The provenance sidecar written next to a pulled graph. Reading it gives back
/// where the graph came from and the commit it was indexed at.
pub fn origin_json(target: &ShareTarget, meta: &GraphArtifactMeta, now: &str) -> (r: String)
    ensures
        ({
            let record = origin_record(target.registry@, target.repository@, target.tag@, meta@, now@);
            &&& r@ == pretty_json(record)
            &&& parsed_json(r@) == Some(record)
            &&& json_text_member(record, "registry"@) == Some(target.registry@)
            &&& json_text_member(record, "repository"@) == Some(target.repository@)
            &&& json_text_member(record, "tag"@) == Some(target.tag@)
            &&& json_text_member(record, "commit"@) == meta@.commit
        }),
{
    let mut e: Vec<JsonEntry> = Vec::new();
    e.push(entry("source", string("registry")));
    e.push(entry("registry", string(target.registry.as_str())));
    e.push(entry("repository", string(target.repository.as_str())));
    e.push(entry("tag", string(target.tag.as_str())));
    e.push(entry("commit", string_or_null(&meta.commit)));
    e.push(entry("branch", string_or_null(&meta.branch)));
    e.push(entry("synapseVersion", string_or_null(&meta.synapse_version)));
    e.push(entry("blake3", string_or_null(&meta.blob_blake3)));
    e.push(entry("pulledAt", string(now)));
    assert(views(e@) =~= seq![
        item("source"@, JsonView::Text("registry"@)),
        item("registry"@, JsonView::Text(target.registry@)),
        item("repository"@, JsonView::Text(target.repository@)),
        item("tag"@, JsonView::Text(target.tag@)),
        item("commit"@, text_or_null(meta@.commit)),
        item("branch"@, text_or_null(meta@.branch)),
        item("synapseVersion"@, text_or_null(meta@.synapse_version)),
        item("blake3"@, text_or_null(meta@.blob_blake3)),
        item("pulledAt"@, JsonView::Text(now@)),
    ]);
    let ghost es = views(e@);
    let doc = object(e);
    proof {
        reveal_strlit("source");
        reveal_strlit("registry");
        reveal_strlit("repository");
        reveal_strlit("tag");
        reveal_strlit("commit");
        reveal_strlit("branch");
        reveal_strlit("synapseVersion");
        reveal_strlit("blake3");
        reveal_strlit("pulledAt");
        let record = json_view(doc);
        assert("registry"@[2] != "repository"@[2] && "blake3"@[1] != "branch"@[1] && "source"@[1] != "synapseVersion"@[1]);
        assert(es[0].key[0] == 's');
        assert(es[1].key[0] == 'r');
        assert(es[2].key[0] == 'r');
        assert(es[3].key[0] == 't');
        assert(es[4].key[0] == 'c');
        assert(es[5].key[0] == 'b');
        assert(es[6].key[0] == 's');
        assert(es[7].key[0] == 'b');
        assert(es[8].key[0] == 'p');
        assert forall|i: int, j: int| 0 <= i < j < es.len() implies (#[trigger] es[i]).key != (#[trigger] es[j]).key by {
            assert(es[i].key[0] != es[j].key[0] || (i == 1 && j == 2) || (i == 0 && j == 6) || (i == 5 && j == 7));
        }
        assert(distinct_keys(es));
        entry_is_member(es, 1);
        entry_is_member(es, 2);
        entry_is_member(es, 3);
        entry_is_member(es, 4);
        let all = JsonView::Object(es);
        assert(json_member(record, "registry"@) == json_member(all, "registry"@));
        assert(json_member(record, "repository"@) == json_member(all, "repository"@));
        assert(json_member(record, "tag"@) == json_member(all, "tag"@));
        assert(json_member(record, "commit"@) == json_member(all, "commit"@));
        assert(texts_only(record)) by {
            if let JsonView::Object(ms) = record {
                assert forall|i: int| 0 <= i < ms.len() implies (#[trigger] ms[i]).value is Text || ms[i].value
                    is Null by {
                    let k = es.index_of(ms[i]);
                    assert(es[k] == ms[i]);
                }
            }
        }
    }
    pretty(&doc)
}

/// What a pull tells the user of the graph's freshness.
pub fn freshness_note(f: &GraphFreshness) -> (r: Option<String>)
    ensures
        opt_view(r) == (match f@ {
            FreshnessView::Mismatch { graph_commit, head_commit } => Some(
                "warning: pulled graph was indexed at commit "@ + graph_commit + ", but local HEAD is "@ + head_commit
                    + "; symbols/edges may not reflect your working tree — run `synapse index` to refresh"@,
            ),
            FreshnessView::Match => Some("Graph matches local HEAD commit."@),
            FreshnessView::Unknown => None,
        }),
{
    match f {
        GraphFreshness::Mismatch { graph_commit, head_commit } => {
            let mut s = cat("warning: pulled graph was indexed at commit ", graph_commit.as_str());
            s.append(", but local HEAD is ");
            s.append(head_commit.as_str());
            s.append("; symbols/edges may not reflect your working tree — run `synapse index` to refresh");
            Some(s)
        },
        GraphFreshness::Match => Some("Graph matches local HEAD commit.".to_owned()),
        GraphFreshness::Unknown => None,
    }
}

// --- pushing -----------------------------------------------------------------------------------
/// What a push was asked for, and what was found of the working tree.
pub struct PushFacts {
    pub registry: Option<String>,
    pub repository: Option<String>,
    pub tag: Option<String>,
    pub allow_dirty: bool,
    /// Name of the repository in the config.
    pub repo_name: String,
    /// Where the graph is expected.
    pub graph_path: String,
    /// The bytes of the graph, where it could be read.
    pub graph: Option<Vec<u8>>,
    /// How many files are changed in the working tree.
    pub changed: usize,
    /// The full commit of HEAD.
    pub full_commit: Option<String>,
    /// The short commit of HEAD.
    pub short_commit: Option<String>,
    pub branch: Option<String>,
    /// The version of the program.
    pub version: String,
    pub now: String,
}

/// A push that may go ahead once it is confirmed.
pub struct PushPlan {
    pub registry: String,
    pub repository: String,
    pub tags: Vec<String>,
    pub bytes: Vec<u8>,
    pub meta: GraphArtifactMeta,
}

/// Why a push is refused; the first reason that holds.
pub enum PushRefusal {
    Disabled,
    NotConfigured,
    NoGraph,
    Dirty,
    NoCommit,
}

pub open spec fn push_refusal(config: ShareConfig, f: PushFacts) -> Option<PushRefusal> {
    if !config.push_enabled {
        Some(PushRefusal::Disabled)
    } else if overridden(opt_view(f.registry), config.registry@).len() == 0 || overridden(
        opt_view(f.repository),
        config.repository@,
    ).len() == 0 {
        Some(PushRefusal::NotConfigured)
    } else if f.graph is None {
        Some(PushRefusal::NoGraph)
    } else if !f.allow_dirty && f.changed > 0 {
        Some(PushRefusal::Dirty)
    } else if f.full_commit is None {
        Some(PushRefusal::NoCommit)
    } else {
        None
    }
}

/// Without the opt-in in the config, every push is refused, whatever it was asked
/// for and whatever was found.
pub proof fn push_needs_opt_in(config: ShareConfig, f: PushFacts)
    requires
        !config.push_enabled,
    ensures
        push_refusal(config, f) == Some(PushRefusal::Disabled),
{
}

/// The error that a refusal is answered with.
pub open spec fn refusal_error(e: SynapseError, why: PushRefusal, f: PushFacts) -> bool {
    match why {
        PushRefusal::Disabled => e is PushDisabled,
        PushRefusal::NotConfigured => e is ShareNotConfigured,
        PushRefusal::NoGraph => e is Invalid && e.text() == "no graph at "@ + f.graph_path@
            + " — run `synapse index` first"@,
        PushRefusal::Dirty => e == SynapseError::DirtyTree(f.changed),
        PushRefusal::NoCommit => e is Invalid && e.text()
            == "cannot determine HEAD commit; not a git repo with commits"@,
    }
}

/// The metadata of the artifact that a push sends.
pub open spec fn pushed_meta(f: PushFacts) -> MetaView {
    MetaView {
        commit: opt_view(f.full_commit),
        branch: opt_view(f.branch),
        repo_name: nonempty(Some(f.repo_name@)),
        synapse_version: Some(f.version@),
        blob_blake3: Some(blake3_hex(f.graph->0@)),
        created_at: Some(f.now@),
    }
}

/// Run every guard of a push but its confirmation. A push must be enabled in the
/// config, its registry and repository known, the graph there, the working tree
/// clean (unless `allow_dirty`, so the commit tag actually describes what's in
/// the graph), and HEAD a commit.
pub fn plan_push(config: &ShareConfig, facts: PushFacts) -> (r: Result<PushPlan, SynapseError>)
    ensures
        match push_refusal(*config, facts) {
            Some(why) => r matches Err(e) && refusal_error(e, why, facts),
            None => r matches Ok(p) && {
                &&& p.registry@ == overridden(opt_view(facts.registry), config.registry@)
                &&& p.repository@ == overridden(opt_view(facts.repository), config.repository@)
                &&& views(p.tags@) == tags_to_push(
                    opt_view(facts.tag),
                    opt_view(facts.short_commit),
                    config.moving_tag@,
                )
                &&& p.bytes@ == facts.graph->0@
                &&& p.meta@ == pushed_meta(facts)
            },
        },
{
    if !config.push_enabled {
        return Err(SynapseError::PushDisabled);
    }
    let (registry, repository) = match resolve_share_coords(config, &facts.registry, &facts.repository) {
        Ok(pair) => pair,
        Err(e) => {
            return Err(e);
        },
    };
    let bytes = match facts.graph {
        Some(b) => b,
        None => {
            return Err(
                SynapseError::Invalid(
                    cat3("no graph at ", facts.graph_path.as_str(), " — run `synapse index` first"),
                ),
            );
        },
    };
    if !facts.allow_dirty && facts.changed > 0 {
        return Err(SynapseError::DirtyTree(facts.changed));
    }
    let commit = match facts.full_commit {
        Some(c) => c,
        None => {
            return Err(
                SynapseError::Invalid("cannot determine HEAD commit; not a git repo with commits".to_owned()),
            );
        },
    };
    let explicit = match &facts.tag {
        Some(t) => Some(t.as_str()),
        None => None,
    };
    let short = match &facts.short_commit {
        Some(t) => Some(t.as_str()),
        None => None,
    };
    let tags = push_tags(explicit, short, config.moving_tag.as_str());
    let hash = content_hash(&bytes);
    let repo_name = if facts.repo_name.as_str().is_empty() {
        None
    } else {
        Some(facts.repo_name)
    };
    let meta = GraphArtifactMeta {
        commit: Some(commit),
        branch: facts.branch,
        repo_name,
        synapse_version: Some(facts.version),
        blob_blake3: Some(hash),
        created_at: Some(facts.now),
    };
    Ok(PushPlan { registry, repository, tags, bytes, meta })
}

/// The last guard of a push: it is confirmed by `--yes`, or by typing the
/// repository of the plan at a terminal. Without a terminal it is refused rather
/// than hang.
pub fn confirm_push(plan: &PushPlan, yes: bool, interactive: bool, typed: &str) -> (r: Result<(), SynapseError>)
    ensures
        r is Ok == (yes || (interactive && trim(typed@) == plan.repository@)),
        r matches Err(e) ==> e is PushNotConfirmed,
{
    if yes {
        return Ok(());
    }
    if !interactive {
        return Err(SynapseError::PushNotConfirmed);
    }
    let t = trimmed(typed);
    if same(t.as_str(), plan.repository.as_str()) {
        Ok(())
    } else {
        Err(SynapseError::PushNotConfirmed)
    }
}

/// Result of a successful push.
pub struct PushOutcome {
    /// The references (tags) the artifact was pushed under.
    pub references: Vec<String>,
    pub digest: String,
}

/// The outcome of a push, from the manifest URLs that the registry replied with
/// for each tag.
pub fn push_graph(tags: &Vec<String>, replies: &Vec<String>) -> (r: PushOutcome)
    ensures
        views(r.references@) == views(tags@),
        r.digest@ == (if replies@.len() > 0 {
            replies@.last()@
        } else {
            ""@
        }),
{
    let digest = if replies.len() > 0 {
        replies[replies.len() - 1].clone()
    } else {
        "".to_owned()
    };
    PushOutcome { references: clone_all(tags), digest }
}

/// A pushed artifact that comes back unchanged is accepted, and says what was
/// pushed: the graph's bytes and (empty fields apart) its metadata.
pub proof fn pushed_graph_is_accepted_on_pull(f: PushFacts)
    requires
        f.graph is Some,
    ensures
        intact(f.graph->0@, manifest_meta(Some(annotations_of(pushed_meta(f))))),
        manifest_meta(Some(annotations_of(pushed_meta(f)))) == without_empty(pushed_meta(f)),
{
    annotations_round_trip(pushed_meta(f));
}

} // verus!
