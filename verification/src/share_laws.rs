//! What holds of publishing and fetching a graph.

use crate::config::ShareConfig;
use crate::errors::SynapseError;
use crate::hashing::blake3_hex;
use crate::json::{item, text_or_null, JsonView};
use crate::share::{
    annotations_of, auth_order, config_entries, confirm_push, env_credentials, freshness, manifest_meta, meta_of,
    nonempty, origin_entries, plan_push, pull_graph, pull_target, push_graph, registry_error, tags_to_push,
    uses_plain_http, Annotations, AuthSource, Credentials, CredentialsView, FreshnessView, MetaView, PulledGraph,
    PushFacts, PushOutcome, PushPlan, ShareTarget,
};
use crate::text::{decimal, has, lower, opt_view, trim, views};
use vstd::prelude::*;

verus! {

// --- pushing --------------------------------------------------------------------------------------
/// What is given on the command line goes before what is configured.
pub open spec fn given_or_configured(given: Option<String>, configured: Seq<char>) -> Seq<char> {
    if given is Some && given->0@.len() > 0 {
        given->0@
    } else {
        configured
    }
}

/// A push goes ahead exactly where it is enabled, the registry and the repository
/// are known, there is a graph, the working tree is clean or that is waived, and the
/// commit is known. It then pushes the graph as it is, under the commit it was made
/// at, with its hash.
pub proof fn push_goes_ahead_where_everything_is_there(
    config: &ShareConfig,
    f: PushFacts,
    r: Result<PushPlan, SynapseError>,
)
    requires
        call_ensures(plan_push, (config, f), r),
    ensures
        r is Ok <==> {
            &&& config.push_enabled
            &&& given_or_configured(f.registry, config.registry@).len() > 0
            &&& given_or_configured(f.repository, config.repository@).len() > 0
            &&& f.graph is Some
            &&& f.allow_dirty || f.changed == 0
            &&& f.full_commit is Some
        },
        !config.push_enabled ==> (r matches Err(e) && e is PushDisabled),
        r matches Ok(p) ==> {
            &&& p.registry@ == given_or_configured(f.registry, config.registry@)
            &&& p.repository@ == given_or_configured(f.repository, config.repository@)
            &&& p.bytes@ == f.graph->0@
            &&& p.meta@.commit == Some(f.full_commit->0@)
            &&& p.meta@.branch == opt_view(f.branch)
            &&& p.meta@.blob_blake3 == Some(blake3_hex(f.graph->0@))
            &&& p.meta@.synapse_version == Some(f.version@)
            &&& p.meta@.created_at == Some(f.now@)
            &&& f.repo_name@.len() > 0 ==> p.meta@.repo_name == Some(f.repo_name@)
        },
        config.push_enabled && given_or_configured(f.registry, config.registry@).len() > 0 && given_or_configured(
            f.repository,
            config.repository@,
        ).len() > 0 && f.graph is Some && !f.allow_dirty && f.changed > 0 ==> r == Err::<PushPlan, SynapseError>(
            SynapseError::DirtyTree(f.changed),
        ),
{
}

/// A push is tagged with the tag that was given, else with the short commit, and
/// with the moving tag besides.
pub proof fn pushes_are_tagged(explicit: Option<Seq<char>>, short: Option<Seq<char>>, moving: Seq<char>, t: Seq<char>)
    ensures
        tags_to_push(explicit, short, moving).contains(t) <==> t.len() > 0 && (t == moving || explicit == Some(t) || ((
        explicit is None || explicit->0.len() == 0) && short == Some(t))),
{
    let all = tags_to_push(explicit, short, moving);
    let first = match nonempty(explicit) {
        Some(t) => seq![t],
        None => match nonempty(short) {
            Some(t) => seq![t],
            None => Seq::empty(),
        },
    };
    if first.len() > 0 {
        assert(first[0] == first[0]);
        assert(first.contains(first[0]));
        assert(all[0] == first[0]);
    }
    if moving.len() > 0 && !first.contains(moving) {
        assert(all[all.len() - 1] == moving);
    }
    if first.contains(moving) {
        assert(first[0] == moving);
    }
    if all.contains(t) {
        let k = all.index_of(t);
        assert(all[k] == t);
    }
}

/// A push is confirmed by the switch, or by typing the repository at a terminal.
pub proof fn pushes_are_confirmed(
    plan: &PushPlan,
    yes: bool,
    interactive: bool,
    typed: &str,
    r: Result<(), SynapseError>,
)
    requires
        call_ensures(confirm_push, (plan, yes, interactive, typed), r),
    ensures
        r is Ok <==> yes || (interactive && trim(typed@) == plan.repository@),
{
}

/// The outcome names every tag, and the last reply.
pub proof fn outcome_names_every_tag(tags: &Vec<String>, replies: &Vec<String>, r: PushOutcome)
    requires
        call_ensures(push_graph, (tags, replies), r),
    ensures
        views(r.references@) == views(tags@),
        replies@.len() > 0 ==> r.digest@ == replies@[replies@.len() - 1]@,
{
}

// --- annotations ----------------------------------------------------------------------------------
/// Every field is annotated under its own key, the commit under two.
pub proof fn fields_are_annotated(m: MetaView, c: Seq<char>)
    ensures
        c.len() > 0 && m.commit == Some(c) ==> annotations_of(m)["com.simcube.synapse.commit"@] == c && annotations_of(
            m,
        )["org.opencontainers.image.revision"@] == c,
        c.len() > 0 && m.branch == Some(c) ==> annotations_of(m)["com.simcube.synapse.branch"@] == c,
        c.len() > 0 && m.blob_blake3 == Some(c) ==> annotations_of(m)["com.simcube.synapse.blake3"@] == c,
        c.len() > 0 && m.created_at == Some(c) ==> annotations_of(m)["org.opencontainers.image.created"@] == c,
        c.len() > 0 && m.synapse_version == Some(c) ==> annotations_of(m)["org.opencontainers.image.version"@] == c,
        c.len() > 0 && m.repo_name == Some(c) ==> annotations_of(m)["org.opencontainers.image.title"@] == c,
{
    crate::share::annotation_keys_differ();
}

/// The commit is read from the program's own key, else from the common one.
pub proof fn commit_is_read_from_either_key(a: Map<Seq<char>, Seq<char>>)
    ensures
        a.contains_key("com.simcube.synapse.commit"@) && a["com.simcube.synapse.commit"@].len() > 0 ==> meta_of(
            a,
        ).commit == Some(a["com.simcube.synapse.commit"@]),
        !a.contains_key("com.simcube.synapse.commit"@) && a.contains_key("org.opencontainers.image.revision"@)
            && a["org.opencontainers.image.revision"@].len() > 0 ==> meta_of(a).commit == Some(
            a["org.opencontainers.image.revision"@],
        ),
{
}

/// The config blob tells the metadata, and a sidecar where a graph came from.
pub proof fn blobs_tell_the_metadata(
    m: MetaView,
    registry: Seq<char>,
    repository: Seq<char>,
    tag: Seq<char>,
    now: Seq<char>,
)
    ensures
        config_entries(m).contains(item("tool"@, JsonView::Text("synapse"@))),
        config_entries(m).contains(item("schemaVersion"@, JsonView::Number(decimal(1)))),
        config_entries(m).contains(item("synapseVersion"@, text_or_null(m.synapse_version))),
        config_entries(m).contains(item("commit"@, text_or_null(m.commit))),
        config_entries(m).contains(item("branch"@, text_or_null(m.branch))),
        config_entries(m).contains(item("repo"@, text_or_null(m.repo_name))),
        config_entries(m).contains(item("blake3"@, text_or_null(m.blob_blake3))),
        config_entries(m).contains(item("createdAt"@, text_or_null(m.created_at))),
        origin_entries(registry, repository, tag, m, now).contains(item("source"@, JsonView::Text("registry"@))),
        origin_entries(registry, repository, tag, m, now).contains(item("registry"@, JsonView::Text(registry))),
        origin_entries(registry, repository, tag, m, now).contains(item("repository"@, JsonView::Text(repository))),
        origin_entries(registry, repository, tag, m, now).contains(item("tag"@, JsonView::Text(tag))),
        origin_entries(registry, repository, tag, m, now).contains(item("commit"@, text_or_null(m.commit))),
        origin_entries(registry, repository, tag, m, now).contains(item("branch"@, text_or_null(m.branch))),
        origin_entries(registry, repository, tag, m, now).contains(
            item("synapseVersion"@, text_or_null(m.synapse_version)),
        ),
        origin_entries(registry, repository, tag, m, now).contains(item("blake3"@, text_or_null(m.blob_blake3))),
        origin_entries(registry, repository, tag, m, now).contains(item("pulledAt"@, JsonView::Text(now))),
{
    let c = config_entries(m);
    assert(c[0] == item("schemaVersion"@, JsonView::Number(decimal(1))));
    assert(c[1] == item("tool"@, JsonView::Text("synapse"@)));
    assert(c[2] == item("synapseVersion"@, text_or_null(m.synapse_version)));
    assert(c[3] == item("commit"@, text_or_null(m.commit)));
    assert(c[4] == item("branch"@, text_or_null(m.branch)));
    assert(c[5] == item("repo"@, text_or_null(m.repo_name)));
    assert(c[6] == item("blake3"@, text_or_null(m.blob_blake3)));
    assert(c[7] == item("createdAt"@, text_or_null(m.created_at)));
    let o = origin_entries(registry, repository, tag, m, now);
    assert(o[0] == item("source"@, JsonView::Text("registry"@)));
    assert(o[1] == item("registry"@, JsonView::Text(registry)));
    assert(o[2] == item("repository"@, JsonView::Text(repository)));
    assert(o[3] == item("tag"@, JsonView::Text(tag)));
    assert(o[4] == item("commit"@, text_or_null(m.commit)));
    assert(o[5] == item("branch"@, text_or_null(m.branch)));
    assert(o[6] == item("synapseVersion"@, text_or_null(m.synapse_version)));
    assert(o[7] == item("blake3"@, text_or_null(m.blob_blake3)));
    assert(o[8] == item("pulledAt"@, JsonView::Text(now)));
}

// --- pulling --------------------------------------------------------------------------------------
/// What is pulled is taken as it is, and refused where its hash is not the one that
/// was annotated.
pub proof fn pulled_graphs_are_checked(
    layer: Option<Vec<u8>>,
    annotations: &Option<Annotations>,
    r: Result<PulledGraph, SynapseError>,
)
    requires
        call_ensures(pull_graph, (layer, annotations), r),
    ensures
        layer is None ==> r is Err,
        r matches Ok(p) ==> layer is Some && p.bytes@ == layer->0@ && (p.meta@.blob_blake3 matches Some(hash)
            ==> blake3_hex(p.bytes@) == hash),
        layer is Some && annotations is None ==> r is Ok,
        layer is Some && annotations is Some && annotations->0@.contains_key("com.simcube.synapse.blake3"@)
            && annotations->0@["com.simcube.synapse.blake3"@].len() > 0
            && annotations->0@["com.simcube.synapse.blake3"@] != blake3_hex(layer->0@) ==> (r matches Err(e) && e
            is IntegrityMismatch),
{
    let meta = manifest_meta(opt_view(*annotations));
    if layer is Some && annotations is Some {
        assert(opt_view(*annotations) == Some(annotations->0@));
    }
}

/// A graph is pulled from where it is asked for or configured, under the tag that is
/// given or else the moving one.
pub proof fn pulls_come_from_where_they_should(
    config: &ShareConfig,
    registry: &Option<String>,
    repository: &Option<String>,
    tag: Option<&str>,
    r: Result<ShareTarget, SynapseError>,
)
    requires
        call_ensures(pull_target, (config, registry, repository, tag), r),
    ensures
        r matches Ok(t) ==> t.registry@ == given_or_configured(*registry, config.registry@) && t.repository@
            == given_or_configured(*repository, config.repository@) && t.tag@ == (if tag is Some && tag->0@.len() > 0 {
            tag->0@
        } else {
            config.moving_tag@
        }),
        r is Err <==> given_or_configured(*registry, config.registry@).len() == 0 || given_or_configured(
            *repository,
            config.repository@,
        ).len() == 0,
{
}

/// Commits are the same where one abbreviates the other, in any case of letters, and
/// differ otherwise; an unknown or empty one cannot be compared.
pub proof fn commits_are_compared(g: Seq<char>, h: Seq<char>, rest: Seq<char>)
    ensures
        g.len() > 0 ==> freshness(Some(g), Some(g)) is Match && freshness(Some(g), Some(g + rest)) is Match && freshness(
            Some(g + rest),
            Some(g),
        ) is Match && freshness(Some(lower(g)), Some(g)) is Match,
        g.len() > 0 && g.len() == h.len() && lower(g) != lower(h) ==> freshness(Some(g), Some(h)) == (
        FreshnessView::Mismatch { graph_commit: g, head_commit: h }),
        freshness(None, Some(h)) is Unknown,
        freshness(Some(g), None) is Unknown,
        freshness(Some(Seq::empty()), Some(h)) is Unknown,
{
    assert(g.take(g.len() as int) =~= g);
    assert(h.take(h.len() as int) =~= h);
    assert((g + rest).take(g.len() as int) =~= g);
    crate::text_laws::lower_laws(g);
    assert(lower(g).take(g.len() as int) =~= lower(g));
}

// --- credentials ----------------------------------------------------------------------------------
/// Credentials are looked for where the strategy says: nowhere, in the environment,
/// with docker, or in the environment first and with docker next.
pub proof fn credentials_are_looked_for()
    ensures
        auth_order("anonymous"@).len() == 0,
        auth_order("env"@) == seq![AuthSource::Environment],
        auth_order("docker"@) == seq![AuthSource::Docker],
        auth_order("auto"@) == seq![AuthSource::Environment, AuthSource::Docker],
{
    reveal_strlit("anonymous");
    reveal_strlit("env");
    reveal_strlit("docker");
    reveal_strlit("auto");
    assert("anonymous"@.len() == 9 && "env"@.len() == 3 && "docker"@.len() == 6 && "auto"@.len() == 4);
}

/// A token goes before a user with a password, and one without the other is nothing.
pub proof fn tokens_go_first(
    token: Option<String>,
    user: Option<String>,
    password: Option<String>,
    r: Option<Credentials>,
)
    requires
        call_ensures(env_credentials, (token, user, password), r),
    ensures
        token is Some && token->0@.len() > 0 ==> opt_view(r) == Some(CredentialsView::Bearer(token->0@)),
        (token is None || token->0@.len() == 0) && user is Some && user->0@.len() > 0 && password is Some ==> opt_view(r)
            == Some(CredentialsView::Basic(user->0@, password->0@)),
        (token is None || token->0@.len() == 0) && (user is None || user->0@.len() == 0 || password is None) ==> r is None,
{
}

/// Only the protocol `http` is spoken in plain text.
pub proof fn plain_text_is_asked_for(config: &ShareConfig, r: bool)
    requires
        call_ensures(uses_plain_http, (config,), r),
    ensures
        r <==> config.protocol@ == "http"@,
{
}

/// A failure is told as one of authorization where its message says so, and else as
/// one of the network; either way with that message.
pub proof fn failures_are_told_apart(message: String, r: SynapseError)
    requires
        call_ensures(registry_error, (message,), r),
    ensures
        has(lower(message@), "auth"@) || has(lower(message@), "401"@) ==> (r matches SynapseError::RegistryAuth(m) && m@
            == message@),
        !(has(lower(message@), "auth"@) || has(lower(message@), "401"@) || has(lower(message@), "unauthorized"@)) ==> (r
            matches SynapseError::RegistryNetwork(m) && m@ == message@),
{
}

} // verus!
