//! What holds of repositories, of what git says, of the explorer and of the defaults.

use crate::config::{enabled, is_default_config, SynapseConfig, SYNAPSE_DIR};
use crate::explore::{command_line, graph_directory, graph_file, quoted, run_args, ExploreOptions};
use crate::git::{changed_paths, listed, said};
use crate::globs::glob_matches;
use crate::graph::model::Language;
use crate::lists::{keep, keep_members, sorted_set_laws};
use crate::repo::{candidates_of, git_root, is_wanted, normalized, root_of, synapse_root, Ancestor};
use crate::text::{decimal, join, lines, replace_char, text_lt, views, white};
use vstd::prelude::*;

verus! {

// --- the root -----------------------------------------------------------------------------------
proof fn nearest_synapse(dirs: Seq<Ancestor>)
    ensures
        match synapse_root(dirs) {
            Some(p) => exists|i: int|
                0 <= i < dirs.len() && (#[trigger] dirs[i]).has_synapse && dirs[i].path@ == p && forall|j: int|
                    0 <= j < i ==> !(#[trigger] dirs[j]).has_synapse,
            None => forall|i: int| 0 <= i < dirs.len() ==> !(#[trigger] dirs[i]).has_synapse,
        },
    decreases dirs.len(),
{
    if dirs.len() > 0 && !dirs[0].has_synapse {
        let rest = dirs.drop_first();
        nearest_synapse(rest);
        if let Some(p) = synapse_root(dirs) {
            let i = choose|i: int|
                0 <= i < rest.len() && (#[trigger] rest[i]).has_synapse && rest[i].path@ == p && forall|j: int|
                    0 <= j < i ==> !(#[trigger] rest[j]).has_synapse;
            assert(dirs[i + 1] == rest[i]);
            assert forall|j: int| 0 <= j < i + 1 implies !(#[trigger] dirs[j]).has_synapse by {
                if j > 0 {
                    assert(dirs[j] == rest[j - 1]);
                }
            }
        } else {
            assert forall|i: int| 0 <= i < dirs.len() implies !(#[trigger] dirs[i]).has_synapse by {
                if i > 0 {
                    assert(dirs[i] == rest[i - 1]);
                }
            }
        }
    }
}

proof fn nearest_git(dirs: Seq<Ancestor>)
    ensures
        match git_root(dirs) {
            Some(p) => exists|i: int|
                0 <= i < dirs.len() && (#[trigger] dirs[i]).has_git && dirs[i].path@ == p && forall|j: int|
                    0 <= j < i ==> !(#[trigger] dirs[j]).has_git,
            None => forall|i: int| 0 <= i < dirs.len() ==> !(#[trigger] dirs[i]).has_git,
        },
    decreases dirs.len(),
{
    if dirs.len() > 0 && !dirs[0].has_git {
        let rest = dirs.drop_first();
        nearest_git(rest);
        if let Some(p) = git_root(dirs) {
            let i = choose|i: int|
                0 <= i < rest.len() && (#[trigger] rest[i]).has_git && rest[i].path@ == p && forall|j: int|
                    0 <= j < i ==> !(#[trigger] rest[j]).has_git;
            assert(dirs[i + 1] == rest[i]);
            assert forall|j: int| 0 <= j < i + 1 implies !(#[trigger] dirs[j]).has_git by {
                if j > 0 {
                    assert(dirs[j] == rest[j - 1]);
                }
            }
        } else {
            assert forall|i: int| 0 <= i < dirs.len() implies !(#[trigger] dirs[i]).has_git by {
                if i > 0 {
                    assert(dirs[i] == rest[i - 1]);
                }
            }
        }
    }
}

/// The root is the nearest directory with the program's own directory; without one
/// the nearest with git; without either the starting directory.
pub proof fn root_is_the_nearest(start: Seq<char>, dirs: Seq<Ancestor>, i: int)
    requires
        0 <= i < dirs.len(),
    ensures
        dirs[i].has_synapse && (forall|j: int| 0 <= j < i ==> !(#[trigger] dirs[j]).has_synapse) ==> root_of(start, dirs)
            == dirs[i].path@,
        (forall|j: int| 0 <= j < dirs.len() ==> !(#[trigger] dirs[j]).has_synapse) && dirs[i].has_git && (forall|j: int|
            0 <= j < i ==> !(#[trigger] dirs[j]).has_git) ==> root_of(start, dirs) == dirs[i].path@,
        (forall|j: int| 0 <= j < dirs.len() ==> !(#[trigger] dirs[j]).has_synapse && !dirs[j].has_git) ==> root_of(
            start,
            dirs,
        ) == start,
{
    nearest_synapse(dirs);
    nearest_git(dirs);
    if dirs[i].has_synapse && (forall|j: int| 0 <= j < i ==> !(#[trigger] dirs[j]).has_synapse) {
        let p = synapse_root(dirs)->0;
        let k = choose|k: int|
            0 <= k < dirs.len() && (#[trigger] dirs[k]).has_synapse && dirs[k].path@ == p && forall|j: int|
                0 <= j < k ==> !(#[trigger] dirs[j]).has_synapse;
        assert(k == i);
    }
    if (forall|j: int| 0 <= j < dirs.len() ==> !(#[trigger] dirs[j]).has_synapse) {
        if synapse_root(dirs) is Some {
            let k = choose|k: int|
                0 <= k < dirs.len() && (#[trigger] dirs[k]).has_synapse && dirs[k].path@ == synapse_root(dirs)->0
                    && forall|j: int| 0 <= j < k ==> !(#[trigger] dirs[j]).has_synapse;
            assert(!dirs[k].has_synapse);
        }
        if dirs[i].has_git && (forall|j: int| 0 <= j < i ==> !(#[trigger] dirs[j]).has_git) {
            let k = choose|k: int|
                0 <= k < dirs.len() && (#[trigger] dirs[k]).has_git && dirs[k].path@ == git_root(dirs)->0 && forall|
                    j: int,
                | 0 <= j < k ==> !(#[trigger] dirs[j]).has_git;
            assert(k == i);
        }
    }
    if forall|j: int| 0 <= j < dirs.len() ==> !(#[trigger] dirs[j]).has_synapse && !dirs[j].has_git {
        if git_root(dirs) is Some {
            let k = choose|k: int|
                0 <= k < dirs.len() && (#[trigger] dirs[k]).has_git && dirs[k].path@ == git_root(dirs)->0 && forall|
                    j: int,
                | 0 <= j < k ==> !(#[trigger] dirs[j]).has_git;
            assert(!dirs[k].has_synapse && !dirs[k].has_git);
        }
    }
}

// --- candidates -----------------------------------------------------------------------------------
/// Every walked file that some include glob matches and no exclude glob does is a
/// candidate, with forward slashes, unless it lies in the program's own directory;
/// nothing else is. Candidates come in the order of their paths, each once.
pub proof fn candidates_are_what_the_globs_let_through(
    including: Seq<Seq<char>>,
    excluding: Seq<Seq<char>>,
    walked: Seq<Seq<char>>,
    rel: Seq<char>,
)
    ensures
        candidates_of(including, excluding, walked).contains(rel) <==> {
            &&& exists|i: int| 0 <= i < walked.len() && replace_char(#[trigger] walked[i], '\\', '/') == rel
            &&& exists|i: int| 0 <= i < including.len() && glob_matches(#[trigger] including[i], rel)
            &&& forall|i: int| 0 <= i < excluding.len() ==> !glob_matches(#[trigger] excluding[i], rel)
            &&& rel != ".synapse"@
            &&& !(".synapse/"@).is_prefix_of(rel)
        },
        forall|i: int, j: int|
            0 <= i < j < candidates_of(including, excluding, walked).len() ==> text_lt(
                #[trigger] candidates_of(including, excluding, walked)[i],
                #[trigger] candidates_of(including, excluding, walked)[j],
            ),
{
    let wanted = is_wanted(including, excluding);
    let all = normalized(walked);
    sorted_set_laws(keep(all, wanted));
    keep_members(all, wanted);
    reveal_strlit(".synapse");
    reveal_strlit("/");
    reveal_strlit(".synapse/");
    assert(SYNAPSE_DIR@ + "/"@ =~= ".synapse/"@);
    if all.contains(rel) {
        let k = all.index_of(rel);
        assert(replace_char(walked[k], '\\', '/') == rel);
    }
    if exists|i: int| 0 <= i < walked.len() && replace_char(#[trigger] walked[i], '\\', '/') == rel {
        let k = choose|i: int| 0 <= i < walked.len() && replace_char(#[trigger] walked[i], '\\', '/') == rel;
        assert(all[k] == rel);
    }
}

// --- git ------------------------------------------------------------------------------------------
/// The changed files are those that any of the three listings names, each once and
/// sorted; an empty line names none.
pub proof fn changed_files_are_those_listed(
    against_head: Option<Seq<char>>,
    unstaged: Option<Seq<char>>,
    untracked: Option<Seq<char>>,
    p: Seq<char>,
)
    ensures
        changed_paths(against_head, unstaged, untracked).contains(p) <==> p.len() > 0 && (listed(against_head).contains(p)
            || listed(unstaged).contains(p) || listed(untracked).contains(p)),
        changed_paths(against_head, unstaged, untracked).no_duplicates(),
{
    let a = listed(against_head);
    let b = listed(unstaged);
    let c = listed(untracked);
    let all = a + b + c;
    let f = |p: Seq<char>| p.len() > 0;
    sorted_set_laws(keep(all, f));
    keep_members(all, f);
    if a.contains(p) {
        assert(all[a.index_of(p)] == p);
    }
    if b.contains(p) {
        assert(all[a.len() + b.index_of(p)] == p);
    }
    if c.contains(p) {
        assert(all[a.len() + b.len() + c.index_of(p)] == p);
    }
    if all.contains(p) {
        let k = all.index_of(p);
        if k < a.len() {
            assert(a[k] == p);
        } else if k < a.len() + b.len() {
            assert(b[k - a.len()] == p);
        } else {
            assert(c[k - a.len() - b.len()] == p);
        }
    }
}

/// A listing names one file per line, with forward slashes; where git said nothing,
/// it names none.
pub proof fn a_listing_names_a_file_per_line(s: Seq<char>, i: int)
    ensures
        listed(None).len() == 0,
        listed(Some(s)).len() == lines(s).len(),
        0 <= i < lines(s).len() ==> listed(Some(s))[i] == replace_char(lines(s)[i], '\\', '/'),
        said(Some(s)) == (if s.len() > 0 {
            Some(s)
        } else {
            None
        }),
        said(None) is None,
{
}

// --- the explorer ---------------------------------------------------------------------------------
/// The container gets the port, runs in the background only where asked, is removed
/// when it ends, and is made from the image with its tag.
pub proof fn container_is_as_asked(o: ExploreOptions, dir: Seq<char>)
    ensures
        ({
            let args = run_args(o, dir);
            let n = args.len() as int;
            let at: int = if o.detach {
                3
            } else {
                2
            };
            &&& args[0] == "run"@
            &&& args[1] == "--rm"@
            &&& o.detach ==> args[2] == "-d"@
            &&& args[at] == "-p"@
            &&& args[at + 1] == decimal(o.port as nat) + ":8000"@
            &&& args[n - 1] == o.image@ + ":"@ + o.tag@
            &&& o.in_memory ==> n == at + 5 && args[at + 2] == "-e"@ && args[at + 3] == "LBUG_IN_MEMORY=true"@
            &&& !o.in_memory ==> args[at + 2] == "-v"@ && args[at + 3] == dir + ":/database"@ && args[at + 4] == "-e"@
                && args[at + 5] == "LBUG_FILE=synapse.lbug"@
            &&& !o.in_memory && o.read_write ==> n == at + 7
            &&& !o.in_memory && !o.read_write ==> n == at + 9 && args[at + 6] == "-e"@ && args[at + 7]
                == "MODE=READ_ONLY"@
        }),
{
    reveal_strlit("LBUG_FILE=");
    reveal_strlit("synapse.lbug");
    reveal_strlit("LBUG_FILE=synapse.lbug");
    assert("LBUG_FILE="@ + "synapse.lbug"@ =~= "LBUG_FILE=synapse.lbug"@);
}

/// The command line is that of docker: its arguments with blanks between them, those
/// with white space inside in quotes.
pub proof fn command_line_is_quoted(o: ExploreOptions, dir: Seq<char>, s: Seq<char>)
    ensures
        command_line(o, dir) == join(
            seq!["docker"@] + run_args(o, dir).map_values(|a: Seq<char>| quoted(a)),
            " "@,
        ),
        (forall|i: int| 0 <= i < s.len() ==> !white(#[trigger] s[i])) ==> quoted(s) == s,
        (exists|i: int| 0 <= i < s.len() && white(#[trigger] s[i])) ==> quoted(s) == seq!['"'] + s + seq!['"'],
{
    reveal_strlit("\"");
    assert("\""@ =~= seq!['"']);
}

/// The graph lies in its file, in the configured directory below the root.
pub proof fn graph_lies_below_the_root(root: Seq<char>, path: Seq<char>)
    requires
        root.len() > 0,
        root.last() != '/',
        path.len() > 0,
        path[0] != '/',
        path.last() != '/',
    ensures
        graph_directory(root, path) == root + seq!['/'] + path,
        graph_file(root, path) == root + seq!['/'] + path + seq!['/'] + "synapse.lbug"@,
{
    reveal_strlit("/");
    reveal_strlit("synapse.lbug");
    assert("/"@ =~= seq!['/']);
}

// --- defaults -------------------------------------------------------------------------------------
/// The defaults: a budget of forty thousand tokens, Markdown with the reasons, every
/// language, the graph below the program's own directory, and no pushing.
pub proof fn defaults_are(c: SynapseConfig)
    requires
        is_default_config(c),
    ensures
        c.pack.default_budget == 40_000,
        c.pack.default_format@ == "markdown"@,
        c.pack.include_selection_reasons,
        c.graph.path@ == ".synapse/graph"@,
        c.graph.backend@ == "ladybug"@,
        c.repo.root@ == "."@,
        c.repo.name@ == ""@,
        !c.share.push_enabled,
        c.share.registry@ == ""@ && c.share.repository@ == ""@,
        c.share.moving_tag@ == "latest"@,
        c.share.protocol@ == "https"@,
        c.share.auth@ == "auto"@,
        forall|l: Language| l != Language::Other ==> #[trigger] enabled(c.index.languages, l),
        views(c.index.includes@).len() == 29,
        views(c.index.excludes@).len() == 17,
        views(c.index.includes@)[0] == "**/*.cs"@,
        views(c.index.includes@)[1] == "**/*.rs"@,
        views(c.index.includes@)[2] == "**/*.py"@,
        views(c.index.includes@)[3] == "**/*.go"@,
        views(c.index.includes@)[4] == "**/*.js"@,
        views(c.index.includes@)[5] == "**/*.jsx"@,
        views(c.index.includes@)[6] == "**/*.ts"@,
        views(c.index.includes@)[7] == "**/*.tsx"@,
        views(c.index.includes@)[8] == "**/*.mjs"@,
        views(c.index.includes@)[9] == "**/*.cjs"@,
        views(c.index.includes@)[10] == "**/*.svelte"@,
        views(c.index.includes@)[11] == "**/*.sh"@,
        views(c.index.includes@)[12] == "**/*.bash"@,
        views(c.index.includes@)[13] == "**/*.zsh"@,
        views(c.index.includes@)[14] == "**/*.md"@,
        views(c.index.includes@)[15] == "**/*.markdown"@,
        views(c.index.includes@)[16] == "**/*.mdx"@,
        views(c.index.includes@)[17] == "**/*.sln"@,
        views(c.index.includes@)[18] == "**/*.csproj"@,
        views(c.index.includes@)[19] == "**/*.props"@,
        views(c.index.includes@)[20] == "**/*.targets"@,
        views(c.index.includes@)[21] == "**/*.yml"@,
        views(c.index.includes@)[22] == "**/*.yaml"@,
        views(c.index.includes@)[23] == "**/*.json"@,
        views(c.index.includes@)[24] == "**/*.toml"@,
        views(c.index.includes@)[25] == "**/package.json"@,
        views(c.index.includes@)[26] == "**/pnpm-lock.yaml"@,
        views(c.index.includes@)[27] == "**/yarn.lock"@,
        views(c.index.includes@)[28] == "**/package-lock.json"@,
        views(c.index.excludes@)[0] == "**/bin/**"@,
        views(c.index.excludes@)[1] == "**/obj/**"@,
        views(c.index.excludes@)[2] == "**/node_modules/**"@,
        views(c.index.excludes@)[3] == "**/target/**"@,
        views(c.index.excludes@)[4] == "**/dist/**"@,
        views(c.index.excludes@)[5] == "**/build/**"@,
        views(c.index.excludes@)[6] == "**/coverage/**"@,
        views(c.index.excludes@)[7] == "**/.git/**"@,
        views(c.index.excludes@)[8] == "**/.next/**"@,
        views(c.index.excludes@)[9] == "**/.turbo/**"@,
        views(c.index.excludes@)[10] == "**/.vite/**"@,
        views(c.index.excludes@)[11] == "**/*.Designer.cs"@,
        views(c.index.excludes@)[12] == "**/*.g.cs"@,
        views(c.index.excludes@)[13] == "**/*.generated.cs"@,
        views(c.index.excludes@)[14] == "**/*.min.js"@,
        views(c.index.excludes@)[15] == "**/*.bundle.js"@,
        views(c.index.excludes@)[16] == "**/*.map"@,
{
}

} // verus!
