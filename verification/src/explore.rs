//! Launching Ladybug Explorer (a Docker image) to visualize the indexed graph:
//! the command line, and when there is a graph to show.
//!
//! The container is always run with `--rm` so it cleans up after itself. The graph
//! lives at `<root>/.synapse/graph/synapse.lbug`; Explorer mounts the containing
//! directory at `/database` and is told the file name via the `LBUG_FILE`
//! environment variable.

use crate::errors::SynapseError;
use crate::lists::{take_next, take_whole, views_push};
use crate::paths::{join_path, joined};
use crate::text::{cat, cat3, chars_of, decimal, is_white, join, join_with, to_decimal, views, white};
use vstd::prelude::*;

verus! {

/// File name of the LadybugDB graph within the graph directory.
pub const GRAPH_FILE: &'static str = "synapse.lbug";

/// Options controlling how the Explorer container is launched.
#[derive(Debug)]
pub struct ExploreOptions {
    pub port: u16,
    pub read_write: bool,
    pub detach: bool,
    pub in_memory: bool,
    pub image: String,
    pub tag: String,
}

/// What the container is told of the graph: nothing to mount in memory, else the
/// directory, the file and (unless edits are allowed) that it is read-only.
pub open spec fn database_args(in_memory: bool, read_write: bool, graph_dir: Seq<char>) -> Seq<Seq<char>> {
    if in_memory {
        seq!["-e"@, "LBUG_IN_MEMORY=true"@]
    } else {
        let mount = seq!["-v"@, graph_dir + ":/database"@, "-e"@, "LBUG_FILE="@ + GRAPH_FILE@];
        if read_write {
            mount
        } else {
            mount + seq!["-e"@, "MODE=READ_ONLY"@]
        }
    }
}

/// The arguments of `docker`.
pub open spec fn run_args(o: ExploreOptions, graph_dir: Seq<char>) -> Seq<Seq<char>> {
    let start = if o.detach {
        seq!["run"@, "--rm"@, "-d"@]
    } else {
        seq!["run"@, "--rm"@]
    };
    start + seq!["-p"@, decimal(o.port as nat) + ":8000"@] + database_args(o.in_memory, o.read_write, graph_dir) + seq![
        o.image@ + ":"@ + o.tag@,
    ]
}

/// Build the `docker run` argument vector (excluding the leading `docker`).
///
/// `graph_dir` is the absolute path to the directory containing the `.lbug` file.
pub fn docker_args(opts: &ExploreOptions, graph_dir: &str) -> (r: Vec<String>)
    ensures
        views(r@) == run_args(*opts, graph_dir@),
{
    let mut args: Vec<String> = Vec::new();
    args.push("run".to_owned());
    args.push("--rm".to_owned());
    if opts.detach {
        args.push("-d".to_owned());
    }
    args.push("-p".to_owned());
    let port = to_decimal(opts.port as u64);
    args.push(cat(port.as_str(), ":8000"));
    if opts.in_memory {
        // Ephemeral: no mount; Explorer ignores -v in this mode.
        args.push("-e".to_owned());
        args.push("LBUG_IN_MEMORY=true".to_owned());
    } else {
        args.push("-v".to_owned());
        args.push(cat(graph_dir, ":/database"));
        args.push("-e".to_owned());
        args.push(cat("LBUG_FILE=", GRAPH_FILE));
        // READ_ONLY is unsupported with in-memory, so only set it when mounting.
        if !opts.read_write {
            args.push("-e".to_owned());
            args.push("MODE=READ_ONLY".to_owned());
        }
    }
    args.push(cat3(opts.image.as_str(), ":", opts.tag.as_str()));
    assert(views(args@) =~= run_args(*opts, graph_dir@));
    args
}

/// Some character of the text is white space.
pub open spec fn has_space(s: Seq<char>) -> bool {
    exists|i: int| 0 <= i < s.len() && white(#[trigger] s[i])
}

/// An argument as a shell needs it: quoted where it would be split.
pub open spec fn quoted(s: Seq<char>) -> Seq<char> {
    if has_space(s) {
        "\""@ + s + "\""@
    } else {
        s
    }
}

fn quote(s: &str) -> (r: String)
    ensures
        r@ == quoted(s@),
{
    let v = chars_of(s);
    let mut i: usize = 0;
    while i < v.len()
        invariant
            i <= v@.len(),
            v@ == s@,
            forall|j: int| 0 <= j < i ==> !white(#[trigger] v@[j]),
        decreases v@.len() - i,
    {
        if is_white(v[i]) {
            return cat3("\"", s, "\"");
        }
        i += 1;
    }
    s.to_owned()
}

/// The full command line.
pub open spec fn command_line(o: ExploreOptions, graph_dir: Seq<char>) -> Seq<char> {
    join(seq!["docker"@] + run_args(o, graph_dir).map_values(|a: Seq<char>| quoted(a)), " "@)
}

/// Render the full, copy-pasteable `docker run …` command line.
pub fn docker_command_string(opts: &ExploreOptions, graph_dir: &str) -> (r: String)
    ensures
        r@ == command_line(*opts, graph_dir@),
{
    let args = docker_args(opts, graph_dir);
    let ghost target = run_args(*opts, graph_dir@).map_values(|a: Seq<char>| quoted(a));
    let mut parts: Vec<String> = Vec::new();
    parts.push("docker".to_owned());
    let mut i: usize = 0;
    assert(views(parts@) =~= seq!["docker"@] + target.take(0));
    while i < args.len()
        invariant
            i <= args@.len(),
            views(args@) == run_args(*opts, graph_dir@),
            target == run_args(*opts, graph_dir@).map_values(|a: Seq<char>| quoted(a)),
            views(parts@) == seq!["docker"@] + target.take(i as int),
        decreases args@.len() - i,
    {
        let q = quote(args[i].as_str());
        proof {
            take_next(target, i as int);
            assert(views(args@)[i as int] == args@[i as int]@);
            assert(target[i as int] == q@);
            views_push(parts@, q);
            assert(seq!["docker"@] + target.take(i as int + 1) =~= (seq!["docker"@] + target.take(i as int)).push(q@));
        }
        parts.push(q);
        i += 1;
    }
    proof {
        take_whole(target);
    }
    join_with(&parts, " ")
}

/// The directory of the graph.
pub open spec fn graph_directory(root: Seq<char>, graph_path: Seq<char>) -> Seq<char> {
    join_path(root, graph_path)
}

/// The file of the graph.
pub open spec fn graph_file(root: Seq<char>, graph_path: Seq<char>) -> Seq<char> {
    join_path(graph_directory(root, graph_path), GRAPH_FILE@)
}

/// Path of the graph file of a repo.
pub fn graph_file_path(root: &str, graph_path: &str) -> (r: String)
    ensures
        r@ == graph_file(root@, graph_path@),
{
    let dir = joined(root, graph_path);
    joined(dir.as_str(), GRAPH_FILE)
}

/// Resolve the graph directory for a repo, erroring if the index is absent.
/// `found` says whether the graph file is there.
pub fn graph_dir(root: &str, graph_path: &str, found: bool) -> (r: Result<String, SynapseError>)
    ensures
        r is Ok == found,
        r matches Ok(d) ==> d@ == graph_directory(root@, graph_path@),
        r matches Err(e) ==> (e matches SynapseError::Backend(m) && m@ == "no graph found at "@ + graph_file(
            root@,
            graph_path@,
        ) + " — run `synapse index` first"@),
{
    if found {
        Ok(joined(root, graph_path))
    } else {
        let file = graph_file_path(root, graph_path);
        Err(SynapseError::Backend(cat3("no graph found at ", file.as_str(), " — run `synapse index` first")))
    }
}

/// Unless edits are asked for, a mounted graph is always read-only.
pub proof fn mounted_graph_is_read_only(o: ExploreOptions, graph_dir: Seq<char>)
    requires
        !o.in_memory,
    ensures
        run_args(o, graph_dir).contains("MODE=READ_ONLY"@) || o.read_write,
        run_args(o, graph_dir).contains(graph_dir + ":/database"@),
        run_args(o, graph_dir).len() > 2 && run_args(o, graph_dir)[1] == "--rm"@,
{
    let a = run_args(o, graph_dir);
    let n = if o.detach {
        5int
    } else {
        4int
    };
    assert(a[n + 1] == graph_dir + ":/database"@);
    if !o.read_write {
        assert(a[n + 5] == "MODE=READ_ONLY"@);
    }
}

} // verus!
