//! Setting up, indexing and cleaning a workspace.

use crate::cli::{CleanArgs, ExploreArgs, InitArgs};
use crate::commands::numbers::{fmt_num, shown_number, truncate_middle, truncated};
use crate::errors::SynapseError;
use crate::explore::ExploreOptions;
use crate::graph::model::IndexStats;
use crate::indexer::index::{IndexOutcome, IndexProgress};
use crate::text::{
    cat, cat3, chars_of, decimal, lines, lines_of, same, to_decimal, trim, trim_end_char, trimmed, views,
    without_end_char,
};
use vstd::prelude::*;
use vstd::string::StringExecFns;

verus! {

// --- init ------------------------------------------------------------------------------------
/// Whether a config may be written: not over an existing one, unless forced.
pub fn may_init(config_path: &str, present: bool, args: &InitArgs) -> (r: Result<(), SynapseError>)
    ensures
        r is Ok == (!present || args.force),
        r matches Err(e) ==> (e matches SynapseError::ConfigExists(p) && p@ == config_path@),
{
    if present && !args.force {
        Err(SynapseError::ConfigExists(config_path.to_owned()))
    } else {
        Ok(())
    }
}

/// The `.gitignore` entry of the graph directory.
pub open spec fn ignore_entry(graph_path: Seq<char>) -> Seq<char> {
    trim_end_char(graph_path, '/') + "/"@
}

/// A line that ignores the graph: its directory, the synapse directory, or every
/// graph file.
pub open spec fn covers(line: Seq<char>, graph_path: Seq<char>) -> bool {
    let l = trim(line);
    l == ignore_entry(graph_path) || l == trim_end_char(graph_path, '/') || l == ".synapse/"@ || l == ".synapse"@ || l
        == "**/synapse.lbug"@
}

/// Some line of a `.gitignore` ignores the graph.
pub open spec fn is_covered(text: Seq<char>, graph_path: Seq<char>) -> bool {
    exists|i: int| 0 <= i < lines(text).len() && covers(#[trigger] lines(text)[i], graph_path)
}

/// The `.gitignore` with the graph directory added at its end.
pub open spec fn with_entry(text: Seq<char>, graph_path: Seq<char>) -> Seq<char> {
    let start = if text.len() > 0 && text.last() != '\n' {
        text.push('\n')
    } else {
        text
    };
    start + "\n# SimCube Synapse local graph (share via `synapse push`, don't commit)\n"@ + ignore_entry(graph_path)
        + "\n"@
}

fn line_covers(line: &str, entry: &str, bare: &str, Ghost(graph_path): Ghost<Seq<char>>) -> (r: bool)
    requires
        entry@ == ignore_entry(graph_path),
        bare@ == trim_end_char(graph_path, '/'),
    ensures
        r == covers(line@, graph_path),
{
    let l = trimmed(line);
    let l = l.as_str();
    same(l, entry) || same(l, bare) || same(l, ".synapse/") || same(l, ".synapse") || same(l, "**/synapse.lbug")
}

/// Make sure the synapse graph working state is ignored. Returns the entry added
/// and the new text of the root `.gitignore`, or `None` if it is already covered.
/// Only the graph directory is ignored — `synapse.toml` stays committable as
/// shared config.
pub fn ensure_gitignored(text: &str, graph_path: &str) -> (r: Option<(String, String)>)
    ensures
        r is None == is_covered(text@, graph_path@),
        r matches Some((entry, new_text)) ==> entry@ == ignore_entry(graph_path@) && new_text@ == with_entry(
            text@,
            graph_path@,
        ),
{
    let bare = without_end_char(graph_path, '/');
    let entry = cat(bare.as_str(), "/");
    let all = lines_of(text);
    let mut i: usize = 0;
    while i < all.len()
        invariant
            i <= all@.len(),
            views(all@) == lines(text@),
            entry@ == ignore_entry(graph_path@),
            bare@ == trim_end_char(graph_path@, '/'),
            forall|j: int| 0 <= j < i ==> !covers(#[trigger] lines(text@)[j], graph_path@),
        decreases all@.len() - i,
    {
        assert(views(all@)[i as int] == all@[i as int]@);
        if line_covers(all[i].as_str(), entry.as_str(), bare.as_str(), Ghost(graph_path@)) {
            return None;
        }
        i += 1;
    }
    let v = chars_of(text);
    let mut out = text.to_owned();
    if v.len() > 0 && v[v.len() - 1] != '\n' {
        out.push('\n');
    }
    out.append("\n# SimCube Synapse local graph (share via `synapse push`, don't commit)\n");
    out.append(entry.as_str());
    out.append("\n");
    Some((entry, out))
}

// --- index -----------------------------------------------------------------------------------
/// What is printed after an indexing run.
pub open spec fn index_lines(o: IndexOutcome, s: IndexStats, graph_path: Seq<char>) -> Seq<Seq<char>> {
    let found = seq![
        "Indexed "@ + shown_number(o.files_indexed as nat) + " files"@,
        "Found "@ + shown_number(s.symbols as nat) + " symbols"@,
        "Found "@ + shown_number(s.edges as nat) + " project/package edges"@,
    ];
    let skipped = if o.files_skipped_unchanged > 0 {
        seq!["Skipped "@ + shown_number(o.files_skipped_unchanged as nat) + " unchanged files"@]
    } else {
        Seq::empty()
    };
    let removed = if o.files_removed > 0 {
        seq!["Removed "@ + shown_number(o.files_removed as nat) + " deleted files"@]
    } else {
        Seq::empty()
    };
    found + skipped + removed + seq!["Graph stored at "@ + graph_path]
}

/// The detailed statistics.
pub open spec fn stats_lines(s: IndexStats, candidates: usize) -> Seq<Seq<char>> {
    seq![
        ""@,
        "Stats:"@,
        "  files:    "@ + shown_number(s.files as nat),
        "  symbols:  "@ + shown_number(s.symbols as nat),
        "  projects: "@ + shown_number(s.projects as nat),
        "  packages: "@ + shown_number(s.packages as nat),
        "  edges:    "@ + shown_number(s.edges as nat),
        "  candidates considered: "@ + shown_number(candidates as nat),
    ]
}

fn count_line(before: &str, n: usize, after: &str) -> (r: String)
    ensures
        r@ == before@ + shown_number(n as nat) + after@,
{
    let d = fmt_num(n);
    cat3(before, d.as_str(), after)
}

fn stat_line(before: &str, n: usize) -> (r: String)
    ensures
        r@ == before@ + shown_number(n as nat),
{
    let d = fmt_num(n);
    cat(before, d.as_str())
}

/// The summary of an indexing run, with the detailed statistics where asked for.
pub fn index_summary(
    outcome: &IndexOutcome,
    stats: &IndexStats,
    graph_path: &str,
    candidates: usize,
    detailed: bool,
) -> (r: Vec<String>)
    ensures
        views(r@) == index_lines(*outcome, *stats, graph_path@) + (if detailed {
            stats_lines(*stats, candidates)
        } else {
            Seq::empty()
        }),
{
    let mut out: Vec<String> = Vec::new();
    out.push(count_line("Indexed ", outcome.files_indexed, " files"));
    out.push(count_line("Found ", stats.symbols, " symbols"));
    out.push(count_line("Found ", stats.edges, " project/package edges"));
    if outcome.files_skipped_unchanged > 0 {
        out.push(count_line("Skipped ", outcome.files_skipped_unchanged, " unchanged files"));
    }
    if outcome.files_removed > 0 {
        out.push(count_line("Removed ", outcome.files_removed, " deleted files"));
    }
    out.push(cat("Graph stored at ", graph_path));
    if detailed {
        out.push("".to_owned());
        out.push("Stats:".to_owned());
        out.push(stat_line("  files:    ", stats.files));
        out.push(stat_line("  symbols:  ", stats.symbols));
        out.push(stat_line("  projects: ", stats.projects));
        out.push(stat_line("  packages: ", stats.packages));
        out.push(stat_line("  edges:    ", stats.edges));
        out.push(stat_line("  candidates considered: ", candidates));
    }
    assert(views(out@) =~= index_lines(*outcome, *stats, graph_path@) + (if detailed {
        stats_lines(*stats, candidates)
    } else {
        Seq::empty()
    }));
    out
}

/// The bottom line of the progress display: the active phase, or the current
/// file.
pub open spec fn progress_bottom(p: IndexProgress, current: Seq<char>) -> Seq<char> {
    match p.phase {
        Some(phase) => match p.phase_progress {
            Some((done, total)) => "\x1b[2m"@ + phase@ + " "@ + decimal(done as nat) + "/"@ + decimal(total as nat)
                + "…\x1b[0m"@,
            None => "\x1b[2m"@ + phase@ + "…\x1b[0m"@,
        },
        None => "\x1b[2m"@ + truncated(current, 64) + "\x1b[0m"@,
    }
}

/// The message of the progress display: live counts, and what is being done.
pub open spec fn progress_text(p: IndexProgress, current: Seq<char>) -> Seq<char> {
    "\x1b[36mfiles\x1b[0m "@ + decimal(p.files_indexed as nat) + " \x1b[36msymbols\x1b[0m "@ + decimal(p.symbols as nat)
        + " \x1b[36mprojects\x1b[0m "@ + decimal(p.projects as nat) + "\n  "@ + progress_bottom(p, current)
}

/// The message of the progress display.
pub fn progress_message(p: &IndexProgress, current: &str) -> (r: String)
    ensures
        r@ == progress_text(*p, current@),
{
    let files = to_decimal(p.files_indexed as u64);
    let symbols = to_decimal(p.symbols as u64);
    let projects = to_decimal(p.projects as u64);
    let bottom = match p.phase {
        Some(phase) => match p.phase_progress {
            Some((done, total)) => {
                let d = to_decimal(done as u64);
                let t = to_decimal(total as u64);
                let mut s = cat("\x1b[2m", phase);
                s.append(" ");
                s.append(d.as_str());
                s.append("/");
                s.append(t.as_str());
                s.append("…\x1b[0m");
                s
            },
            None => cat3("\x1b[2m", phase, "…\x1b[0m"),
        },
        None => {
            let t = truncate_middle(current, 64);
            cat3("\x1b[2m", t.as_str(), "\x1b[0m")
        },
    };
    let mut s = cat("\x1b[36mfiles\x1b[0m ", files.as_str());
    s.append(" \x1b[36msymbols\x1b[0m ");
    s.append(symbols.as_str());
    s.append(" \x1b[36mprojects\x1b[0m ");
    s.append(projects.as_str());
    s.append("\n  ");
    s.append(bottom.as_str());
    s
}

// --- explore -----------------------------------------------------------------------------------
/// The options that the arguments of `explore` ask for.
pub fn explore_options(args: &ExploreArgs) -> (r: ExploreOptions)
    ensures
        r.port == args.port,
        r.read_write == args.read_write,
        r.detach == args.detach,
        r.in_memory == args.in_memory,
        r.image@ == args.image@,
        r.tag@ == args.tag@,
{
    ExploreOptions {
        port: args.port,
        read_write: args.read_write,
        detach: args.detach,
        in_memory: args.in_memory,
        image: args.image.clone(),
        tag: args.tag.clone(),
    }
}

// --- clean -------------------------------------------------------------------------------------
/// The directories to clean, in order.
pub open spec fn cleaned(args: CleanArgs) -> Seq<Seq<char>> {
    let cache = if args.cache || args.all {
        seq!["cache"@]
    } else {
        Seq::empty()
    };
    let index = if args.index || args.all {
        seq!["graph"@]
    } else {
        Seq::empty()
    };
    let packs = if args.packs || args.all {
        seq!["packs"@]
    } else {
        Seq::empty()
    };
    cache + index + packs
}

/// Which directories of the workspace to clean; an error where none is named.
pub fn clean_choice(args: &CleanArgs) -> (r: Result<Vec<String>, SynapseError>)
    ensures
        r is Err == (cleaned(*args).len() == 0),
        r matches Ok(v) ==> views(v@) == cleaned(*args),
        r matches Err(e) ==> e is Invalid && e.text()
            == "specify what to clean: --cache, --index, --packs, or --all"@,
{
    let mut out: Vec<String> = Vec::new();
    if args.cache || args.all {
        out.push("cache".to_owned());
    }
    if args.index || args.all {
        out.push("graph".to_owned());
    }
    if args.packs || args.all {
        out.push("packs".to_owned());
    }
    assert(views(out@) =~= cleaned(*args));
    if out.len() == 0 {
        Err(SynapseError::Invalid("specify what to clean: --cache, --index, --packs, or --all".to_owned()))
    } else {
        Ok(out)
    }
}

} // verus!
