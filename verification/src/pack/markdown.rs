//! Renders a selected pack as portable Markdown: a title, the request and the
//! repository, the selection, the symbols, and (unless in `--dry-run`) each file
//! under its own heading in a fenced block.

use crate::config::SynapseConfig;
use crate::errors::SynapseError;
use crate::git::GitInfo;
use crate::graph::model::{IndexedSymbol, SymbolView};
use crate::graph::store::GraphStore;
use crate::indexer::languages::{detect, language_of};
use crate::lists::{take_next, take_none, take_whole};
use crate::pack::request::{PackRequest, SelectedFile, SelectedView};
use crate::pack::symbols::{collect_symbols, included_symbols};
use crate::text::{cat, decimal, opt_view, to_decimal, views};
use vstd::prelude::*;
use vstd::string::StringExecFns;

verus! {

/// A text, or a dash where there is none.
pub open spec fn or_dash(o: Option<Seq<char>>) -> Seq<char> {
    match o {
        Some(s) => s,
        None => "-"@,
    }
}

fn text_or_dash(o: &Option<String>) -> (r: String)
    ensures
        r@ == or_dash(opt_view(*o)),
{
    match o {
        Some(s) => s.clone(),
        None => "-".to_owned(),
    }
}

/// The title, and what the pack is of.
pub open spec fn heading_section(name: Seq<char>, git: GitInfo, req: PackRequest) -> Seq<char> {
    "# SimCube Synapse Context Pack\n\n- Mode: "@ + req.mode.label_text() + "\n- Query: "@ + req.mode.asked()
        + "\n- Repository: "@ + (if name.len() == 0 {
        "-"@
    } else {
        name
    }) + "\n- Branch: "@ + or_dash(opt_view(git.branch)) + "\n- Commit: "@ + or_dash(opt_view(git.commit))
        + "\n\n## Selection Summary\n\n"@
}

/// One line of the selection, with its reason where reasons are shown.
pub open spec fn selection_line(f: SelectedView, reasons: bool) -> Seq<char> {
    "- `"@ + f.path + "` (tier "@ + decimal(f.tier as nat) + ", ~"@ + decimal(f.estimated_tokens as nat) + " tokens"@
        + (if f.included {
        Seq::empty()
    } else {
        ", trimmed"@
    }) + ")"@ + (if reasons {
        ": "@ + f.reason
    } else {
        Seq::empty()
    }) + "\n"@
}

pub open spec fn selection_lines(sel: Seq<SelectedView>, reasons: bool) -> Seq<char>
    decreases sel.len(),
{
    if sel.len() == 0 {
        Seq::empty()
    } else {
        selection_lines(sel.drop_last(), reasons) + selection_line(sel.last(), reasons)
    }
}

/// One line of the symbols.
pub open spec fn symbol_line(s: SymbolView) -> Seq<char> {
    "- `"@ + s.full_name + "` ("@ + s.kind.name() + ") "@ + s.file_path + ":"@ + decimal(s.start_line as nat) + "\n"@
}

pub open spec fn symbol_lines(symbols: Seq<SymbolView>) -> Seq<char>
    decreases symbols.len(),
{
    if symbols.len() == 0 {
        Seq::empty()
    } else {
        symbol_lines(symbols.drop_last()) + symbol_line(symbols.last())
    }
}

/// One file, under its path, in a fenced block.
pub open spec fn file_section(f: SelectedView, contents: Seq<char>) -> Seq<char> {
    "\n### "@ + f.path + "\n\n```"@ + language_of(f.path).fence_name() + "\n"@ + contents + "\n```\n"@
}

pub open spec fn file_sections(sel: Seq<SelectedView>, contents: Seq<Seq<char>>) -> Seq<char>
    decreases sel.len(),
{
    if sel.len() == 0 {
        Seq::empty()
    } else {
        let rest = file_sections(sel.drop_last(), contents);
        if sel.last().included {
            rest + file_section(sel.last(), contents[sel.len() - 1])
        } else {
            rest
        }
    }
}

/// The Markdown of a pack (`reasons`: each selected file shows why).
pub open spec fn pack_markdown(
    name: Seq<char>,
    reasons: bool,
    git: GitInfo,
    req: PackRequest,
    sel: Seq<SelectedView>,
    symbols: Seq<SymbolView>,
    contents: Seq<Seq<char>>,
    diff: Option<Seq<char>>,
) -> Seq<char> {
    let summary = heading_section(name, git, req) + selection_lines(sel, reasons) + "\n## Symbols\n\n"@ + symbol_lines(symbols);
    let body = if req.dry_run {
        summary
    } else {
        summary + "\n## Files\n"@ + file_sections(sel, contents)
    };
    if req.include_diff && diff is Some {
        body + "\n## Diff\n\n```diff\n"@ + diff->0 + "\n```\n"@
    } else {
        body
    }
}

fn push_heading(out: &mut String, name: &str, git: &GitInfo, req: &PackRequest)
    ensures
        final(out)@ == old(out)@ + heading_section(name@, *git, *req),
{
    let ghost start = out@;
    let branch = text_or_dash(&git.branch);
    let commit = text_or_dash(&git.commit);
    let asked = req.mode.query_text();
    let mut s = cat("# SimCube Synapse Context Pack\n\n- Mode: ", req.mode.label());
    s.append("\n- Query: ");
    s.append(asked.as_str());
    s.append("\n- Repository: ");
    if name.is_empty() {
        s.append("-");
    } else {
        s.append(name);
    }
    s.append("\n- Branch: ");
    s.append(branch.as_str());
    s.append("\n- Commit: ");
    s.append(commit.as_str());
    s.append("\n\n## Selection Summary\n\n");
    out.append(s.as_str());
}

fn push_selection_line(out: &mut String, f: &SelectedFile, reasons: bool)
    ensures
        final(out)@ == old(out)@ + selection_line(f@, reasons),
{
    let tier = to_decimal(f.tier as u64);
    let tokens = to_decimal(f.estimated_tokens as u64);
    let mut s = cat("- `", f.path.as_str());
    s.append("` (tier ");
    s.append(tier.as_str());
    s.append(", ~");
    s.append(tokens.as_str());
    s.append(" tokens");
    if !f.included {
        s.append(", trimmed");
    }
    s.append(")");
    if reasons {
        s.append(": ");
        s.append(f.reason.as_str());
    }
    s.append("\n");
    out.append(s.as_str());
    assert(out@ =~= old(out)@ + selection_line(f@, reasons));
}

fn push_symbol_line(out: &mut String, x: &IndexedSymbol)
    ensures
        final(out)@ == old(out)@ + symbol_line(x@),
{
    let line = to_decimal(x.start_line as u64);
    let mut s = cat("- `", x.full_name.as_str());
    s.append("` (");
    s.append(x.kind.as_str());
    s.append(") ");
    s.append(x.file_path.as_str());
    s.append(":");
    s.append(line.as_str());
    s.append("\n");
    out.append(s.as_str());
}

fn push_file(out: &mut String, f: &SelectedFile, contents: &str)
    ensures
        final(out)@ == old(out)@ + file_section(f@, contents@),
{
    let mut s = cat("\n### ", f.path.as_str());
    s.append("\n\n```");
    s.append(detect(f.path.as_str()).fence());
    s.append("\n");
    s.append(contents);
    s.append("\n```\n");
    out.append(s.as_str());
}

/// The Markdown pack, from the selection and the symbols of its files. `contents`
/// holds the text of each selected file, `diff` the working-tree diff.
pub fn render_document(
    name: &str,
    reasons: bool,
    git: &GitInfo,
    req: &PackRequest,
    sel: &Vec<SelectedFile>,
    symbols: &Vec<IndexedSymbol>,
    contents: &Vec<String>,
    diff: &Option<String>,
) -> (r: String)
    requires
        contents@.len() == sel@.len(),
    ensures
        r@ == pack_markdown(
            name@,
            reasons,
            *git,
            *req,
            views(sel@),
            views(symbols@),
            views(contents@),
            opt_view(*diff),
        ),
{
    let ghost all = views(sel@);
    let ghost syms = views(symbols@);
    let ghost texts = views(contents@);
    let mut out = String::new();
    push_heading(&mut out, name, git, req);
    let ghost head = heading_section(name@, *git, *req);
    let mut i: usize = 0;
    proof {
        take_none(all);
        assert(out@ =~= head + selection_lines(all.take(0), reasons));
    }
    while i < sel.len()
        invariant
            i <= sel@.len(),
            all == views(sel@),
            out@ == head + selection_lines(all.take(i as int), reasons),
        decreases sel@.len() - i,
    {
        proof {
            take_next(all, i as int);
            assert(all[i as int] == sel@[i as int]@);
        }
        push_selection_line(&mut out, &sel[i], reasons);
        assert(out@ =~= head + selection_lines(all.take(i as int + 1), reasons));
        i += 1;
    }
    out.append("\n## Symbols\n\n");
    let ghost upper = out@;
    let mut j: usize = 0;
    proof {
        take_whole(all);
        take_none(syms);
        assert(out@ =~= upper + symbol_lines(syms.take(0)));
    }
    while j < symbols.len()
        invariant
            j <= symbols@.len(),
            syms == views(symbols@),
            out@ == upper + symbol_lines(syms.take(j as int)),
        decreases symbols@.len() - j,
    {
        proof {
            take_next(syms, j as int);
            assert(syms[j as int] == symbols@[j as int]@);
        }
        push_symbol_line(&mut out, &symbols[j]);
        assert(out@ =~= upper + symbol_lines(syms.take(j as int + 1)));
        j += 1;
    }
    proof {
        take_whole(syms);
    }
    if !req.dry_run {
        out.append("\n## Files\n");
        let ghost top = out@;
        let mut k: usize = 0;
        proof {
            take_none(all);
            assert(out@ =~= top + file_sections(all.take(0), texts));
        }
        while k < sel.len()
            invariant
                k <= sel@.len(),
                contents@.len() == sel@.len(),
                all == views(sel@),
                texts == views(contents@),
                out@ == top + file_sections(all.take(k as int), texts),
            decreases sel@.len() - k,
        {
            proof {
                take_next(all, k as int);
                assert(all[k as int] == sel@[k as int]@);
                assert(texts[k as int] == contents@[k as int]@);
            }
            if sel[k].included {
                push_file(&mut out, &sel[k], contents[k].as_str());
                assert(out@ =~= top + file_sections(all.take(k as int + 1), texts));
            }
            k += 1;
        }
        proof {
            take_whole(all);
        }
    }
    if req.include_diff {
        match diff {
            Some(d) => {
                out.append("\n## Diff\n\n```diff\n");
                out.append(d.as_str());
                out.append("\n```\n");
            },
            None => {},
        }
    }
    out
}

/// Render the selected files (and supporting metadata) as a Markdown context pack.
pub fn render<S: GraphStore>(
    store: &S,
    config: &SynapseConfig,
    git: &GitInfo,
    req: &PackRequest,
    sel: &Vec<SelectedFile>,
    contents: &Vec<String>,
    diff: &Option<String>,
) -> (r: Result<String, SynapseError>)
    requires
        store.valid(),
        contents@.len() == sel@.len(),
    ensures
        S::infallible() ==> r is Ok,
        r matches Ok(s) ==> s@ == pack_markdown(
            config.repo.name@,
            config.pack.include_selection_reasons,
            *git,
            *req,
            views(sel@),
            included_symbols::<S>(store.history(), views(sel@)),
            views(contents@),
            opt_view(*diff),
        ),
{
    match collect_symbols(store, sel) {
        Ok(symbols) => Ok(
            render_document(
                config.repo.name.as_str(),
                config.pack.include_selection_reasons,
                git,
                req,
                sel,
                &symbols,
                contents,
                diff,
            ),
        ),
        Err(e) => Err(e),
    }
}

} // verus!
