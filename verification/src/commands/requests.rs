//! What the arguments of `symbols` and `pack` ask for.

use crate::cli::{PackArgs, SymbolsArgs};
use crate::config::PackConfig;
use crate::errors::SynapseError;
use crate::graph::model::{Language, SymbolKind, SymbolQueryView, SymbolSearchQuery};
use crate::lists::{take_next, take_none, take_whole, views_push};
use crate::pack::request::{PackFormat, PackMode, PackRequest, SelectedFile, SelectedView};
use crate::text::{cat, cat3, clone_opt, decimal, lower, opt_view, to_decimal, views};
use vstd::prelude::*;
use vstd::string::StringExecFns;

verus! {

/// The search that the arguments of `symbols` ask for. A kind or language that is
/// not known filters nothing.
pub open spec fn asked_symbols(args: SymbolsArgs) -> SymbolQueryView {
    SymbolQueryView {
        name: opt_view(args.query),
        kind: match args.kind {
            Some(k) => SymbolKind::named(lower(k@)),
            None => None,
        },
        language: match args.language {
            Some(l) => Language::named(lower(l@)),
            None => None,
        },
        file: opt_view(args.file),
    }
}

/// The search that the arguments of `symbols` ask for.
pub fn symbol_query(args: &SymbolsArgs) -> (r: SymbolSearchQuery)
    ensures
        r@ == asked_symbols(*args),
{
    let kind = match &args.kind {
        Some(k) => SymbolKind::from_str_opt(k.as_str()),
        None => None,
    };
    let language = match &args.language {
        Some(l) => Language::from_str_opt(l.as_str()),
        None => None,
    };
    SymbolSearchQuery { name: clone_opt(&args.query), kind, language, file: clone_opt(&args.file) }
}

/// The scope that the arguments of `pack` ask for; the first that is given.
pub enum ScopeView {
    Changed,
    Path(Seq<char>),
    Symbol(Seq<char>),
    Query(Seq<char>),
}

pub open spec fn asked_scope(args: PackArgs) -> Option<ScopeView> {
    if args.changed {
        Some(ScopeView::Changed)
    } else if args.path is Some {
        Some(ScopeView::Path(args.path->0@))
    } else if args.symbol is Some {
        Some(ScopeView::Symbol(args.symbol->0@))
    } else if args.query is Some {
        Some(ScopeView::Query(args.query->0@))
    } else {
        None
    }
}

pub open spec fn scope_of(m: PackMode) -> ScopeView {
    match m {
        PackMode::Changed => ScopeView::Changed,
        PackMode::Path(p) => ScopeView::Path(p@),
        PackMode::Symbol(s) => ScopeView::Symbol(s@),
        PackMode::Query(q) => ScopeView::Query(q@),
    }
}

/// The format that is asked for: explicit, else the configured default.
pub open spec fn asked_format(args: PackArgs, config: PackConfig) -> Seq<char> {
    match args.format {
        Some(f) => f@,
        None => config.default_format@,
    }
}

/// Which files a pack is about.
pub fn pack_mode(args: &PackArgs) -> (r: Option<PackMode>)
    ensures
        r is Some == asked_scope(*args) is Some,
        r matches Some(m) ==> asked_scope(*args) == Some(scope_of(m)),
{
    if args.changed {
        return Some(PackMode::Changed);
    }
    match &args.path {
        Some(p) => {
            return Some(PackMode::Path(p.clone()));
        },
        None => {},
    }
    match &args.symbol {
        Some(s) => {
            return Some(PackMode::Symbol(s.clone()));
        },
        None => {},
    }
    match &args.query {
        Some(q) => Some(PackMode::Query(q.clone())),
        None => None,
    }
}

/// The request that the arguments of `pack` make. Without a scope, or with a
/// format that is not known, there is none.
pub fn pack_request(args: &PackArgs, config: &PackConfig) -> (r: Result<PackRequest, SynapseError>)
    ensures
        ({
            let format = PackFormat::named(lower(asked_format(*args, *config)));
            match r {
                Ok(q) => {
                    &&& asked_scope(*args) == Some(scope_of(q.mode))
                    &&& format == Some(q.format)
                    &&& q.budget == (match args.budget {
                        Some(b) => b,
                        None => config.default_budget,
                    })
                    &&& q.depth == args.depth
                    &&& q.include_tests == args.include_tests
                    &&& q.include_config == args.include_config
                    &&& q.include_diff == args.include_diff
                    &&& q.dry_run == args.dry_run
                    &&& q.explain == args.explain
                },
                Err(e) => {
                    &&& e is Invalid
                    &&& asked_scope(*args) is None ==> e.text()
                        == "provide one of --changed, --path, --symbol or --query"@
                    &&& asked_scope(*args) is Some ==> format is None && e.text() == "unknown pack format `"@
                        + asked_format(*args, *config) + "` (use markdown or json)"@
                },
            }
        }),
{
    let mode = match pack_mode(args) {
        Some(m) => m,
        None => {
            return Err(
                SynapseError::Invalid("provide one of --changed, --path, --symbol or --query".to_owned()),
            );
        },
    };
    let name = match &args.format {
        Some(f) => f.as_str(),
        None => config.default_format.as_str(),
    };
    let format = match PackFormat::from_str_opt(name) {
        Some(f) => f,
        None => {
            return Err(
                SynapseError::Invalid(cat3("unknown pack format `", name, "` (use markdown or json)")),
            );
        },
    };
    let budget: usize = match args.budget {
        Some(b) => b,
        None => config.default_budget,
    };
    Ok(
        PackRequest {
            mode,
            budget,
            depth: args.depth,
            include_tests: args.include_tests,
            include_config: args.include_config,
            include_diff: args.include_diff,
            dry_run: args.dry_run,
            explain: args.explain,
            format,
        },
    )
}

/// The two lines that explain one selected file.
pub open spec fn explained(f: SelectedView) -> Seq<Seq<char>> {
    seq![
        "  ["@ + decimal(f.tier as nat) + "] "@ + f.path + " (~"@ + decimal(f.estimated_tokens as nat) + " tok)"@ + (
        if f.included {
            ""@
        } else {
            " [trimmed]"@
        }),
        "       "@ + f.reason,
    ]
}

pub open spec fn explained_all(sel: Seq<SelectedView>) -> Seq<Seq<char>>
    decreases sel.len(),
{
    if sel.len() == 0 {
        Seq::empty()
    } else {
        explained_all(sel.drop_last()) + explained(sel.last())
    }
}

/// What `pack --explain` shows of the selection.
pub open spec fn explanation(sel: Seq<SelectedView>, total: usize) -> Seq<Seq<char>> {
    seq!["Selection ("@ + decimal(total as nat) + " tokens):"@] + explained_all(sel)
}

/// What `pack --explain` shows of the selection.
pub fn explain_selection(sel: &Vec<SelectedFile>, total: usize) -> (r: Vec<String>)
    ensures
        views(r@) == explanation(views(sel@), total),
{
    let ghost all = views(sel@);
    let count = to_decimal(total as u64);
    let mut out: Vec<String> = Vec::new();
    out.push(cat3("Selection (", count.as_str(), " tokens):"));
    let ghost head = seq!["Selection ("@ + decimal(total as nat) + " tokens):"@];
    let mut i: usize = 0;
    proof {
        take_none(all);
        assert(views(out@) =~= head + explained_all(all.take(0)));
    }
    while i < sel.len()
        invariant
            i <= sel@.len(),
            all == views(sel@),
            views(out@) == head + explained_all(all.take(i as int)),
        decreases sel@.len() - i,
    {
        let f = &sel[i];
        let tier = to_decimal(f.tier as u64);
        let tokens = to_decimal(f.estimated_tokens as u64);
        let mut line = cat("  [", tier.as_str());
        line.append("] ");
        line.append(f.path.as_str());
        line.append(" (~");
        line.append(tokens.as_str());
        line.append(" tok)");
        if f.included {
            line.append("");
        } else {
            line.append(" [trimmed]");
        }
        let reason = cat("       ", f.reason.as_str());
        proof {
            take_next(all, i as int);
            assert(all[i as int] == f@);
            views_push(out@, line);
            views_push(out@.push(line), reason);
            assert(explained(f@) =~= seq![line@, reason@]);
            assert(head + explained_all(all.take(i as int + 1)) =~= (head + explained_all(all.take(i as int))).push(
                line@,
            ).push(reason@));
        }
        out.push(line);
        out.push(reason);
        i += 1;
    }
    proof {
        take_whole(all);
    }
    out
}

/// How many files of a selection are included.
pub fn count_included(sel: &Vec<SelectedFile>) -> (r: usize)
    ensures
        r == crate::lists::keep(views(sel@), |f: SelectedView| f.included).len(),
{
    let ghost all = views(sel@);
    let ghost p = |f: SelectedView| f.included;
    let mut n: usize = 0;
    let mut i: usize = 0;
    proof {
        take_none(all);
    }
    while i < sel.len()
        invariant
            i <= sel@.len(),
            n <= i,
            all == views(sel@),
            p == (|f: SelectedView| f.included),
            n == crate::lists::keep(all.take(i as int), p).len(),
        decreases sel@.len() - i,
    {
        proof {
            take_next(all, i as int);
            assert(all[i as int] == sel@[i as int]@);
        }
        if sel[i].included {
            n += 1;
        }
        i += 1;
    }
    proof {
        take_whole(all);
    }
    n
}

} // verus!
