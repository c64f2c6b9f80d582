//! Building a context pack: fit the selection to the budget and render it.

use crate::config::SynapseConfig;
use crate::errors::SynapseError;
use crate::git::GitInfo;
use crate::graph::store::{GraphStore, StoreWrite};
use crate::json::pretty_json;
use crate::pack::budget::{costs, fit, fitted, fitting, sum};
use crate::pack::json::pack_document;
use crate::pack::markdown::pack_markdown;
use crate::pack::request::{PackFormat, PackRequest, SelectedFile, SelectedView};
use crate::pack::symbols::included_symbols;
use crate::text::{opt_view, views};
use vstd::prelude::*;

verus! {

/// Result of running a pack: the rendered text (Markdown or JSON) plus the
/// selection table.
#[derive(Debug)]
pub struct PackResult {
    pub rendered: String,
    pub selection: Vec<SelectedFile>,
    pub total_tokens: usize,
}

/// The candidates once they are fitted to the budget.
pub open spec fn fitted_selection(candidates: Seq<SelectedView>, contents: Seq<Seq<char>>, budget: usize) -> Seq<
    SelectedView,
> {
    Seq::new(candidates.len(), |i: int| fitted(candidates[i], costs(contents), budget as nat, i))
}

/// What the files that fit cost together.
pub open spec fn fitted_total(contents: Seq<Seq<char>>, budget: usize) -> nat {
    sum(costs(contents).take(fitting(costs(contents), budget as nat) as int))
}

/// The text of a pack, in the format that was asked for.
pub open spec fn rendered_pack<S: GraphStore>(
    h: Seq<StoreWrite>,
    config: SynapseConfig,
    git: GitInfo,
    req: PackRequest,
    sel: Seq<SelectedView>,
    contents: Seq<Seq<char>>,
    diff: Option<Seq<char>>,
) -> Seq<char> {
    let symbols = included_symbols::<S>(h, sel);
    match req.format {
        PackFormat::Markdown => pack_markdown(
            config.repo.name@,
            config.pack.include_selection_reasons,
            git,
            req,
            sel,
            symbols,
            contents,
            diff,
        ),
        PackFormat::Json => pretty_json(pack_document(config.repo.name@, git, req, sel, symbols, contents, diff)),
    }
}

/// Build a context pack from the selected candidates, rendering in the requested
/// format. `contents` holds the text of each candidate (empty where it could not
/// be read), `diff` the working-tree diff.
pub fn build_pack<S: GraphStore>(
    store: &S,
    config: &SynapseConfig,
    git: &GitInfo,
    request: &PackRequest,
    candidates: &Vec<SelectedFile>,
    contents: &Vec<String>,
    diff: &Option<String>,
) -> (r: Result<PackResult, SynapseError>)
    requires
        store.valid(),
        contents@.len() == candidates@.len(),
    ensures
        S::infallible() ==> r is Ok,
        r matches Ok(p) ==> {
            let sel = fitted_selection(views(candidates@), views(contents@), request.budget);
            &&& views(p.selection@) == sel
            &&& p.total_tokens == fitted_total(views(contents@), request.budget)
            &&& p.rendered@ == rendered_pack::<S>(
                store.history(),
                *config,
                *git,
                *request,
                sel,
                views(contents@),
                opt_view(*diff),
            )
        },
{
    let (selection, total_tokens) = fit(candidates, contents, request.budget);
    proof {
        let sel = fitted_selection(views(candidates@), views(contents@), request.budget);
        assert forall|i: int| 0 <= i < sel.len() implies views(selection@)[i] == sel[i] by {
            assert(selection@[i]@ == fitted(
                candidates@[i]@,
                costs(views(contents@)),
                request.budget as nat,
                i,
            ));
        }
        assert(views(selection@) =~= sel);
    }
    let text = match request.format {
        PackFormat::Markdown => crate::pack::markdown::render(store, config, git, request, &selection, contents, diff),
        PackFormat::Json => crate::pack::json::render(store, config, git, request, &selection, contents, diff),
    };
    match text {
        Ok(rendered) => Ok(PackResult { rendered, selection, total_tokens }),
        Err(e) => Err(e),
    }
}

/// In a dry run the contents of the files do not show in the pack: whatever they
/// are, the text is the same.
pub proof fn dry_run_shows_no_contents<S: GraphStore>(
    h: Seq<StoreWrite>,
    config: SynapseConfig,
    git: GitInfo,
    req: PackRequest,
    sel: Seq<SelectedView>,
    a: Seq<Seq<char>>,
    b: Seq<Seq<char>>,
    diff: Option<Seq<char>>,
)
    requires
        req.dry_run,
    ensures
        rendered_pack::<S>(h, config, git, req, sel, a, diff) == rendered_pack::<S>(h, config, git, req, sel, b, diff),
{
}

} // verus!
