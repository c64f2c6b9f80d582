//! Token estimation and greedy budget-fitting for context packs.
//!
//! Estimation is deliberately crude and deterministic: roughly four characters
//! per token, with a small fixed per-file overhead to account for the Markdown
//! heading and code fence that wrap each file. Fitting preserves the incoming
//! candidate order (tier, then path) — that order *is* the priority, so nothing
//! is re-sorted by size.

use crate::pack::request::{SelectedFile, SelectedView};
use crate::text::{char_count, decode_lossy, lossy_text, views};
use vstd::prelude::*;

verus! {

/// Fixed per-file token overhead for the `### path` heading and code fence.
pub const PER_FILE_OVERHEAD: usize = 8;

/// About `chars / 4`; at least one for text that is not empty.
pub open spec fn tokens(text: Seq<char>) -> nat {
    if text.len() == 0 {
        0
    } else if text.len() < 4 {
        1
    } else {
        text.len() / 4
    }
}

/// Estimate the number of tokens in `text` as roughly `chars / 4`.
///
/// Non-empty text always estimates at least one token.
pub fn estimate_tokens(text: &str) -> (r: usize)
    ensures
        r == tokens(text@),
        r <= usize::MAX / 4 + 1,
{
    let n: usize = char_count(text);
    if n == 0 {
        0
    } else if n < 4 {
        1
    } else {
        n / 4
    }
}

/// The text of a file: its bytes as far as they are UTF-8; empty where it could
/// not be read.
pub open spec fn text_of(bytes: Option<Seq<u8>>) -> Seq<char> {
    match bytes {
        Some(b) => lossy_text(b),
        None => ""@,
    }
}

/// The text of a file, from its bytes.
pub fn file_text(bytes: &Option<Vec<u8>>) -> (r: String)
    ensures
        r@ == text_of(
            match *bytes {
                Some(b) => Some(b@),
                None => None,
            },
        ),
{
    match bytes {
        Some(b) => decode_lossy(b),
        None => "".to_owned(),
    }
}

/// What a file with this text costs: nothing where it is empty.
pub open spec fn cost(text: Seq<char>) -> nat {
    if text.len() == 0 {
        0
    } else {
        tokens(text) + PER_FILE_OVERHEAD as nat
    }
}

/// The costs of the texts.
pub open spec fn costs(texts: Seq<Seq<char>>) -> Seq<nat> {
    texts.map_values(|t: Seq<char>| cost(t))
}

pub open spec fn sum(s: Seq<nat>) -> nat
    decreases s.len(),
{
    if s.len() == 0 {
        0
    } else {
        sum(s.drop_last()) + s.last()
    }
}

/// How many files, from the first on, fit the budget together.
pub open spec fn fitting(costs: Seq<nat>, budget: nat) -> nat
    decreases costs.len(),
{
    if costs.len() == 0 {
        0
    } else if sum(costs) <= budget {
        costs.len()
    } else {
        fitting(costs.drop_last(), budget)
    }
}

/// The candidate at `i` once its cost is known: included where it and everything
/// before it fit the budget together.
pub open spec fn fitted(c: SelectedView, costs: Seq<nat>, budget: nat, i: int) -> SelectedView {
    SelectedView { estimated_tokens: costs[i] as usize, included: i < fitting(costs, budget), ..c }
}

proof fn sum_monotone(s: Seq<nat>, i: int, j: int)
    requires
        0 <= i <= j <= s.len(),
    ensures
        sum(s.take(i)) <= sum(s.take(j)),
    decreases j - i,
{
    if i < j {
        crate::lists::take_next(s, j - 1);
        sum_monotone(s, i, j - 1);
    }
}

/// The files that fit are exactly those whose running total stays within budget.
pub proof fn fitting_is_running_total(costs: Seq<nat>, budget: nat)
    ensures
        fitting(costs, budget) <= costs.len(),
        sum(costs.take(fitting(costs, budget) as int)) <= budget,
        forall|i: int| 0 <= i < costs.len() ==> (i < fitting(costs, budget) <==> #[trigger] sum(costs.take(i + 1)) <= budget),
    decreases costs.len(),
{
    if costs.len() > 0 {
        let rest = costs.drop_last();
        crate::lists::take_whole(costs);
        if sum(costs) <= budget {
            assert forall|i: int| 0 <= i < costs.len() implies #[trigger] sum(costs.take(i + 1)) <= budget by {
                sum_monotone(costs, i + 1, costs.len() as int);
            }
        } else {
            fitting_is_running_total(rest, budget);
            let n = fitting(rest, budget) as int;
            assert(rest.take(n) =~= costs.take(n));
            assert forall|i: int| 0 <= i < costs.len() implies (i < n <==> #[trigger] sum(costs.take(i + 1)) <= budget) by {
                if i < rest.len() {
                    assert(rest.take(i + 1) =~= costs.take(i + 1));
                }
            }
        }
    } else {
        assert(costs.take(0) =~= costs);
    }
}

/// Fit `candidates` within `budget`, preserving their order. `contents` holds the
/// text of each candidate (empty where it could not be read).
///
/// Files are marked `included` while the running total stays within budget; the
/// first file that would overflow (and every file after it) is marked
/// `included = false` but is still returned so the selection summary can show it
/// as trimmed.
///
/// Returns the updated candidate list and the total tokens of *included* files.
pub fn fit(candidates: &Vec<SelectedFile>, contents: &Vec<String>, budget: usize) -> (r: (Vec<SelectedFile>, usize))
    requires
        contents@.len() == candidates@.len(),
    ensures
        r.0@.len() == candidates@.len(),
        forall|i: int|
            0 <= i < candidates@.len() ==> (#[trigger] r.0@[i])@ == fitted(
                candidates@[i]@,
                costs(views(contents@)),
                budget as nat,
                i,
            ),
        r.1 == sum(costs(views(contents@)).take(fitting(costs(views(contents@)), budget as nat) as int)),
        r.1 <= budget,
{
    let ghost all = costs(views(contents@));
    let ghost room = budget as nat;
    let mut out: Vec<SelectedFile> = Vec::new();
    let mut running: usize = 0;
    let mut open = true;
    let mut i: usize = 0;
    proof {
        crate::lists::take_none(all);
        fitting_is_running_total(all, room);
    }
    while i < candidates.len()
        invariant
            i <= candidates@.len(),
            contents@.len() == candidates@.len(),
            all == costs(views(contents@)),
            room == budget,
            out@.len() == i,
            running <= budget,
            fitting(all, room) <= all.len(),
            open ==> i <= fitting(all, room) && running == sum(all.take(i as int)),
            !open ==> fitting(all, room) < i && running == sum(all.take(fitting(all, room) as int)),
            forall|j: int| 0 <= j < i ==> (#[trigger] out@[j])@ == fitted(candidates@[j]@, all, room, j),
        decreases candidates@.len() - i,
    {
        let body: usize = estimate_tokens(contents[i].as_str());
        let price: usize = if body == 0 {
            0
        } else {
            body + PER_FILE_OVERHEAD
        };
        proof {
            assert(views(contents@)[i as int] == contents@[i as int]@);
            assert(all[i as int] == price);
            fitting_is_running_total(all, room);
            crate::lists::take_next(all, i as int);
            assert(sum(all.take(i as int + 1)) == sum(all.take(i as int)) + price);
        }
        if open && price <= budget - running {
            running = running + price;
        } else {
            open = false;
        }
        let c = &candidates[i];
        out.push(
            SelectedFile {
                path: c.path.clone(),
                reason: c.reason.clone(),
                tier: c.tier,
                estimated_tokens: price,
                included: open,
            },
        );
        i += 1;
    }
    (out, running)
}

/// What is included is the highest-priority part of the selection: where a file
/// is included, so is every file before it.
pub proof fn included_files_come_first(costs: Seq<nat>, budget: nat, c: SelectedView, d: SelectedView, i: int, j: int)
    requires
        0 <= i <= j < costs.len(),
        fitted(d, costs, budget, j).included,
    ensures
        fitted(c, costs, budget, i).included,
{
}

/// The estimate is a quarter of the characters, rounded down, and at least one for a
/// text that is not empty; each file that is not empty costs eight tokens more.
pub proof fn estimate_is_a_quarter(text: Seq<char>)
    ensures
        tokens(text) == 0 <==> text.len() == 0,
        text.len() >= 4 ==> 4 * tokens(text) <= text.len() < 4 * tokens(text) + 4,
        0 < text.len() < 4 ==> tokens(text) == 1,
        text.len() > 0 ==> cost(text) == tokens(text) + 8,
        text.len() == 0 ==> cost(text) == 0,
{
}

/// A longer text never costs less.
pub proof fn longer_costs_no_less(a: Seq<char>, b: Seq<char>)
    requires
        a.len() <= b.len(),
    ensures
        tokens(a) <= tokens(b),
        cost(a) <= cost(b),
{
}

/// How many characters the texts have together.
pub open spec fn characters(texts: Seq<Seq<char>>) -> nat
    decreases texts.len(),
{
    if texts.len() == 0 {
        0
    } else {
        characters(texts.drop_last()) + texts.last().len()
    }
}

proof fn characters_cost(texts: Seq<Seq<char>>)
    ensures
        characters(texts) <= 4 * sum(costs(texts)),
    decreases texts.len(),
{
    if texts.len() > 0 {
        characters_cost(texts.drop_last());
        assert(costs(texts).drop_last() =~= costs(texts.drop_last()));
        estimate_is_a_quarter(texts.last());
    }
}

/// The files that a pack includes hold together no more than four characters for
/// each token of the budget; what is included is as much as fits: the next file would
/// have gone over the budget.
pub proof fn included_texts_fit_the_budget(texts: Seq<Seq<char>>, budget: nat)
    ensures
        fitting(costs(texts), budget) <= texts.len(),
        characters(texts.take(fitting(costs(texts), budget) as int)) <= 4 * budget,
        fitting(costs(texts), budget) < texts.len() ==> sum(
            costs(texts.take(fitting(costs(texts), budget) as int + 1)),
        ) > budget,
{
    let all = costs(texts);
    fitting_is_running_total(all, budget);
    let n = fitting(all, budget) as int;
    characters_cost(texts.take(n));
    assert(costs(texts.take(n)) =~= all.take(n));
    if n < texts.len() {
        assert(costs(texts.take(n + 1)) =~= all.take(n + 1));
        assert(!(n < fitting(all, budget)));
    }
}

/// Fitting changes nothing of a candidate but its cost and whether it is included.
pub proof fn fitting_keeps_the_candidate(c: SelectedView, costs: Seq<nat>, budget: nat, i: int)
    ensures
        fitted(c, costs, budget, i).path == c.path,
        fitted(c, costs, budget, i).reason == c.reason,
        fitted(c, costs, budget, i).tier == c.tier,
        0 <= i < costs.len() && costs[i] <= usize::MAX ==> fitted(c, costs, budget, i).estimated_tokens == costs[i],
        0 <= i < costs.len() ==> fitted(c, costs, budget, i).included == (sum(costs.take(i + 1)) <= budget),
{
    fitting_is_running_total(costs, budget);
}

} // verus!
