//! What holds of every selection and of every list of related files.

use crate::graph::memory_store::depth_path_order;
use crate::graph::model::{FileView, RelatedView};
use crate::indexer::languages::generated_path;
use crate::lists::{best_of, best_of_laws, keep, keep_members, text_le_transitive};
use crate::pack::related::{finalized, nearer_stays, same_related_file, specificity, within};
use crate::pack::request::SelectedView;
use crate::pack::selector::{
    as_selected, is_indexed, kept, lower_tier_first, ranked, same_file, tier_path_order, CandidateView,
};
use crate::sorting::{sorted, stable_sort, stable_sort_keeps, stable_sort_sorted, total_preorder};
use crate::text::{text_lt, text_lt_asymmetric};
use vstd::prelude::*;

verus! {

pub proof fn tier_path_order_total()
    ensures
        total_preorder(tier_path_order()),
{
    let le = tier_path_order();
    assert forall|a: SelectedView, b: SelectedView| #![trigger le(a, b)] le(a, b) || le(b, a) by {
        if text_lt(b.path, a.path) {
            text_lt_asymmetric(b.path, a.path);
        }
    }
    assert forall|a: SelectedView, b: SelectedView, c: SelectedView|
        #![trigger le(a, b), le(b, c)]
        le(a, b) && le(b, c) implies le(a, c) by {
        if a.tier == b.tier && b.tier == c.tier {
            text_le_transitive(a.path, b.path, c.path);
        }
    }
}

pub proof fn depth_path_order_total()
    ensures
        total_preorder(depth_path_order()),
{
    let le = depth_path_order();
    assert forall|a: RelatedView, b: RelatedView| #![trigger le(a, b)] le(a, b) || le(b, a) by {
        if text_lt(b.path, a.path) {
            text_lt_asymmetric(b.path, a.path);
        }
    }
    assert forall|a: RelatedView, b: RelatedView, c: RelatedView|
        #![trigger le(a, b), le(b, c)]
        le(a, b) && le(b, c) implies le(a, c) by {
        if a.depth == b.depth && b.depth == c.depth {
            text_le_transitive(a.path, b.path, c.path);
        }
    }
}

/// Sorting a list in which no two elements have the same key gives a list in
/// which no two have.
proof fn sorting_keeps_distinct<T, K>(s: Seq<T>, le: spec_fn(T, T) -> bool, key: spec_fn(T) -> K)
    requires
        forall|i: int, j: int| 0 <= i < j < s.len() ==> key(#[trigger] s[i]) != key(#[trigger] s[j]),
    ensures
        forall|i: int, j: int|
            0 <= i < j < stable_sort(s, le).len() ==> key(#[trigger] stable_sort(s, le)[i]) != key(
                #[trigger] stable_sort(s, le)[j],
            ),
{
    let r = stable_sort(s, le);
    stable_sort_keeps(s, le);
    assert(s.no_duplicates());
    s.lemma_multiset_has_no_duplicates();
    r.lemma_multiset_has_no_duplicates_conv();
    assert forall|i: int, j: int| 0 <= i < j < r.len() implies key(#[trigger] r[i]) != key(#[trigger] r[j]) by {
        assert(r.contains(r[i]) && r.contains(r[j]));
        let a = s.index_of(r[i]);
        let b = s.index_of(r[j]);
        assert(r[i] != r[j]);
        if a < b {
            assert(key(s[a]) != key(s[b]));
        } else if b < a {
            assert(key(s[b]) != key(s[a]));
        }
    }
}

/// A selection is ordered by tier and then by path; no path occurs twice.
pub proof fn selection_is_ordered(
    cands: Seq<CandidateView>,
    indexed: Seq<FileView>,
    include_tests: bool,
    include_config: bool,
)
    ensures
        sorted(ranked(cands, indexed, include_tests, include_config), tier_path_order()),
        forall|i: int, j: int|
            0 <= i < j < ranked(cands, indexed, include_tests, include_config).len() ==> (#[trigger] ranked(
                cands,
                indexed,
                include_tests,
                include_config,
            )[i]).path != (#[trigger] ranked(cands, indexed, include_tests, include_config)[j]).path,
{
    let passing = keep(
        cands,
        |c: CandidateView| is_indexed(indexed, c.path) && kept(c, include_tests, include_config),
    );
    let best = best_of(passing, same_file(), lower_tier_first());
    best_of_laws(
        passing,
        same_file(),
        lower_tier_first(),
        |c: CandidateView| c.path,
        |c: CandidateView| c.tier as int,
    );
    let mapped = best.map_values(|c: CandidateView| as_selected(c));
    let key = |x: SelectedView| x.path;
    assert forall|i: int, j: int| 0 <= i < j < mapped.len() implies key(#[trigger] mapped[i]) != key(
        #[trigger] mapped[j],
    ) by {
        assert(best[i].path != best[j].path);
    }
    sorting_keeps_distinct(mapped, tier_path_order(), key);
    tier_path_order_total();
    stable_sort_sorted(mapped, tier_path_order());
    let r = ranked(cands, indexed, include_tests, include_config);
    assert forall|i: int, j: int| 0 <= i < j < r.len() implies (#[trigger] r[i]).path != (#[trigger] r[j]).path by {
        assert(key(r[i]) != key(r[j]));
    }
}

/// Everything selected is an indexed file that survives the flag rules, taken
/// over from one of the candidates, and no candidate for the same file that
/// survives them has a lower tier. In particular no generated file is ever
/// selected.
pub proof fn selection_is_sound(
    cands: Seq<CandidateView>,
    indexed: Seq<FileView>,
    include_tests: bool,
    include_config: bool,
    x: SelectedView,
)
    requires
        ranked(cands, indexed, include_tests, include_config).contains(x),
    ensures
        is_indexed(indexed, x.path),
        !generated_path(x.path),
        x.included && x.estimated_tokens == 0,
        exists|c: CandidateView|
            #[trigger] cands.contains(c) && kept(c, include_tests, include_config) && x == as_selected(c),
        forall|c: CandidateView|
            #[trigger] cands.contains(c) && kept(c, include_tests, include_config) && c.path == x.path ==> x.tier
                <= c.tier,
{
    let p = |c: CandidateView| is_indexed(indexed, c.path) && kept(c, include_tests, include_config);
    let passing = keep(cands, p);
    keep_members(cands, p);
    let best = best_of(passing, same_file(), lower_tier_first());
    let key = |c: CandidateView| c.path;
    let order = |c: CandidateView| c.tier as int;
    best_of_laws(passing, same_file(), lower_tier_first(), key, order);
    let mapped = best.map_values(|c: CandidateView| as_selected(c));
    stable_sort_keeps(mapped, tier_path_order());
    assert(mapped.contains(x));
    let i = mapped.index_of(x);
    assert(passing.contains(best[i]));
    assert(cands.contains(best[i]));
    assert forall|c: CandidateView|
        #[trigger] cands.contains(c) && kept(c, include_tests, include_config) && c.path == x.path implies x.tier
        <= c.tier by {
        assert(passing.contains(c));
        let k = passing.index_of(c);
        let m = choose|m: int|
            0 <= m < best.len() && key(#[trigger] best[m]) == key(passing[k]) && order(best[m]) <= order(passing[k]);
        if m < i {
            assert(key(best[m]) != key(best[i]));
        } else if i < m {
            assert(key(best[i]) != key(best[m]));
        }
    }
}

/// Every indexed candidate that survives the flag rules has its file selected.
pub proof fn selection_is_complete(
    cands: Seq<CandidateView>,
    indexed: Seq<FileView>,
    include_tests: bool,
    include_config: bool,
    c: CandidateView,
)
    requires
        cands.contains(c),
        is_indexed(indexed, c.path),
        kept(c, include_tests, include_config),
    ensures
        exists|x: SelectedView|
            #[trigger] ranked(cands, indexed, include_tests, include_config).contains(x) && x.path == c.path,
{
    let p = |c: CandidateView| is_indexed(indexed, c.path) && kept(c, include_tests, include_config);
    let passing = keep(cands, p);
    keep_members(cands, p);
    let best = best_of(passing, same_file(), lower_tier_first());
    let key = |c: CandidateView| c.path;
    let order = |c: CandidateView| c.tier as int;
    best_of_laws(passing, same_file(), lower_tier_first(), key, order);
    let mapped = best.map_values(|c: CandidateView| as_selected(c));
    stable_sort_keeps(mapped, tier_path_order());
    assert(passing.contains(c));
    let k = passing.index_of(c);
    let m = choose|m: int|
        0 <= m < best.len() && key(#[trigger] best[m]) == key(passing[k]) && order(best[m]) <= order(passing[k]);
    let x = mapped[m];
    assert(mapped.contains(x));
    assert(ranked(cands, indexed, include_tests, include_config).contains(x));
}

/// The order in which related items are preferred: nearer first, then the more
/// specific reason.
pub open spec fn related_rank(i: RelatedView) -> int {
    8 * (i.depth as int) - specificity(i.reason) as int
}

proof fn nearer_stays_ranks(a: RelatedView, b: RelatedView)
    ensures
        nearer_stays()(a, b) == (related_rank(a) <= related_rank(b)),
{
}

/// Related files are ordered by depth and then by path; no path occurs twice;
/// each is an indexed file within the depth ceiling, at its smallest depth and
/// there with its most specific reason.
pub proof fn related_list_is_ordered(items: Seq<RelatedView>, depth: usize, indexed: Seq<FileView>)
    ensures
        sorted(finalized(items, depth, indexed), depth_path_order()),
        forall|i: int, j: int|
            0 <= i < j < finalized(items, depth, indexed).len() ==> (#[trigger] finalized(items, depth, indexed)[i]).path
                != (#[trigger] finalized(items, depth, indexed)[j]).path,
        forall|x: RelatedView| #[trigger]
            finalized(items, depth, indexed).contains(x) ==> items.contains(x) && within(indexed, depth, x),
        forall|x: RelatedView, y: RelatedView|
            #[trigger] finalized(items, depth, indexed).contains(x) && #[trigger] items.contains(y) && within(
                indexed,
                depth,
                y,
            ) && x.path == y.path ==> x.depth < y.depth || (x.depth == y.depth && specificity(x.reason)
                >= specificity(y.reason)),
        forall|y: RelatedView|
            #[trigger] items.contains(y) && within(indexed, depth, y) ==> exists|x: RelatedView| #[trigger]
                finalized(items, depth, indexed).contains(x) && x.path == y.path,
{
    let p = |i: RelatedView| within(indexed, depth, i);
    let passing = keep(items, p);
    keep_members(items, p);
    let best = best_of(passing, same_related_file(), nearer_stays());
    let key = |i: RelatedView| i.path;
    let order = |i: RelatedView| related_rank(i);
    best_of_laws(passing, same_related_file(), nearer_stays(), key, order);
    sorting_keeps_distinct(best, depth_path_order(), key);
    depth_path_order_total();
    stable_sort_sorted(best, depth_path_order());
    stable_sort_keeps(best, depth_path_order());
    let r = finalized(items, depth, indexed);
    assert forall|i: int, j: int| 0 <= i < j < r.len() implies (#[trigger] r[i]).path != (#[trigger] r[j]).path by {
        assert(key(r[i]) != key(r[j]));
    }
    assert forall|x: RelatedView| #[trigger] r.contains(x) implies items.contains(x) && within(indexed, depth, x) by {
        assert(best.contains(x));
        let i = best.index_of(x);
        assert(passing.contains(best[i]));
    }
    assert forall|x: RelatedView, y: RelatedView|
        #[trigger] r.contains(x) && #[trigger] items.contains(y) && within(indexed, depth, y) && x.path
            == y.path implies x.depth < y.depth || (x.depth == y.depth && specificity(x.reason) >= specificity(
        y.reason,
    )) by {
        assert(best.contains(x));
        let i = best.index_of(x);
        assert(passing.contains(y));
        let k = passing.index_of(y);
        let m = choose|m: int|
            0 <= m < best.len() && key(#[trigger] best[m]) == key(passing[k]) && order(best[m]) <= order(passing[k]);
        if m < i {
            assert(key(best[m]) != key(best[i]));
        } else if i < m {
            assert(key(best[i]) != key(best[m]));
        }
        nearer_stays_ranks(x, y);
    }
    assert forall|y: RelatedView| #[trigger] items.contains(y) && within(indexed, depth, y) implies exists|
        x: RelatedView,
    | #[trigger] r.contains(x) && x.path == y.path by {
        assert(passing.contains(y));
        let k = passing.index_of(y);
        let m = choose|m: int|
            0 <= m < best.len() && key(#[trigger] best[m]) == key(passing[k]) && order(best[m]) <= order(passing[k]);
        assert(best.contains(best[m]));
        assert(r.contains(best[m]));
    }
}

} // verus!
