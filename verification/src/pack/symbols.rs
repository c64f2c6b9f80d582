//! The symbols declared in the files of a pack.

use crate::errors::SynapseError;
use crate::graph::model::{IndexedSymbol, SymbolQueryView, SymbolSearchQuery, SymbolView};
use crate::graph::store::{GraphStore, StoreWrite};
use crate::lists::{flat, sort_views, take_next, take_none, take_whole, views_add};
use crate::pack::request::{SelectedFile, SelectedView};
use crate::sorting::stable_sort;
use crate::text::{before, same, text_le, text_lt, views};
use vstd::prelude::*;

verus! {

/// The search for the symbols of a file.
pub open spec fn file_query(path: Seq<char>) -> SymbolQueryView {
    SymbolQueryView { name: None, kind: None, language: None, file: Some(path) }
}

/// By file, then line, then name, then id.
pub open spec fn file_line_order() -> spec_fn(SymbolView, SymbolView) -> bool {
    |a: SymbolView, b: SymbolView|
        text_lt(a.file_path, b.file_path) || (a.file_path == b.file_path && (a.start_line < b.start_line || (
        a.start_line == b.start_line && (text_lt(a.name, b.name) || (a.name == b.name && text_le(a.id, b.id))))))
}

/// What the search for the symbols of one selected file gives; nothing where it
/// is not included.
pub open spec fn symbols_of_selected<S: GraphStore>(h: Seq<StoreWrite>, f: SelectedView) -> Seq<SymbolView> {
    if f.included {
        S::symbols_matching_in(h, file_query(f.path))
    } else {
        Seq::empty()
    }
}

/// The symbols declared in the included files, in order.
pub open spec fn included_symbols<S: GraphStore>(h: Seq<StoreWrite>, sel: Seq<SelectedView>) -> Seq<SymbolView> {
    stable_sort(flat(sel, |f: SelectedView| symbols_of_selected::<S>(h, f)), file_line_order())
}

/// The symbols declared in the included files, by file, line and name.
pub fn collect_symbols<S: GraphStore>(store: &S, sel: &Vec<SelectedFile>) -> (r: Result<
    Vec<IndexedSymbol>,
    SynapseError,
>)
    requires
        store.valid(),
    ensures
        S::infallible() ==> r is Ok,
        r matches Ok(v) ==> views(v@) == included_symbols::<S>(store.history(), views(sel@)),
{
    let ghost h = store.history();
    let ghost all = views(sel@);
    let ghost each = |f: SelectedView| symbols_of_selected::<S>(h, f);
    let mut out: Vec<IndexedSymbol> = Vec::new();
    let mut i: usize = 0;
    proof {
        take_none(all);
        assert(views(out@) =~= Seq::<SymbolView>::empty());
    }
    while i < sel.len()
        invariant
            i <= sel@.len(),
            store.valid(),
            h == store.history(),
            all == views(sel@),
            each == (|f: SelectedView| symbols_of_selected::<S>(h, f)),
            views(out@) == flat(all.take(i as int), each),
        decreases sel@.len() - i,
    {
        proof {
            take_next(all, i as int);
            assert(all[i as int] == sel@[i as int]@);
        }
        if sel[i].included {
            let query = SymbolSearchQuery {
                name: None,
                kind: None,
                language: None,
                file: Some(sel[i].path.clone()),
            };
            match store.symbols_matching(&query) {
                Ok(v) => {
                    let mut v = v;
                    proof {
                        views_add(out@, v@);
                    }
                    out.append(&mut v);
                },
                Err(e) => {
                    return Err(e);
                },
            }
        } else {
            proof {
                assert(views(out@) =~= flat(all.take(i as int), each) + Seq::<SymbolView>::empty());
            }
        }
        i += 1;
    }
    proof {
        take_whole(all);
    }
    let le = |a: &IndexedSymbol, b: &IndexedSymbol| -> (r: bool)
        ensures
            r == file_line_order()(a@, b@),
        {
            before(a.file_path.as_str(), b.file_path.as_str()) || (same(a.file_path.as_str(), b.file_path.as_str())
                && (a.start_line < b.start_line || (a.start_line == b.start_line && (before(
                a.name.as_str(),
                b.name.as_str(),
            ) || (same(a.name.as_str(), b.name.as_str()) && !before(b.id.as_str(), a.id.as_str()))))))
        };
    Ok(sort_views(out, le, Ghost(file_line_order())))
}

} // verus!
