//! What the text of a node is.

use crate::indexer::tree::{text_of, TreeView};
use vstd::prelude::*;

verus! {

/// The text of a node is what its bytes spell.
pub proof fn text_is_what_the_bytes_spell(t: TreeView, i: int, a: Seq<u8>, s: Seq<char>, b: Seq<u8>)
    requires
        t.source == a + vstd::utf8::encode_utf8(s) + b,
        t.nodes[i].start_byte == a.len(),
        t.nodes[i].end_byte == a.len() + vstd::utf8::encode_utf8(s).len(),
    ensures
        text_of(t, i) == Some(s),
{
    let e = vstd::utf8::encode_utf8(s);
    assert(t.source.subrange(a.len() as int, (a.len() + e.len()) as int) =~= e);
    vstd::utf8::encode_utf8_valid_utf8(s);
    vstd::utf8::encode_utf8_decode_utf8(s);
}

} // verus!
