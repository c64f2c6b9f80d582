//! What the operations on texts do, said of every text.

use crate::text::{
    after_either, after_last, before_either, before_first, before_last, decimal, digit, first_index, first_index_bounds,
    has, join, last_index, last_index_bounds, lines, lower, lower_char, occurs_at, one_of, replace_char, split, stripped,
    text_lt, trim, trim_any, trim_end, trim_end_any, trim_end_char, trim_start, trim_start_any, white, words, words_after,
};
use vstd::prelude::*;

verus! {

/// Every character of the text is white space.
pub open spec fn all_white(s: Seq<char>) -> bool {
    forall|i: int| 0 <= i < s.len() ==> white(#[trigger] s[i])
}

/// The text holds no `c`.
pub open spec fn free_of(s: Seq<char>, c: char) -> bool {
    forall|i: int| 0 <= i < s.len() ==> #[trigger] s[i] != c
}

/// White space is what Unicode calls so: the blank, tab and line ends among it, and
/// no letter, digit or other visible ASCII character.
pub proof fn white_is_blank(c: char)
    ensures
        c == ' ' || c == '\t' || c == '\n' || c == '\r' ==> white(c),
        '!' <= c <= '~' ==> !white(c),
{
}

/// `has` is containment: something stands before the part and something behind it.
pub proof fn has_is_containment(s: Seq<char>, p: Seq<char>)
    ensures
        has(s, p) <==> exists|a: Seq<char>, b: Seq<char>| s == #[trigger] (a + p + b),
{
    if has(s, p) {
        let i = choose|i: int| occurs_at(s, p, i);
        let a = s.take(i);
        let b = s.skip(i + p.len());
        assert(s =~= a + p + b);
    }
    if exists|a: Seq<char>, b: Seq<char>| s == #[trigger] (a + p + b) {
        let (a, b) = choose|a: Seq<char>, b: Seq<char>| s == #[trigger] (a + p + b);
        assert(s.subrange(a.len() as int, (a.len() + p.len()) as int) =~= p);
        assert(occurs_at(s, p, a.len() as int));
    }
}

/// Lowercasing touches the letters from `A` to `Z` only, keeps the length, and doing
/// it twice is doing it once.
pub proof fn lower_laws(s: Seq<char>)
    ensures
        lower(s).len() == s.len(),
        lower(lower(s)) == lower(s),
        forall|i: int|
            0 <= i < s.len() ==> (if 'A' <= s[i] <= 'Z' {
                'a' <= #[trigger] lower(s)[i] <= 'z' && lower(s)[i] as int == s[i] as int + 32
            } else {
                lower(s)[i] == s[i]
            }),
{
    assert forall|i: int| 0 <= i < s.len() implies (if 'A' <= s[i] <= 'Z' {
        'a' <= #[trigger] lower(s)[i] <= 'z' && lower(s)[i] as int == s[i] as int + 32
    } else {
        lower(s)[i] == s[i]
    }) by {
        assert(lower(s)[i] == lower_char(s[i]));
    }
    assert(lower(lower(s)) =~= lower(s));
}

proof fn trim_start_laws(s: Seq<char>) -> (a: Seq<char>)
    ensures
        all_white(a),
        s == a + trim_start(s),
        trim_start(s).len() > 0 ==> !white(trim_start(s)[0]),
    decreases s.len(),
{
    if s.len() > 0 && white(s[0]) {
        let rest = trim_start_laws(s.drop_first());
        let a = seq![s[0]] + rest;
        assert(trim_start(s) == trim_start(s.drop_first()));
        assert(s =~= seq![s[0]] + s.drop_first());
        assert(s =~= a + trim_start(s));
        a
    } else {
        assert(s =~= Seq::<char>::empty() + s);
        Seq::empty()
    }
}

proof fn trim_end_laws(s: Seq<char>) -> (b: Seq<char>)
    ensures
        all_white(b),
        s == trim_end(s) + b,
        trim_end(s).len() > 0 ==> !white(trim_end(s).last()),
        trim_end(s).len() > 0 ==> trim_end(s)[0] == s[0],
    decreases s.len(),
{
    if s.len() > 0 && white(s.last()) {
        let rest = trim_end_laws(s.drop_last());
        let b = rest.push(s.last());
        assert(trim_end(s) == trim_end(s.drop_last()));
        assert(s =~= s.drop_last().push(s.last()));
        assert(s =~= trim_end(s) + b);
        b
    } else {
        assert(s =~= s + Seq::<char>::empty());
        Seq::empty()
    }
}

/// A trimmed text is what is left when white space is taken off both ends, and
/// neither starts nor ends with white space.
pub proof fn trim_laws(s: Seq<char>)
    ensures
        exists|a: Seq<char>, b: Seq<char>| all_white(a) && all_white(b) && s == #[trigger] (a + trim(s) + b),
        trim(s).len() > 0 ==> !white(trim(s)[0]) && !white(trim(s).last()),
{
    let a = trim_start_laws(s);
    let b = trim_end_laws(trim_start(s));
    assert(s =~= a + trim(s) + b);
}

/// What stands before and behind the last `c`.
pub proof fn last_splits(s: Seq<char>, c: char)
    ensures
        free_of(after_last(s, c), c),
        s.contains(c) ==> s == before_last(s, c) + seq![c] + after_last(s, c),
        !s.contains(c) ==> before_last(s, c).len() == 0 && after_last(s, c) == s,
{
    last_index_bounds(s, c);
    let i = last_index(s, c);
    if i >= 0 {
        assert(s.contains(s[i]));
        assert(s =~= before_last(s, c) + seq![c] + after_last(s, c));
    } else {
        assert(after_last(s, c) =~= s);
        if s.contains(c) {
            let k = s.index_of(c);
        }
    }
}

/// What stands before the first `c`.
pub proof fn first_splits(s: Seq<char>, c: char)
    ensures
        free_of(before_first(s, c), c),
        s.contains(c) ==> exists|b: Seq<char>| s == #[trigger] (before_first(s, c) + seq![c] + b),
        !s.contains(c) ==> before_first(s, c) == s,
{
    first_index_bounds(s, c);
    let i = first_index(s, c);
    if i < s.len() {
        assert(s.contains(s[i]));
        let b = s.skip(i + 1);
        assert(s =~= before_first(s, c) + seq![c] + b);
    } else {
        assert(before_first(s, c) =~= s);
        if s.contains(c) {
            let k = s.index_of(c);
        }
    }
}

/// A part of `s` between an opening that ends in `x` or `y` (or nothing) and a rest
/// that starts with `a` or `b` (or is nothing), holding none of the four.
pub open spec fn piece(s: Seq<char>, m: Seq<char>, pre: Seq<char>, post: Seq<char>) -> bool {
    &&& s == pre + m + post
    &&& free_of(m, '.') && free_of(m, ':') && free_of(m, '<') && free_of(m, '(')
    &&& free_of(pre, '<') && free_of(pre, '(')
    &&& pre.len() > 0 ==> pre.last() == '.' || pre.last() == ':'
    &&& post.len() > 0 ==> post[0] == '<' || post[0] == '('
}

/// The bare name of a written type or function is its last segment (behind the last
/// dot or colon) before any generic arguments or parameters, without white space
/// around it.
pub proof fn bare_is_the_last_segment(s: Seq<char>)
    ensures
        exists|m: Seq<char>, pre: Seq<char>, post: Seq<char>| #[trigger]
            piece(s, m, pre, post) && crate::indexer::tree_sitter::common::bare(s) == trim(m),
{
    let head = before_either(s, '<', '(');
    let m = after_either(head, '.', ':');
    first_index_bounds(s, '<');
    first_index_bounds(s, '(');
    last_index_bounds(head, '.');
    last_index_bounds(head, ':');
    let pre = head.take(head.len() - m.len());
    let post = s.skip(head.len() as int);
    assert(s =~= pre + m + post);
    assert(piece(s, m, pre, post));
}

/// Runs of the three characters are taken off both ends.
pub proof fn trim_any_laws(s: Seq<char>, x: char, y: char, z: char)
    ensures
        trim_any(s, x, y, z).len() > 0 ==> !one_of(trim_any(s, x, y, z)[0], x, y, z) && !one_of(
            trim_any(s, x, y, z).last(),
            x,
            y,
            z,
        ),
        has(s, trim_any(s, x, y, z)),
        s.len() > 0 && !one_of(s[0], x, y, z) && !one_of(s.last(), x, y, z) ==> trim_any(s, x, y, z) == s,
{
    let i = trim_start_any_laws(s, x, y, z);
    let t = trim_start_any(s, x, y, z);
    trim_end_any_laws(t, x, y, z);
    let r = trim_any(s, x, y, z);
    assert(s.subrange(i, i + r.len()) =~= r);
    assert(occurs_at(s, r, i));
}

proof fn trim_start_any_laws(s: Seq<char>, x: char, y: char, z: char) -> (i: int)
    ensures
        0 <= i <= s.len(),
        trim_start_any(s, x, y, z) == s.skip(i),
        i < s.len() ==> !one_of(s[i], x, y, z),
        s.len() > 0 && !one_of(s[0], x, y, z) ==> trim_start_any(s, x, y, z) == s,
    decreases s.len(),
{
    if s.len() > 0 && one_of(s[0], x, y, z) {
        let i = trim_start_any_laws(s.drop_first(), x, y, z);
        assert(s.drop_first().skip(i) =~= s.skip(i + 1));
        i + 1
    } else {
        assert(s.skip(0) =~= s);
        0
    }
}

proof fn trim_end_any_laws(s: Seq<char>, x: char, y: char, z: char)
    ensures
        trim_end_any(s, x, y, z).len() <= s.len(),
        trim_end_any(s, x, y, z) == s.take(trim_end_any(s, x, y, z).len() as int),
        trim_end_any(s, x, y, z).len() > 0 ==> !one_of(trim_end_any(s, x, y, z).last(), x, y, z),
        s.len() > 0 && !one_of(s.last(), x, y, z) ==> trim_end_any(s, x, y, z) == s,
    decreases s.len(),
{
    if s.len() > 0 && one_of(s.last(), x, y, z) {
        trim_end_any_laws(s.drop_last(), x, y, z);
        let r = trim_end_any(s, x, y, z);
        assert(s.drop_last().take(r.len() as int) =~= s.take(r.len() as int));
    } else {
        assert(s.take(s.len() as int) =~= s);
    }
}

/// The pieces of a text between occurrences of `c` hold no `c`, and put together with
/// `c` between them they are the text.
pub proof fn split_laws(s: Seq<char>, c: char)
    ensures
        split(s, c).len() > 0,
        forall|k: int| 0 <= k < split(s, c).len() ==> free_of(#[trigger] split(s, c)[k], c),
        join(split(s, c), seq![c]) == s,
    decreases s.len(),
{
    first_index_bounds(s, c);
    let i = first_index(s, c);
    if i < s.len() {
        let rest = s.skip(i + 1);
        split_laws(rest, c);
        let tail = split(rest, c);
        join_first(s.take(i), tail, seq![c]);
        assert(s =~= s.take(i) + seq![c] + rest);
        assert forall|k: int| 0 <= k < split(s, c).len() implies free_of(#[trigger] split(s, c)[k], c) by {
            if k > 0 {
                assert(split(s, c)[k] == tail[k - 1]);
            }
        }
    }
}

/// Joining one more part in front.
proof fn join_first(x: Seq<char>, rest: Seq<Seq<char>>, sep: Seq<char>)
    requires
        rest.len() > 0,
    ensures
        join(seq![x] + rest, sep) == x + sep + join(rest, sep),
    decreases rest.len(),
{
    let all = seq![x] + rest;
    if rest.len() == 1 {
        assert(all.drop_last() =~= seq![x]);
        assert(join(all.drop_last(), sep) == x);
        assert(join(all, sep) =~= x + sep + join(rest, sep));
    } else {
        assert(all.drop_last() =~= seq![x] + rest.drop_last());
        join_first(x, rest.drop_last(), sep);
        assert(join(all, sep) =~= x + sep + join(rest, sep));
    }
}

/// The lines of a text hold no line end, and every text without one is a line of its
/// own.
pub proof fn lines_hold_no_line_end(s: Seq<char>)
    ensures
        forall|k: int| 0 <= k < lines(s).len() ==> free_of(#[trigger] lines(s)[k], '\n'),
        s.len() > 0 && !s.contains('\n') ==> lines(s) == seq![s],
    decreases s.len(),
{
    first_index_bounds(s, '\n');
    let i = first_index(s, '\n');
    if i < s.len() {
        assert(s.contains(s[i]));
        lines_hold_no_line_end(s.skip(i + 1));
        assert forall|k: int| 0 <= k < lines(s).len() implies free_of(#[trigger] lines(s)[k], '\n') by {
            if k > 0 {
                assert(lines(s)[k] == lines(s.skip(i + 1))[k - 1]);
            }
        }
    }
}

/// A line that is followed by a line end comes first, without a carriage return that
/// stands before that end.
pub proof fn first_line_comes_first(a: Seq<char>, rest: Seq<char>)
    requires
        !a.contains('\n'),
        a.len() > 0 ==> a.last() != '\r',
    ensures
        lines(a + seq!['\n'] + rest) == seq![a] + lines(rest),
        lines(a + seq!['\r', '\n'] + rest) == seq![a] + lines(rest),
{
    let s = a + seq!['\n'] + rest;
    assert forall|j: int| 0 <= j < a.len() implies a[j] != '\n' by {
        assert(a.contains(a[j]));
    }
    crate::text::first_index_is(s, '\n', a.len() as int);
    assert(s.take(a.len() as int) =~= a);
    assert(s.skip(a.len() as int + 1) =~= rest);
    let w = a + seq!['\r', '\n'] + rest;
    crate::text::first_index_is(w, '\n', a.len() as int + 1);
    assert(w.take(a.len() as int + 1).drop_last() =~= a);
    assert(w.skip(a.len() as int + 2) =~= rest);
}

/// What follows a beginning is found exactly where the text has that beginning.
pub proof fn stripped_is_the_rest(s: Seq<char>, p: Seq<char>, rest: Seq<char>)
    ensures
        stripped(p + rest, p) == Some(rest),
        stripped(s, p) matches Some(r) ==> s == p + r,
{
    assert((p + rest).skip(p.len() as int) =~= rest);
    assert(p =~= (p + rest).take(p.len() as int));
    if let Some(r) = stripped(s, p) {
        assert(s =~= p + r);
    }
}

/// Decimal notation tells numbers apart and starts with no zero but for zero itself.
pub proof fn decimal_is_notation(n: nat)
    ensures
        value_of(decimal(n)) == n,
        n > 0 ==> decimal(n)[0] != '0',
    decreases n,
{
    assert(digit(n) as int == n % 10 + 48);
    if n < 10 {
        let d = decimal(n);
        assert(d.drop_last() =~= Seq::<char>::empty());
        assert(value_of(d.drop_last()) == 0);
        assert(value_of(d) == value_of(d.drop_last()) * 10 + (d.last() as int - 48));
    } else {
        decimal_is_notation(n / 10);
        let d = decimal(n);
        assert(d.drop_last() =~= decimal(n / 10));
        assert(d.last() == digit(n));
        assert(value_of(d) == value_of(d.drop_last()) * 10 + (d.last() as int - 48));
        crate::text::decimal_digits(n / 10);
        assert(d[0] == decimal(n / 10)[0]);
    }
}

/// The number that a row of decimal digits stands for.
pub open spec fn value_of(s: Seq<char>) -> int
    decreases s.len(),
{
    if s.len() == 0 {
        0
    } else {
        value_of(s.drop_last()) * 10 + (s.last() as int - 48)
    }
}

/// Something without white space, and not nothing.
pub open spec fn is_word(w: Seq<char>) -> bool {
    w.len() > 0 && forall|i: int| 0 <= i < w.len() ==> !white(#[trigger] w[i])
}

/// The words of a text hold no white space and are not empty.
pub proof fn words_are_words(s: Seq<char>)
    ensures
        forall|k: int| 0 <= k < words(s).len() ==> is_word(#[trigger] words(s)[k]),
{
    words_after_are_words(Seq::empty(), s);
}

proof fn words_after_are_words(word: Seq<char>, s: Seq<char>)
    requires
        word.len() > 0 ==> is_word(word),
    ensures
        forall|k: int| 0 <= k < words_after(word, s).len() ==> is_word(#[trigger] words_after(word, s)[k]),
    decreases s.len(),
{
    if s.len() > 0 {
        if white(s[0]) {
            words_after_are_words(Seq::empty(), s.drop_first());
            let rest = words_after(Seq::empty(), s.drop_first());
            if word.len() > 0 {
                let all = words_after(word, s);
                assert(all == seq![word] + rest);
                assert forall|k: int| 0 <= k < all.len() implies is_word(#[trigger] all[k]) by {
                    if k > 0 {
                        assert(all[k] == rest[k - 1]);
                    }
                }
            } else {
                assert(words_after(word, s) == rest);
            }
        } else {
            let more = word.push(s[0]);
            assert forall|i: int| 0 <= i < more.len() implies !white(#[trigger] more[i]) by {
                if i < word.len() {
                    assert(more[i] == word[i]);
                }
            }
            words_after_are_words(more, s.drop_first());
            assert(words_after(word, s) == words_after(more, s.drop_first()));
        }
    }
}

/// A word followed by white space comes first among the words.
pub proof fn first_word_comes_first(word: Seq<char>, gap: char, rest: Seq<char>)
    requires
        is_word(word),
        white(gap),
    ensures
        words(word + seq![gap] + rest) == seq![word] + words(rest),
        words(word) == seq![word],
        words(seq![gap] + rest) == words(rest),
{
    taking_a_word(Seq::empty(), word, seq![gap] + rest);
    taking_a_word(Seq::empty(), word, Seq::empty());
    assert(word + (seq![gap] + rest) =~= word + seq![gap] + rest);
    assert(word + Seq::<char>::empty() =~= word);
    assert(Seq::<char>::empty() + word =~= word);
    assert((seq![gap] + rest).drop_first() =~= rest);
}

proof fn taking_a_word(done: Seq<char>, word: Seq<char>, rest: Seq<char>)
    requires
        forall|i: int| 0 <= i < word.len() ==> !white(#[trigger] word[i]),
    ensures
        words_after(done, word + rest) == words_after(done + word, rest),
    decreases word.len(),
{
    if word.len() == 0 {
        assert(word + rest =~= rest);
        assert(done + word =~= done);
    } else {
        let s = word + rest;
        assert(s[0] == word[0]);
        assert(s.drop_first() =~= word.drop_first() + rest);
        taking_a_word(done.push(word[0]), word.drop_first(), rest);
        assert(done.push(word[0]) + word.drop_first() =~= done + word);
    }
}

/// Replacing a character changes that character only.
pub proof fn replacing_changes_that_character_only(s: Seq<char>, from: char, to: char)
    ensures
        replace_char(s, from, to).len() == s.len(),
        forall|i: int|
            0 <= i < s.len() ==> #[trigger] replace_char(s, from, to)[i] == (if s[i] == from {
                to
            } else {
                s[i]
            }),
{
}

/// The order of texts goes by the first character in which they differ; a text comes
/// before its continuations.
pub proof fn order_goes_by_the_first_difference(p: Seq<char>, a: char, b: char, x: Seq<char>, y: Seq<char>)
    ensures
        text_lt(p, p + seq![a] + x),
        a < b ==> text_lt(p + seq![a] + x, p + seq![b] + y),
    decreases p.len(),
{
    let s = p + seq![a] + x;
    let t = p + seq![b] + y;
    if p.len() > 0 {
        order_goes_by_the_first_difference(p.drop_first(), a, b, x, y);
        assert(s.drop_first() =~= p.drop_first() + seq![a] + x);
        assert(t.drop_first() =~= p.drop_first() + seq![b] + y);
        assert(s[0] == p[0] && t[0] == p[0]);
    }
}

/// The run of `c` at the end is taken off, and nothing else.
pub proof fn trim_end_char_laws(s: Seq<char>, c: char)
    ensures
        trim_end_char(s, c).len() <= s.len(),
        trim_end_char(s, c) == s.take(trim_end_char(s, c).len() as int),
        trim_end_char(s, c).len() > 0 ==> trim_end_char(s, c).last() != c,
        forall|i: int| trim_end_char(s, c).len() <= i < s.len() ==> #[trigger] s[i] == c,
    decreases s.len(),
{
    if s.len() > 0 && s.last() == c {
        trim_end_char_laws(s.drop_last(), c);
        let r = trim_end_char(s, c);
        assert(s.drop_last().take(r.len() as int) =~= s.take(r.len() as int));
        assert forall|i: int| r.len() <= i < s.len() implies #[trigger] s[i] == c by {
            if i < s.len() - 1 {
                assert(s.drop_last()[i] == s[i]);
            }
        }
    } else {
        assert(s.take(s.len() as int) =~= s);
    }
}

} // verus!
