//! Text primitives: the handful of string operations the rest of the crate is
//! built from, each with a contract over sequences of characters.

use vstd::prelude::*;
use vstd::string::StringExecFns;

verus! {

/// `String::push` appends one character to the end of the string.
pub assume_specification[ String::push ](s: &mut String, c: char)
    ensures
        final(s)@ == old(s)@.push(c),
;

/// `str`'s `==` holds exactly when both strings hold the same characters.
pub assume_specification[ <str as PartialEq>::eq ](a: &str, b: &str) -> (r: bool)
    ensures
        r == (a@ == b@),
;

/// The characters of a string.
pub fn chars_of(s: &str) -> (r: Vec<char>)
    ensures
        r@ == s@,
{
    let mut out: Vec<char> = Vec::new();
    for c in it: s.chars()
        invariant
            it.seq() == s@,
            out@ == s@.take(it.index() as int),
    {
        assert(s@.take(it.index() as int + 1) =~= s@.take(it.index() as int).push(s@[it.index() as int]));
        out.push(c);
    }
    assert(s@.take(s@.len() as int) =~= s@);
    out
}

/// The string made of `v[lo..hi]`.
pub fn string_of(v: &Vec<char>, lo: usize, hi: usize) -> (r: String)
    requires
        lo <= hi <= v@.len(),
    ensures
        r@ == v@.subrange(lo as int, hi as int),
{
    let mut out = String::new();
    let mut i: usize = lo;
    while i < hi
        invariant
            lo <= i <= hi <= v@.len(),
            out@ == v@.subrange(lo as int, i as int),
        decreases hi - i,
    {
        assert(v@.subrange(lo as int, i as int + 1) =~= v@.subrange(lo as int, i as int).push(v@[i as int]));
        out.push(v[i]);
        i += 1;
    }
    out
}

/// `true` exactly when the strings are equal.
pub fn same(a: &str, b: &str) -> (r: bool)
    ensures
        r == (a@ == b@),
{
    *a == *b
}

/// The lowercase form of an ASCII uppercase letter; any other character as it is.
pub open spec fn lower_char(c: char) -> char {
    if 'A' <= c <= 'Z' {
        ((c as u8) + 32) as u8 as char
    } else {
        c
    }
}

pub open spec fn lower(s: Seq<char>) -> Seq<char> {
    s.map_values(|c: char| lower_char(c))
}

pub fn to_lower_char(c: char) -> (r: char)
    ensures
        r == lower_char(c),
{
    if 'A' <= c && c <= 'Z' {
        (c as u8 + 32) as char
    } else {
        c
    }
}

pub fn ascii_lowercase(s: &str) -> (r: String)
    ensures
        r@ == lower(s@),
{
    let mut out = String::new();
    for c in it: s.chars()
        invariant
            it.seq() == s@,
            out@ == lower(s@.take(it.index() as int)),
    {
        assert(lower(s@.take(it.index() as int + 1)) =~= lower(s@.take(it.index() as int)).push(
            lower_char(s@[it.index() as int]),
        ));
        out.push(to_lower_char(c));
    }
    assert(s@.take(s@.len() as int) =~= s@);
    out
}

/// `a` equals `b` up to the case of ASCII letters.
pub fn same_ignore_ascii_case(a: &str, b: &str) -> (r: bool)
    ensures
        r == (lower(a@) == lower(b@)),
{
    let x = ascii_lowercase(a);
    let y = ascii_lowercase(b);
    same(x.as_str(), y.as_str())
}

// --- order -----------------------------------------------------------------
/// Lexicographic order by code point, which is the order of `str`.
pub open spec fn text_lt(a: Seq<char>, b: Seq<char>) -> bool
    decreases a.len(),
{
    if b.len() == 0 {
        false
    } else if a.len() == 0 {
        true
    } else if a[0] == b[0] {
        text_lt(a.drop_first(), b.drop_first())
    } else {
        a[0] < b[0]
    }
}

pub open spec fn text_le(a: Seq<char>, b: Seq<char>) -> bool {
    !text_lt(b, a)
}

pub proof fn text_lt_irreflexive(a: Seq<char>)
    ensures
        !text_lt(a, a),
    decreases a.len(),
{
    if a.len() > 0 {
        text_lt_irreflexive(a.drop_first());
    }
}

pub proof fn text_lt_transitive(a: Seq<char>, b: Seq<char>, c: Seq<char>)
    requires
        text_lt(a, b),
        text_lt(b, c),
    ensures
        text_lt(a, c),
    decreases a.len(),
{
    if a.len() > 0 && b.len() > 0 && c.len() > 0 && a[0] == b[0] && b[0] == c[0] {
        text_lt_transitive(a.drop_first(), b.drop_first(), c.drop_first());
    }
}

/// The order of texts is a strict total order.
pub proof fn text_lt_laws(a: Seq<char>, b: Seq<char>, c: Seq<char>)
    ensures
        text_lt(a, b) && text_lt(b, c) ==> text_lt(a, c),
        text_lt(a, b) || text_lt(b, a) || a == b,
        !text_lt(a, a),
{
    if text_lt(a, b) && text_lt(b, c) {
        text_lt_transitive(a, b, c);
    }
    text_lt_total(a, b);
    text_lt_irreflexive(a);
}

pub proof fn text_lt_asymmetric(a: Seq<char>, b: Seq<char>)
    requires
        text_lt(a, b),
    ensures
        !text_lt(b, a),
{
    if text_lt(b, a) {
        text_lt_transitive(a, b, a);
        text_lt_irreflexive(a);
    }
}

/// Two texts neither of which comes before the other are equal.
pub proof fn text_lt_total(a: Seq<char>, b: Seq<char>)
    ensures
        text_lt(a, b) || text_lt(b, a) || a == b,
    decreases a.len(),
{
    if a.len() > 0 && b.len() > 0 && a[0] == b[0] {
        text_lt_total(a.drop_first(), b.drop_first());
        if a.drop_first() == b.drop_first() {
            assert(a =~= seq![a[0]] + a.drop_first());
            assert(b =~= seq![b[0]] + b.drop_first());
        }
    } else if a.len() == 0 && b.len() == 0 {
        assert(a =~= b);
    }
}

/// Whether `a` comes strictly before `b`.
pub fn before(a: &str, b: &str) -> (r: bool)
    ensures
        r == text_lt(a@, b@),
{
    let x = chars_of(a);
    let y = chars_of(b);
    let mut i: usize = 0;
    assert(x@.skip(0) =~= x@);
    assert(y@.skip(0) =~= y@);
    while i < x.len() && i < y.len()
        invariant
            i <= x@.len(),
            i <= y@.len(),
            x@ == a@,
            y@ == b@,
            text_lt(a@, b@) == text_lt(x@.skip(i as int), y@.skip(i as int)),
        decreases x@.len() - i,
    {
        if x[i] != y[i] {
            return x[i] < y[i];
        }
        assert(x@.skip(i as int).drop_first() =~= x@.skip(i as int + 1));
        assert(y@.skip(i as int).drop_first() =~= y@.skip(i as int + 1));
        i += 1;
    }
    i < y.len()
}

// --- searching -------------------------------------------------------------
/// `p` stands in `s` at position `i`.
pub open spec fn occurs_at(s: Seq<char>, p: Seq<char>, i: int) -> bool {
    0 <= i && i + p.len() <= s.len() && s.subrange(i, i + p.len()) == p
}

pub open spec fn has(s: Seq<char>, p: Seq<char>) -> bool {
    exists|i: int| occurs_at(s, p, i)
}

/// Whether `p` stands in `s` at position `i`.
pub fn stands_at(s: &Vec<char>, p: &Vec<char>, i: usize) -> (r: bool)
    ensures
        r == occurs_at(s@, p@, i as int),
{
    let n: usize = s.len();
    if i > n || n - i < p.len() {
        return false;
    }
    let mut k: usize = 0;
    while k < p.len()
        invariant
            k <= p@.len(),
            n == s@.len(),
            i + p@.len() <= s@.len(),
            forall|j: int| 0 <= j < k ==> s@[i + j] == p@[j],
        decreases p@.len() - k,
    {
        if s[i + k] != p[k] {
            assert(s@.subrange(i as int, i + p@.len())[k as int] != p@[k as int]);
            return false;
        }
        k += 1;
    }
    assert(s@.subrange(i as int, i + p@.len()) =~= p@);
    true
}

pub fn contains(s: &str, p: &str) -> (r: bool)
    ensures
        r == has(s@, p@),
{
    let x = chars_of(s);
    let y = chars_of(p);
    if y.len() > x.len() {
        return false;
    }
    let last: usize = x.len() - y.len();
    let mut i: usize = 0;
    while i <= last
        invariant
            x@ == s@,
            y@ == p@,
            last == x@.len() - y@.len(),
            i <= last + 1,
            forall|j: int| 0 <= j < i ==> !occurs_at(s@, p@, j),
        decreases last + 1 - i,
    {
        if stands_at(&x, &y, i) {
            return true;
        }
        if i == last {
            return false;
        }
        i += 1;
    }
    false
}

/// Whether `s` holds `p` up to the case of ASCII letters.
pub fn contains_ignore_ascii_case(s: &str, p: &str) -> (r: bool)
    ensures
        r == has(lower(s@), lower(p@)),
{
    let x = ascii_lowercase(s);
    let y = ascii_lowercase(p);
    contains(x.as_str(), y.as_str())
}

pub fn starts_with(s: &str, p: &str) -> (r: bool)
    ensures
        r == p@.is_prefix_of(s@),
{
    let x = chars_of(s);
    let y = chars_of(p);
    stands_at(&x, &y, 0)
}

/// Whether the first character of `s` is `c`.
pub fn starts_with_char(s: &str, c: char) -> (r: bool)
    ensures
        r == (s@.len() > 0 && s@[0] == c),
{
    let v = chars_of(s);
    v.len() > 0 && v[0] == c
}

pub fn ends_with(s: &str, p: &str) -> (r: bool)
    ensures
        r == p@.is_suffix_of(s@),
{
    let x = chars_of(s);
    let y = chars_of(p);
    if y.len() > x.len() {
        return false;
    }
    let r = stands_at(&x, &y, x.len() - y.len());
    assert(x@.subrange(x@.len() - y@.len(), x@.len() as int) =~= x@.skip(x@.len() - y@.len()));
    r
}

/// What follows `p`, where `s` starts with it.
pub open spec fn stripped(s: Seq<char>, p: Seq<char>) -> Option<Seq<char>> {
    if p.is_prefix_of(s) {
        Some(s.skip(p.len() as int))
    } else {
        None
    }
}

/// What follows `p`, where `s` starts with it.
pub fn strip_prefix(s: &str, p: &str) -> (r: Option<String>)
    ensures
        opt_view(r) == stripped(s@, p@),
        r is Some == p@.is_prefix_of(s@),
        r matches Some(t) ==> t@ == s@.skip(p@.len() as int) && s@ == p@ + t@,
{
    let x = chars_of(s);
    let y = chars_of(p);
    if stands_at(&x, &y, 0) {
        let t = string_of(&x, y.len(), x.len());
        assert(t@ =~= s@.skip(p@.len() as int));
        assert(s@ =~= p@ + t@);
        Some(t)
    } else {
        None
    }
}

/// What precedes `p`, where `s` ends with it.
pub fn strip_suffix(s: &str, p: &str) -> (r: Option<String>)
    ensures
        r is Some == p@.is_suffix_of(s@),
        r matches Some(t) ==> t@ == s@.take(s@.len() - p@.len()) && s@ == t@ + p@,
{
    if ends_with(s, p) {
        let x = chars_of(s);
        let y = chars_of(p);
        let t = string_of(&x, 0, x.len() - y.len());
        assert(t@ =~= s@.take(s@.len() - p@.len()));
        assert(s@ =~= t@ + p@);
        Some(t)
    } else {
        None
    }
}

/// Position of the first `c` in `s`, or the length of `s` where there is none.
pub open spec fn first_index(s: Seq<char>, c: char) -> int
    decreases s.len(),
{
    if s.len() == 0 || s[0] == c {
        0
    } else {
        1 + first_index(s.drop_first(), c)
    }
}

/// Position of the last `c` in `s`, or -1 where there is none.
pub open spec fn last_index(s: Seq<char>, c: char) -> int
    decreases s.len(),
{
    if s.len() == 0 {
        -1
    } else if s.last() == c {
        s.len() - 1
    } else {
        last_index(s.drop_last(), c)
    }
}

pub proof fn first_index_bounds(s: Seq<char>, c: char)
    ensures
        0 <= first_index(s, c) <= s.len(),
        first_index(s, c) < s.len() ==> s[first_index(s, c)] == c,
        forall|j: int| 0 <= j < first_index(s, c) ==> s[j] != c,
    decreases s.len(),
{
    if s.len() > 0 && s[0] != c {
        first_index_bounds(s.drop_first(), c);
        let k = first_index(s.drop_first(), c);
        assert forall|j: int| 0 <= j < 1 + k implies s[j] != c by {
            if j > 0 {
                assert(s[j] == s.drop_first()[j - 1]);
            }
        }
    }
}

/// A position holding `c` with no `c` before it is the first index.
pub proof fn first_index_is(s: Seq<char>, c: char, i: int)
    requires
        0 <= i <= s.len(),
        i < s.len() ==> s[i] == c,
        forall|j: int| 0 <= j < i ==> s[j] != c,
    ensures
        first_index(s, c) == i,
{
    first_index_bounds(s, c);
}

pub proof fn last_index_bounds(s: Seq<char>, c: char)
    ensures
        -1 <= last_index(s, c) < s.len(),
        last_index(s, c) >= 0 ==> s[last_index(s, c)] == c,
        forall|j: int| last_index(s, c) < j < s.len() ==> s[j] != c,
    decreases s.len(),
{
    if s.len() > 0 && s.last() != c {
        last_index_bounds(s.drop_last(), c);
        let k = last_index(s.drop_last(), c);
        assert forall|j: int| k < j < s.len() implies s[j] != c by {
            if j < s.len() - 1 {
                assert(s[j] == s.drop_last()[j]);
            }
        }
    }
}

pub proof fn last_index_is(s: Seq<char>, c: char, i: int)
    requires
        -1 <= i < s.len(),
        i >= 0 ==> s[i] == c,
        forall|j: int| i < j < s.len() ==> s[j] != c,
    ensures
        last_index(s, c) == i,
{
    last_index_bounds(s, c);
}

/// Position of the first `c` at or after `from`.
pub fn find_from(v: &Vec<char>, from: usize, c: char) -> (r: usize)
    requires
        from <= v@.len(),
    ensures
        r == from + first_index(v@.skip(from as int), c),
        from <= r <= v@.len(),
{
    let mut i: usize = from;
    while i < v.len() && v[i] != c
        invariant
            from <= i <= v@.len(),
            forall|j: int| from <= j < i ==> v@[j] != c,
        decreases v@.len() - i,
    {
        i += 1;
    }
    proof {
        assert forall|j: int| 0 <= j < i - from implies v@.skip(from as int)[j] != c by {}
        first_index_is(v@.skip(from as int), c, i - from);
    }
    i
}

/// Position of the last `c`, where there is one.
pub fn rfind(v: &Vec<char>, c: char) -> (r: Option<usize>)
    ensures
        r is Some == (last_index(v@, c) >= 0),
        r matches Some(i) ==> i == last_index(v@, c) && i < v@.len(),
{
    let mut i: usize = v.len();
    while i > 0
        invariant
            i <= v@.len(),
            forall|j: int| i <= j < v@.len() ==> v@[j] != c,
        decreases i,
    {
        i -= 1;
        if v[i] == c {
            proof {
                last_index_is(v@, c, i as int);
            }
            return Some(i);
        }
    }
    proof {
        last_index_is(v@, c, -1);
    }
    None
}

/// The part of `s` before its last `c`; empty where there is none.
pub open spec fn before_last(s: Seq<char>, c: char) -> Seq<char> {
    if last_index(s, c) >= 0 {
        s.take(last_index(s, c))
    } else {
        Seq::empty()
    }
}

/// The part of `s` after its last `c`, or all of `s` where there is none.
pub open spec fn after_last(s: Seq<char>, c: char) -> Seq<char> {
    s.skip(last_index(s, c) + 1)
}

/// `s` up to its first `c`, or all of `s` where there is none.
pub open spec fn before_first(s: Seq<char>, c: char) -> Seq<char> {
    s.take(first_index(s, c))
}

pub fn text_before_last(s: &str, c: char) -> (r: String)
    ensures
        r@ == before_last(s@, c),
{
    let v = chars_of(s);
    match rfind(&v, c) {
        Some(i) => {
            let r = string_of(&v, 0, i);
            assert(r@ =~= before_last(s@, c));
            r
        },
        None => String::new(),
    }
}

pub fn text_after_last(s: &str, c: char) -> (r: String)
    ensures
        r@ == after_last(s@, c),
{
    proof {
        last_index_bounds(s@, c);
    }
    let v = chars_of(s);
    let n: usize = v.len();
    let from: usize = match rfind(&v, c) {
        Some(i) => i + 1,
        None => 0,
    };
    let r = string_of(&v, from, n);
    assert(r@ =~= after_last(s@, c));
    r
}

pub fn text_before_first(s: &str, c: char) -> (r: String)
    ensures
        r@ == before_first(s@, c),
{
    let v = chars_of(s);
    assert(v@.skip(0) =~= v@);
    let i: usize = find_from(&v, 0, c);
    let r = string_of(&v, 0, i);
    assert(r@ =~= before_first(s@, c));
    r
}

// --- splitting and joining ---------------------------------------------------
/// The pieces of `s` between occurrences of `c`; one more than there are `c`s.
pub open spec fn split(s: Seq<char>, c: char) -> Seq<Seq<char>>
    decreases s.len(),
    via split_shrinks
{
    let i = first_index(s, c);
    if i < s.len() {
        seq![s.take(i)] + split(s.skip(i + 1), c)
    } else {
        seq![s]
    }
}

#[via_fn]
proof fn split_shrinks(s: Seq<char>, c: char) {
    first_index_bounds(s, c);
}

/// The views of the elements of a list.
pub open spec fn views<T: View>(v: Seq<T>) -> Seq<T::V> {
    v.map_values(|x: T| x@)
}

/// The view of what an option holds.
pub open spec fn opt_view<T: View>(o: Option<T>) -> Option<T::V> {
    match o {
        Some(x) => Some(x@),
        None => None,
    }
}

pub fn clone_opt(o: &Option<String>) -> (r: Option<String>)
    ensures
        opt_view(r) == opt_view(*o),
{
    match o {
        Some(s) => Some(s.clone()),
        None => None,
    }
}

pub fn split_at_char(s: &str, c: char) -> (r: Vec<String>)
    ensures
        views(r@) == split(s@, c),
        r@.len() > 0,
{
    let v = chars_of(s);
    let mut out: Vec<String> = Vec::new();
    let mut from: usize = 0;
    assert(v@.skip(0) =~= v@);
    assert(views(out@) =~= Seq::<Seq<char>>::empty());
    loop
        invariant
            v@ == s@,
            from <= v@.len(),
            split(s@, c) =~= views(out@) + split(v@.skip(from as int), c),
        decreases v@.len() - from,
    {
        let i: usize = find_from(&v, from, c);
        let piece = string_of(&v, from, i);
        let ghost rest = v@.skip(from as int);
        let ghost before = views(out@);
        assert(piece@ =~= rest.take(i - from));
        out.push(piece);
        assert(views(out@) =~= before.push(piece@));
        if i == v.len() {
            assert(rest.take(i - from) =~= rest);
            assert(split(rest, c) =~= seq![rest]);
            assert(views(out@) =~= split(s@, c));
            return out;
        }
        assert(rest.skip(i - from + 1) =~= v@.skip(i as int + 1));
        assert(split(rest, c) =~= seq![rest.take(i - from)] + split(v@.skip(i as int + 1), c));
        from = i + 1;
    }
}

/// `parts` one after another with `sep` between them.
pub open spec fn join(parts: Seq<Seq<char>>, sep: Seq<char>) -> Seq<char>
    decreases parts.len(),
{
    if parts.len() == 0 {
        Seq::empty()
    } else if parts.len() == 1 {
        parts[0]
    } else {
        join(parts.drop_last(), sep) + sep + parts.last()
    }
}

pub fn join_with(parts: &Vec<String>, sep: &str) -> (r: String)
    ensures
        r@ == join(views(parts@), sep@),
{
    let mut out = String::new();
    let mut i: usize = 0;
    while i < parts.len()
        invariant
            i <= parts@.len(),
            out@ == join(views(parts@).take(i as int), sep@),
        decreases parts@.len() - i,
    {
        let ghost pre = views(parts@).take(i as int);
        if i > 0 {
            out.append(sep);
        }
        out.append(parts[i].as_str());
        proof {
            let next = views(parts@).take(i as int + 1);
            assert(next.drop_last() =~= pre);
            assert(next.last() == parts@[i as int]@);
            if i == 0 {
                assert(out@ =~= join(next, sep@));
            }
        }
        i += 1;
    }
    assert(views(parts@).take(parts@.len() as int) =~= views(parts@));
    out
}

/// `s` without a carriage return at its end.
pub open spec fn without_cr(s: Seq<char>) -> Seq<char> {
    if s.len() > 0 && s.last() == '\r' {
        s.drop_last()
    } else {
        s
    }
}

/// The lines of `s`. A line ends at `\n` or `\r\n`; an ending at the very end
/// starts no further line.
pub open spec fn lines(s: Seq<char>) -> Seq<Seq<char>>
    decreases s.len(),
    via lines_shrink
{
    let i = first_index(s, '\n');
    if i < s.len() {
        seq![without_cr(s.take(i))] + lines(s.skip(i + 1))
    } else if s.len() == 0 {
        Seq::empty()
    } else {
        seq![s]
    }
}

#[via_fn]
proof fn lines_shrink(s: Seq<char>) {
    first_index_bounds(s, '\n');
}

pub fn lines_of(s: &str) -> (r: Vec<String>)
    ensures
        views(r@) == lines(s@),
{
    let v = chars_of(s);
    let mut out: Vec<String> = Vec::new();
    let mut from: usize = 0;
    assert(v@.skip(0) =~= v@);
    assert(views(out@) =~= Seq::<Seq<char>>::empty());
    loop
        invariant
            v@ == s@,
            from <= v@.len(),
            lines(s@) =~= views(out@) + lines(v@.skip(from as int)),
        decreases v@.len() - from,
    {
        let ghost rest = v@.skip(from as int);
        let ghost done = views(out@);
        let i: usize = find_from(&v, from, '\n');
        if i == v.len() {
            if from < v.len() {
                let piece = string_of(&v, from, i);
                assert(piece@ =~= rest);
                out.push(piece);
                assert(views(out@) =~= done.push(rest));
            } else {
                assert(lines(rest) =~= Seq::<Seq<char>>::empty());
            }
            assert(views(out@) =~= lines(s@));
            return out;
        }
        let end: usize = if i > from && v[i - 1] == '\r' {
            i - 1
        } else {
            i
        };
        let piece = string_of(&v, from, end);
        assert(piece@ =~= without_cr(rest.take(i - from)));
        out.push(piece);
        assert(views(out@) =~= done.push(piece@));
        assert(rest.skip(i - from + 1) =~= v@.skip(i as int + 1));
        from = i + 1;
    }
}

/// `s` with every `from` replaced by `to`.
pub open spec fn replace_char(s: Seq<char>, from: char, to: char) -> Seq<char> {
    s.map_values(
        |c: char|
            if c == from {
                to
            } else {
                c
            },
    )
}

pub fn replaced_char(s: &str, from: char, to: char) -> (r: String)
    ensures
        r@ == replace_char(s@, from, to),
{
    let mut out = String::new();
    for c in it: s.chars()
        invariant
            it.seq() == s@,
            out@ =~= replace_char(s@, from, to).take(it.index() as int),
    {
        if c == from {
            out.push(to);
        } else {
            out.push(c);
        }
    }
    assert(replace_char(s@, from, to).take(s@.len() as int) =~= replace_char(s@, from, to));
    out
}

// --- trimming ----------------------------------------------------------------
/// The characters Unicode calls white space.
pub open spec fn white(c: char) -> bool {
    let n = c as u32;
    9 <= n <= 13 || n == 0x20 || n == 0x85 || n == 0xa0 || n == 0x1680 || 0x2000 <= n <= 0x200a || n == 0x2028 || n
        == 0x2029 || n == 0x202f || n == 0x205f || n == 0x3000
}

pub fn is_white(c: char) -> (r: bool)
    ensures
        r == white(c),
{
    let n: u32 = c as u32;
    (9 <= n && n <= 13) || n == 0x20 || n == 0x85 || n == 0xa0 || n == 0x1680 || (0x2000 <= n && n <= 0x200a) || n
        == 0x2028 || n == 0x2029 || n == 0x202f || n == 0x205f || n == 0x3000
}

pub open spec fn trim_start(s: Seq<char>) -> Seq<char>
    decreases s.len(),
{
    if s.len() > 0 && white(s[0]) {
        trim_start(s.drop_first())
    } else {
        s
    }
}

pub open spec fn trim_end(s: Seq<char>) -> Seq<char>
    decreases s.len(),
{
    if s.len() > 0 && white(s.last()) {
        trim_end(s.drop_last())
    } else {
        s
    }
}

pub open spec fn trim(s: Seq<char>) -> Seq<char> {
    trim_end(trim_start(s))
}

/// `s` without the run of `c` at its end.
pub open spec fn trim_end_char(s: Seq<char>, c: char) -> Seq<char>
    decreases s.len(),
{
    if s.len() > 0 && s.last() == c {
        trim_end_char(s.drop_last(), c)
    } else {
        s
    }
}

pub fn trimmed(s: &str) -> (r: String)
    ensures
        r@ == trim(s@),
{
    let v = chars_of(s);
    let mut lo: usize = 0;
    assert(v@.skip(0) =~= v@);
    while lo < v.len() && is_white(v[lo])
        invariant
            lo <= v@.len(),
            trim_start(v@) == trim_start(v@.skip(lo as int)),
        decreases v@.len() - lo,
    {
        assert(v@.skip(lo as int).drop_first() =~= v@.skip(lo as int + 1));
        lo += 1;
    }
    let ghost rest = v@.skip(lo as int);
    let mut hi: usize = v.len();
    assert(v@.subrange(lo as int, hi as int) =~= rest);
    while hi > lo && is_white(v[hi - 1])
        invariant
            lo <= hi <= v@.len(),
            trim_end(rest) == trim_end(v@.subrange(lo as int, hi as int)),
        decreases hi,
    {
        assert(v@.subrange(lo as int, hi as int).drop_last() =~= v@.subrange(lo as int, hi - 1));
        hi -= 1;
    }
    string_of(&v, lo, hi)
}

pub fn trimmed_end(s: &str) -> (r: String)
    ensures
        r@ == trim_end(s@),
{
    let v = chars_of(s);
    let mut hi: usize = v.len();
    assert(v@.subrange(0, hi as int) =~= v@);
    while hi > 0 && is_white(v[hi - 1])
        invariant
            hi <= v@.len(),
            trim_end(v@) == trim_end(v@.subrange(0, hi as int)),
        decreases hi,
    {
        assert(v@.subrange(0, hi as int).drop_last() =~= v@.subrange(0, hi - 1));
        hi -= 1;
    }
    string_of(&v, 0, hi)
}

pub fn without_end_char(s: &str, c: char) -> (r: String)
    ensures
        r@ == trim_end_char(s@, c),
{
    let v = chars_of(s);
    let mut hi: usize = v.len();
    assert(v@.subrange(0, hi as int) =~= v@);
    while hi > 0 && v[hi - 1] == c
        invariant
            hi <= v@.len(),
            trim_end_char(v@, c) == trim_end_char(v@.subrange(0, hi as int), c),
        decreases hi,
    {
        assert(v@.subrange(0, hi as int).drop_last() =~= v@.subrange(0, hi - 1));
        hi -= 1;
    }
    string_of(&v, 0, hi)
}

/// How often `c` occurs in `s`.
pub open spec fn count(s: Seq<char>, c: char) -> nat
    decreases s.len(),
{
    if s.len() == 0 {
        0
    } else {
        count(s.drop_last(), c) + if s.last() == c {
            1nat
        } else {
            0nat
        }
    }
}

pub fn count_char(s: &str, c: char) -> (r: usize)
    ensures
        r == count(s@, c),
{
    let v = chars_of(s);
    let mut n: usize = 0;
    let mut i: usize = 0;
    while i < v.len()
        invariant
            i <= v@.len(),
            n <= i,
            n == count(v@.take(i as int), c),
        decreases v@.len() - i,
    {
        assert(v@.take(i as int + 1).drop_last() =~= v@.take(i as int));
        if v[i] == c {
            n += 1;
        }
        i += 1;
    }
    assert(v@.take(v@.len() as int) =~= v@);
    n
}

/// `s` up to its first `a` or `b`.
pub open spec fn before_either(s: Seq<char>, a: char, b: char) -> Seq<char> {
    if first_index(s, a) <= first_index(s, b) {
        s.take(first_index(s, a))
    } else {
        s.take(first_index(s, b))
    }
}

/// What follows the last `a` or `b` of `s`.
pub open spec fn after_either(s: Seq<char>, a: char, b: char) -> Seq<char> {
    if last_index(s, a) >= last_index(s, b) {
        s.skip(last_index(s, a) + 1)
    } else {
        s.skip(last_index(s, b) + 1)
    }
}

pub fn text_before_either(s: &str, a: char, b: char) -> (r: String)
    ensures
        r@ == before_either(s@, a, b),
{
    let x = text_before_first(s, a);
    let y = text_before_first(s, b);
    proof {
        first_index_bounds(s@, a);
        first_index_bounds(s@, b);
    }
    let m: usize = char_count(x.as_str());
    let n: usize = char_count(y.as_str());
    if m <= n {
        x
    } else {
        y
    }
}

pub fn text_after_either(s: &str, a: char, b: char) -> (r: String)
    ensures
        r@ == after_either(s@, a, b),
{
    let x = text_after_last(s, a);
    let y = text_after_last(s, b);
    proof {
        last_index_bounds(s@, a);
        last_index_bounds(s@, b);
    }
    let m: usize = char_count(x.as_str());
    let n: usize = char_count(y.as_str());
    if m <= n {
        x
    } else {
        y
    }
}

/// `c` is one of the three.
pub open spec fn one_of(c: char, x: char, y: char, z: char) -> bool {
    c == x || c == y || c == z
}

pub open spec fn trim_start_any(s: Seq<char>, x: char, y: char, z: char) -> Seq<char>
    decreases s.len(),
{
    if s.len() > 0 && one_of(s[0], x, y, z) {
        trim_start_any(s.drop_first(), x, y, z)
    } else {
        s
    }
}

pub open spec fn trim_end_any(s: Seq<char>, x: char, y: char, z: char) -> Seq<char>
    decreases s.len(),
{
    if s.len() > 0 && one_of(s.last(), x, y, z) {
        trim_end_any(s.drop_last(), x, y, z)
    } else {
        s
    }
}

/// `s` without the runs of `x`, `y` and `z` at its ends.
pub open spec fn trim_any(s: Seq<char>, x: char, y: char, z: char) -> Seq<char> {
    trim_end_any(trim_start_any(s, x, y, z), x, y, z)
}

pub fn trimmed_of(s: &str, x: char, y: char, z: char) -> (r: String)
    ensures
        r@ == trim_any(s@, x, y, z),
{
    let v = chars_of(s);
    let mut lo: usize = 0;
    assert(v@.skip(0) =~= v@);
    while lo < v.len() && (v[lo] == x || v[lo] == y || v[lo] == z)
        invariant
            lo <= v@.len(),
            trim_start_any(v@, x, y, z) == trim_start_any(v@.skip(lo as int), x, y, z),
        decreases v@.len() - lo,
    {
        assert(v@.skip(lo as int).drop_first() =~= v@.skip(lo as int + 1));
        lo += 1;
    }
    let ghost rest = v@.skip(lo as int);
    let mut hi: usize = v.len();
    assert(v@.subrange(lo as int, hi as int) =~= rest);
    while hi > lo && (v[hi - 1] == x || v[hi - 1] == y || v[hi - 1] == z)
        invariant
            lo <= hi <= v@.len(),
            trim_end_any(rest, x, y, z) == trim_end_any(v@.subrange(lo as int, hi as int), x, y, z),
        decreases hi,
    {
        assert(v@.subrange(lo as int, hi as int).drop_last() =~= v@.subrange(lo as int, hi - 1));
        hi -= 1;
    }
    string_of(&v, lo, hi)
}

/// The words of `s`: its longest pieces without white space. `word` is the piece
/// that `s` continues.
pub open spec fn words_after(word: Seq<char>, s: Seq<char>) -> Seq<Seq<char>>
    decreases s.len(),
{
    if s.len() == 0 {
        if word.len() == 0 {
            Seq::empty()
        } else {
            seq![word]
        }
    } else if white(s[0]) {
        if word.len() == 0 {
            words_after(Seq::empty(), s.drop_first())
        } else {
            seq![word] + words_after(Seq::empty(), s.drop_first())
        }
    } else {
        words_after(word.push(s[0]), s.drop_first())
    }
}

pub open spec fn words(s: Seq<char>) -> Seq<Seq<char>> {
    words_after(Seq::empty(), s)
}

pub fn words_of(s: &str) -> (r: Vec<String>)
    ensures
        views(r@) == words(s@),
{
    let v = chars_of(s);
    let mut out: Vec<String> = Vec::new();
    let mut word = String::new();
    let mut i: usize = 0;
    proof {
        assert(v@.skip(0) =~= v@);
        assert(views(out@) =~= Seq::<Seq<char>>::empty());
        assert(word@ =~= Seq::<char>::empty());
    }
    while i < v.len()
        invariant
            i <= v@.len(),
            v@ == s@,
            words(s@) =~= views(out@) + words_after(word@, v@.skip(i as int)),
        decreases v@.len() - i,
    {
        let ghost done = views(out@);
        let ghost rest = v@.skip(i as int);
        assert(rest.drop_first() =~= v@.skip(i as int + 1));
        if is_white(v[i]) {
            if !word.as_str().is_empty() {
                let ghost w = word;
                out.push(word);
                word = String::new();
                assert(views(out@) =~= done.push(w@));
            }
            assert(word@ =~= Seq::<char>::empty());
        } else {
            word.push(v[i]);
        }
        i += 1;
    }
    assert(v@.skip(i as int) =~= Seq::<char>::empty());
    if !word.as_str().is_empty() {
        let ghost done = views(out@);
        let ghost w = word;
        out.push(word);
        assert(views(out@) =~= done.push(w@));
    }
    assert(views(out@) =~= words(s@));
    out
}

// --- bytes ---------------------------------------------------------------------
/// What `String::from_utf8_lossy` makes of bytes.
pub uninterp spec fn lossy_text(bytes: Seq<u8>) -> Seq<char>;

/// `String::from_utf8_lossy` decodes UTF-8, putting U+FFFD for what is not; bytes
/// that are UTF-8 give exactly their text.
#[verifier::external_body]
pub(crate) fn decode_lossy(bytes: &Vec<u8>) -> (r: String)
    ensures
        r@ == lossy_text(bytes@),
        vstd::utf8::valid_utf8(bytes@) ==> r@ == vstd::utf8::decode_utf8(bytes@),
{
    String::from_utf8_lossy(bytes).into_owned()
}

/// `std::str::from_utf8` decodes bytes that are UTF-8, and no others.
#[verifier::external_body]
pub(crate) fn decode_utf8(bytes: &Vec<u8>) -> (r: Option<String>)
    ensures
        r is Some == vstd::utf8::valid_utf8(bytes@),
        r matches Some(s) ==> s@ == vstd::utf8::decode_utf8(bytes@),
{
    std::str::from_utf8(bytes).ok().map(|s| s.to_owned())
}

// --- building ------------------------------------------------------------------
/// Two texts one after the other.
pub fn cat(a: &str, b: &str) -> (r: String)
    ensures
        r@ == a@ + b@,
{
    let mut out = a.to_owned();
    out.append(b);
    out
}

pub fn cat3(a: &str, b: &str, c: &str) -> (r: String)
    ensures
        r@ == a@ + b@ + c@,
{
    let mut out = a.to_owned();
    out.append(b);
    out.append(c);
    out
}

pub open spec fn digit(n: nat) -> char {
    ((n % 10) as u8 + 48) as u8 as char
}

/// `n` in decimal notation.
pub open spec fn decimal(n: nat) -> Seq<char>
    decreases n,
{
    if n < 10 {
        seq![digit(n)]
    } else {
        decimal(n / 10).push(digit(n))
    }
}

/// Decimal notation is made of digits; a single one for a number below ten.
pub proof fn decimal_digits(n: nat)
    ensures
        decimal(n).len() > 0,
        decimal(n).len() == 1 <==> n < 10,
        forall|i: int| 0 <= i < decimal(n).len() ==> '0' <= #[trigger] decimal(n)[i] <= '9',
    decreases n,
{
    assert('0' <= digit(n) <= '9') by {
        let m = (n % 10) as u8;
        assert(48 <= m + 48 <= 57);
    }
    if n >= 10 {
        decimal_digits(n / 10);
        let rest = decimal(n / 10);
        assert forall|i: int| 0 <= i < decimal(n).len() implies '0' <= #[trigger] decimal(n)[i] <= '9' by {
            if i < rest.len() {
                assert(decimal(n)[i] == rest[i]);
            }
        }
    }
}

pub fn to_decimal(n: u64) -> (r: String)
    ensures
        r@ == decimal(n as nat),
    decreases n,
{
    let d: u8 = (n % 10) as u8;
    let c = (d + 48) as char;
    if n < 10 {
        let mut out = String::new();
        out.push(c);
        assert(out@ =~= seq![c]);
        out
    } else {
        let mut out = to_decimal(n / 10);
        out.push(c);
        out
    }
}

/// The number of characters of `s`.
pub fn char_count(s: &str) -> (r: usize)
    ensures
        r == s@.len(),
{
    chars_of(s).len()
}

/// Whether `list` holds `s`.
pub fn among(list: &Vec<String>, s: &str) -> (r: bool)
    ensures
        r == views(list@).contains(s@),
{
    let mut i: usize = 0;
    while i < list.len()
        invariant
            i <= list@.len(),
            forall|j: int| 0 <= j < i ==> views(list@)[j] != s@,
        decreases list@.len() - i,
    {
        if same(list[i].as_str(), s) {
            assert(views(list@)[i as int] == s@);
            return true;
        }
        i += 1;
    }
    false
}

} // verus!
