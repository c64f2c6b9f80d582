//! Numbers and paths as they are shown.

use crate::lists::{keep, keep_add, keep_everything};
use crate::text::{cat3, chars_of, decimal, decimal_digits, string_of, to_decimal};
use vstd::prelude::*;
use vstd::string::StringExecFns;

verus! {

/// Digits in groups of three, from the right, with commas between them.
pub open spec fn grouped(digits: Seq<char>) -> Seq<char>
    decreases digits.len(),
{
    if digits.len() <= 3 {
        digits
    } else {
        grouped(digits.take(digits.len() - 3)) + ","@ + digits.skip(digits.len() - 3)
    }
}

/// A number with thousands separators.
pub open spec fn shown_number(n: nat) -> Seq<char> {
    grouped(decimal(n))
}

fn group(v: &Vec<char>, n: usize) -> (r: String)
    requires
        n <= v@.len(),
    ensures
        r@ == grouped(v@.take(n as int)),
    decreases n,
{
    let ghost d = v@.take(n as int);
    if n <= 3 {
        let s = string_of(v, 0, n);
        assert(s@ =~= d);
        s
    } else {
        let mut s = group(v, n - 3);
        let tail = string_of(v, n - 3, n);
        proof {
            assert(d.take(n - 3) =~= v@.take(n - 3));
            assert(tail@ =~= d.skip(n - 3));
        }
        s.append(",");
        s.append(tail.as_str());
        s
    }
}

/// Format an integer with thousands separators (deterministic, locale-free).
pub fn fmt_num(n: usize) -> (r: String)
    ensures
        r@ == shown_number(n as nat),
{
    let s = to_decimal(n as u64);
    let v = chars_of(s.as_str());
    assert(v@.take(v@.len() as int) =~= v@);
    group(&v, v.len())
}

/// A text of at most `max` characters: the whole, or its start and end around an
/// ellipsis; with no room at all, nothing.
pub open spec fn truncated(s: Seq<char>, max: nat) -> Seq<char> {
    if s.len() <= max {
        s
    } else if max == 0 {
        Seq::empty()
    } else if max == 1 {
        "…"@
    } else {
        let head = (max as int) / 2;
        let tail = max - 1 - head;
        s.take(head) + "…"@ + s.skip(s.len() - tail)
    }
}

/// Shorten `s` to at most `max` chars, eliding the middle with `…` so both the
/// leading directory and the file name stay visible.
pub fn truncate_middle(s: &str, max: usize) -> (r: String)
    ensures
        r@ == truncated(s@, max as nat),
{
    let v = chars_of(s);
    let n: usize = v.len();
    if n <= max {
        return s.to_owned();
    }
    if max == 0 {
        return String::new();
    }
    if max == 1 {
        return "…".to_owned();
    }
    let head: usize = max / 2;
    let tail: usize = max - 1 - head;
    let a = string_of(&v, 0, head);
    let b = string_of(&v, n - tail, n);
    proof {
        assert(a@ =~= s@.take(head as int));
        assert(b@ =~= s@.skip(n - tail));
    }
    cat3(a.as_str(), "…", b.as_str())
}

/// What is shown is never longer than allowed; of a text that is too long, all the
/// room there is gets used.
pub proof fn truncated_fits(s: Seq<char>, max: nat)
    ensures
        truncated(s, max).len() <= max,
        s.len() > max ==> truncated(s, max).len() == max,
{
    reveal_strlit("…");
}

/// The characters of a text that are no commas.
pub open spec fn without_commas(s: Seq<char>) -> Seq<char> {
    keep(s, |c: char| c != ',')
}

proof fn grouped_without_commas(d: Seq<char>)
    requires
        forall|i: int| 0 <= i < d.len() ==> #[trigger] d[i] != ',',
    ensures
        without_commas(grouped(d)) == d,
    decreases d.len(),
{
    let p = |c: char| c != ',';
    if d.len() <= 3 {
        keep_everything(d, p);
    } else {
        let a = d.take(d.len() - 3);
        let b = d.skip(d.len() - 3);
        grouped_without_commas(a);
        reveal_strlit(",");
        keep_add(grouped(a) + ","@, b, p);
        keep_add(grouped(a), ","@, p);
        keep_everything(b, p);
        let comma = ","@;
        assert(comma.drop_last() =~= Seq::<char>::empty());
        assert(keep(comma.drop_last(), p) =~= Seq::<char>::empty());
        assert(!p(comma.last()));
        assert(keep(comma, p) =~= Seq::<char>::empty());
        assert(a + Seq::<char>::empty() + b =~= d);
    }
}

/// Taking the commas out of a shown number leaves its digits.
pub proof fn shown_number_keeps_the_digits(n: nat)
    ensures
        without_commas(shown_number(n)) == decimal(n),
{
    decimal_digits(n);
    grouped_without_commas(decimal(n));
}

} // verus!
