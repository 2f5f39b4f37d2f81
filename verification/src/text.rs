//! Small text utilities shared by the rest of the crate: appending a
//! character to a string and writing an unsigned integer in decimal.

use vstd::prelude::*;

verus! {

/// `String::push` of the standard library: the character is appended at the
/// end and nothing else changes.
pub assume_specification[ String::push ](s: &mut String, c: char)
    ensures
        final(s)@ == old(s)@.push(c),
;

/// The views of a sequence of strings, element by element.
pub open spec fn texts(v: Seq<String>) -> Seq<Seq<char>> {
    v.map_values(|s: String| s@)
}

/// The character that writes the decimal digit `d`.
pub open spec fn digit_char(d: nat) -> char
    recommends
        d < 10,
{
    (48 + d) as char
}

/// The decimal notation of `n`, without sign or leading zeros.
pub open spec fn decimal(n: nat) -> Seq<char>
    decreases n,
{
    if n < 10 {
        seq![digit_char(n)]
    } else {
        decimal(n / 10).push(digit_char(n % 10))
    }
}

/// The digits of `n` from the least significant one up.
spec fn digits_reversed(n: nat) -> Seq<char>
    decreases n,
{
    if n < 10 {
        seq![digit_char(n)]
    } else {
        seq![digit_char(n % 10)] + digits_reversed(n / 10)
    }
}

proof fn lemma_digits_reversed(n: nat)
    ensures
        digits_reversed(n) == decimal(n).reverse(),
    decreases n,
{
    if n >= 10 {
        lemma_digits_reversed(n / 10);
        let d = digit_char(n % 10);
        let rest = decimal(n / 10);
        assert(rest.push(d).reverse() =~= seq![d] + rest.reverse());
    } else {
        assert(seq![digit_char(n)].reverse() =~= seq![digit_char(n)]);
    }
}

fn digit_of(d: u64) -> (c: char)
    requires
        d < 10,
    ensures
        c == digit_char(d as nat),
{
    let b: u8 = 48u8 + (d as u8);
    b as char
}

/// Writes `n` in decimal.
pub fn decimal_string(n: u64) -> (out: String)
    ensures
        out@ == decimal(n as nat),
{
    let mut reversed: Vec<char> = Vec::new();
    let mut rest: u64 = n;
    while rest >= 10
        invariant
            digits_reversed(n as nat) == reversed@ + digits_reversed(rest as nat),
        decreases rest,
    {
        let c = digit_of(rest % 10);
        proof {
            assert(reversed@.push(c) + digits_reversed((rest / 10) as nat) =~= reversed@
                + digits_reversed(rest as nat));
        }
        reversed.push(c);
        rest = rest / 10;
    }
    let c = digit_of(rest);
    reversed.push(c);
    proof {
        lemma_digits_reversed(n as nat);
        assert(reversed@ =~= decimal(n as nat).reverse());
    }
    let ghost target = decimal(n as nat);
    let mut out = String::new();
    let mut i: usize = reversed.len();
    while i > 0
        invariant
            i <= reversed.len(),
            reversed@ == target.reverse(),
            out@ == target.take(target.len() - i),
        decreases i,
    {
        i = i - 1;
        let c = reversed[i];
        proof {
            let k = target.len() - i - 1;
            assert(target.reverse()[i as int] == target[k]);
            assert(target.take(k + 1) =~= target.take(k).push(target[k]));
        }
        out.push(c);
    }
    proof {
        assert(target.take(target.len() as int) =~= target);
    }
    out
}

/// The decimal notation of `i`, with a minus sign where it is negative.
pub open spec fn signed_decimal(i: int) -> Seq<char> {
    if i < 0 {
        seq!['-'] + decimal((-i) as nat)
    } else {
        decimal(i as nat)
    }
}

/// Writes `i` in decimal, with a minus sign where it is negative.
pub fn signed_decimal_string(i: i32) -> (out: String)
    ensures
        out@ == signed_decimal(i as int),
{
    if i < 0 {
        let magnitude: u64 = (-(i as i64)) as u64;
        let digits = decimal_string(magnitude);
        let mut out = String::new();
        out.push('-');
        out.append(digits.as_str());
        assert(out@ =~= seq!['-'] + decimal((-i) as nat));
        out
    } else {
        decimal_string(i as u64)
    }
}

} // verus!
