//! Building text: appending to a `String`, and numbers in decimal notation.

use vstd::prelude::*;

verus! {

/// The character of a decimal digit.
pub open spec fn digit_char(d: nat) -> char {
    (48 + d) as char
}

/// A number in decimal notation, without leading zeros.
pub open spec fn decimal(n: nat) -> Seq<char>
    decreases n,
{
    if n < 10 {
        seq![digit_char(n)]
    } else {
        decimal(n / 10).push(digit_char(n % 10))
    }
}

/// Appends a string slice with `String::push_str`: the text grows by the
/// characters of `t`, in order, and what was there stays.
#[verifier::external_body]
pub(crate) fn push_text(s: &mut String, t: &str)
    ensures
        final(s)@ == old(s)@ + t@,
{
    s.push_str(t);
}

/// Appends one character with `String::push`: the text grows by `c` at its
/// end, and what was there stays.
#[verifier::external_body]
pub(crate) fn push_char(s: &mut String, c: char)
    ensures
        final(s)@ == old(s)@.push(c),
{
    s.push(c);
}

/// Appends `x` in decimal notation.
pub fn push_decimal(s: &mut String, x: u64)
    ensures
        final(s)@ == old(s)@ + decimal(x as nat),
    decreases x,
{
    if x >= 10 {
        push_decimal(s, x / 10);
    }
    let d: u8 = (x % 10) as u8;
    let c: char = (48u8 + d) as char;
    assert(c == digit_char((x % 10) as nat));
    push_char(s, c);
    assert(s@ =~= old(s)@ + decimal(x as nat));
}

} // verus!
