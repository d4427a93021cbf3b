//! Counts as text: decimal digits, and the line of selected counts.

use vstd::prelude::*;
use vstd::string::StringExecFns;

verus! {

/// The character of the decimal digit `d`.
pub open spec fn digit(d: nat) -> char
    recommends
        d < 10,
{
    if d == 0 {
        '0'
    } else if d == 1 {
        '1'
    } else if d == 2 {
        '2'
    } else if d == 3 {
        '3'
    } else if d == 4 {
        '4'
    } else if d == 5 {
        '5'
    } else if d == 6 {
        '6'
    } else if d == 7 {
        '7'
    } else if d == 8 {
        '8'
    } else {
        '9'
    }
}

/// `n` in decimal: most significant digit first, no sign, no leading zero
/// but for zero itself.
pub open spec fn decimal(n: nat) -> Seq<char>
    decreases n,
{
    if n < 10 {
        seq![digit(n)]
    } else {
        decimal(n / 10).push(digit(n % 10))
    }
}

/// One count of the output line: a space and the count in decimal where it is
/// shown, nothing where it is not.
pub open spec fn field(shown: bool, n: u64) -> Seq<char> {
    if shown {
        seq![' '] + decimal(n as nat)
    } else {
        Seq::empty()
    }
}

/// `u64`'s `to_string` of std, taken on trust: the text of an unsigned integer
/// is its decimal digits and nothing else.
#[verifier::external_body]
pub(crate) fn decimal_text(n: u64) -> (r: String)
    ensures
        r@ == decimal(n as nat),
{
    n.to_string()
}

/// Appends one space to `out`.
pub(crate) fn push_space(out: &mut String)
    ensures
        final(out)@ == old(out)@ + seq![' '],
{
    proof {
        reveal_strlit(" ");
        assert(" "@ =~= seq![' ']);
    }
    out.append(" ");
}

/// Appends a space and `n` in decimal to `out`.
pub(crate) fn push_count(out: &mut String, n: u64)
    ensures
        final(out)@ == old(out)@ + field(true, n),
{
    let text = decimal_text(n);
    push_space(out);
    out.append(text.as_str());
    assert(out@ =~= old(out)@ + field(true, n));
}

} // verus!
