use vstd::prelude::*;
use vstd::string::StringExecFns;

verus! {

/// Relies on std's String::push: appends exactly one character.
#[verifier::external_body]
pub(crate) fn push_char(s: &mut String, c: char)
    ensures
        final(s)@ == old(s)@.push(c),
{
    s.push(c);
}

/// The decimal digit character for a value below ten.
pub open spec fn digit_char_spec(d: nat) -> char {
    if d == 0 {
        '0'
    } else if d == 1 {
        '1'
    } else if d == 2 {
        '2'
    } else if d == 3 {
        '3'
    } else if d == 4 {
        '4'
    } else if d == 5 {
        '5'
    } else if d == 6 {
        '6'
    } else if d == 7 {
        '7'
    } else if d == 8 {
        '8'
    } else {
        '9'
    }
}

/// The decimal rendering of a number, most significant digit first, with
/// no leading zeros (zero itself renders as one digit).
pub open spec fn dec_digits(n: nat) -> Seq<char>
    decreases n,
{
    if n < 10 {
        seq![digit_char_spec(n)]
    } else {
        dec_digits(n / 10).push(digit_char_spec(n % 10))
    }
}

fn digit_char(d: u64) -> (c: char)
    requires
        d < 10,
    ensures
        c == digit_char_spec(d as nat),
{
    if d == 0 {
        '0'
    } else if d == 1 {
        '1'
    } else if d == 2 {
        '2'
    } else if d == 3 {
        '3'
    } else if d == 4 {
        '4'
    } else if d == 5 {
        '5'
    } else if d == 6 {
        '6'
    } else if d == 7 {
        '7'
    } else if d == 8 {
        '8'
    } else {
        '9'
    }
}

/// Renders a number in decimal.
pub fn u64_to_dec(n: u64) -> (r: String)
    ensures
        r@ == dec_digits(n as nat),
    decreases n,
{
    if n < 10 {
        let mut s = String::new();
        push_char(&mut s, digit_char(n));
        proof {
            assert(s@ =~= seq![digit_char_spec(n as nat)]);
        }
        s
    } else {
        let mut s = u64_to_dec(n / 10);
        push_char(&mut s, digit_char(n % 10));
        proof {
            assert(s@ =~= dec_digits(n as nat / 10).push(digit_char_spec(n as nat % 10)));
        }
        s
    }
}

/// Appends the decimal rendering of a number.
pub fn append_dec(out: &mut String, n: u64)
    ensures
        final(out)@ == old(out)@ + dec_digits(n as nat),
{
    let d = u64_to_dec(n);
    out.append(d.as_str());
}

} // verus!
