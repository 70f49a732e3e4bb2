use vstd::prelude::*;

use vstd::string::StringExecFns;

verus! {

/// The character for a single decimal digit.
pub open spec fn digit_char(d: u8) -> char
    recommends
        d < 10,
{
    ((d + 48) as u8) as char
}

/// The decimal rendering of a byte, without leading zeroes.
pub open spec fn decimal_digits(n: u8) -> Seq<char> {
    if n < 10 {
        seq![digit_char(n)]
    } else if n < 100 {
        seq![digit_char((n / 10) as u8), digit_char((n % 10) as u8)]
    } else {
        seq![
            digit_char((n / 100) as u8),
            digit_char(((n / 10) % 10) as u8),
            digit_char((n % 10) as u8),
        ]
    }
}

/// Relies on String::push: appends exactly the given character.
#[verifier::external_body]
fn push_char(s: &mut String, c: char)
    ensures
        final(s)@ == old(s)@.push(c),
{
    s.push(c);
}

pub fn push_literal(s: &mut String, lit: &str)
    ensures
        final(s)@ == old(s)@ + lit@,
{
    s.append(lit);
}

pub fn push_string(s: &mut String, other: &String)
    ensures
        final(s)@ == old(s)@ + other@,
{
    s.append(other.as_str());
}

pub fn push_number(s: &mut String, n: u8)
    ensures
        final(s)@ == old(s)@ + decimal_digits(n),
{
    let ghost entry = s@;
    if n < 10 {
        push_char(s, (48 + n) as char);
        proof {
            assert(s@ =~= entry + decimal_digits(n));
        }
    } else if n < 100 {
        push_char(s, (48 + n / 10) as char);
        push_char(s, (48 + n % 10) as char);
        proof {
            assert(s@ =~= entry + decimal_digits(n));
        }
    } else {
        push_char(s, (48 + n / 100) as char);
        push_char(s, (48 + (n / 10) % 10) as char);
        push_char(s, (48 + n % 10) as char);
        proof {
            assert(s@ =~= entry + decimal_digits(n));
        }
    }
}

} // verus!
