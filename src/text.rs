use vstd::prelude::*;

verus! {

/// The character of the decimal digit `d`.
pub open spec fn digit(d: int) -> char {
    if d == 0 { '0' } else if d == 1 { '1' } else if d == 2 { '2' } else if d == 3 { '3' }
    else if d == 4 { '4' } else if d == 5 { '5' } else if d == 6 { '6' } else if d == 7 { '7' }
    else if d == 8 { '8' } else { '9' }
}

/// The decimal digits of `n`, most significant first, without leading zeros.
pub open spec fn digits(n: nat) -> Seq<char>
    decreases n,
{
    if n < 10 {
        seq![digit(n as int)]
    } else {
        digits(n / 10).push(digit((n % 10) as int))
    }
}

/// `t` tenths written in decimal: a minus sign when negative, the whole part, and a
/// point and the tenths digit when that digit is not zero.
pub open spec fn tenths_text(t: int) -> Seq<char> {
    let a = if t < 0 { -t } else { t };
    let sign = if t < 0 { seq!['-'] } else { Seq::empty() };
    let frac = if a % 10 == 0 { Seq::empty() } else { seq!['.', digit(a % 10)] };
    sign + digits((a / 10) as nat) + frac
}

/// The character of the decimal digit `d`.
fn digit_char(d: u128) -> (r: char)
    requires
        d < 10,
    ensures
        r == digit(d as int),
{
    if d == 0 { '0' } else if d == 1 { '1' } else if d == 2 { '2' } else if d == 3 { '3' }
    else if d == 4 { '4' } else if d == 5 { '5' } else if d == 6 { '6' } else if d == 7 { '7' }
    else if d == 8 { '8' } else { '9' }
}

/// Appends the decimal digits of `n`.
fn push_digits(n: u128, out: &mut Vec<char>)
    ensures
        final(out)@ == old(out)@ + digits(n as nat),
    decreases n,
{
    if n >= 10 {
        push_digits(n / 10, out);
    }
    out.push(digit_char(n % 10));
    proof {
        if n >= 10 {
            assert(digits(n as nat) == digits((n / 10) as nat).push(digit((n % 10) as int)));
        }
    }
}

/// Relies on `String::from_iter` over chars: the string holds exactly those chars.
#[verifier::external_body]
fn string_of_chars(c: &Vec<char>) -> (r: String)
    ensures
        r@ == c@,
{
    String::from_iter(c.iter())
}

/// The decimal text of `t` tenths.
pub fn tenths_to_text(t: i128) -> (r: String)
    requires
        t > i128::MIN,
    ensures
        r@ == tenths_text(t as int),
{
    let a: u128 = if t < 0 { (-t) as u128 } else { t as u128 };
    let mut out: Vec<char> = Vec::new();
    if t < 0 {
        out.push('-');
    }
    push_digits(a / 10, &mut out);
    if a % 10 != 0 {
        out.push('.');
        out.push(digit_char(a % 10));
    }
    proof {
        let sign = if t < 0 { seq!['-'] } else { Seq::<char>::empty() };
        let frac = if a % 10 == 0 { Seq::<char>::empty() } else { seq!['.', digit((a % 10) as int)] };
        assert(out@ =~= sign + digits((a / 10) as nat) + frac);
    }
    string_of_chars(&out)
}

} // verus!
