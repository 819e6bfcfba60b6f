//! Decimal text of unsigned integers.

use vstd::prelude::*;

verus! {

/// The character of a decimal digit
pub open spec fn digit_char(d: nat) -> char {
    if d == 0 {
        '0'
    } else if d == 1 {
        '1'
    } else if d == 2 {
        '2'
    } else if d == 3 {
        '3'
    } else if d == 4 {
        '4'
    } else if d == 5 {
        '5'
    } else if d == 6 {
        '6'
    } else if d == 7 {
        '7'
    } else if d == 8 {
        '8'
    } else {
        '9'
    }
}

/// The decimal digits of `n`, most significant first, without leading zeros
pub open spec fn decimal(n: nat) -> Seq<char>
    decreases n,
{
    if n < 10 {
        seq![digit_char(n)]
    } else {
        decimal(n / 10).push(digit_char(n % 10))
    }
}

/// Appends the character of the decimal digit `d`
fn push_digit(s: &mut String, d: usize)
    requires
        d < 10,
    ensures
        final(s)@ == old(s)@.push(digit_char(d as nat)),
{
    let digit: &str = if d == 0 {
        "0"
    } else if d == 1 {
        "1"
    } else if d == 2 {
        "2"
    } else if d == 3 {
        "3"
    } else if d == 4 {
        "4"
    } else if d == 5 {
        "5"
    } else if d == 6 {
        "6"
    } else if d == 7 {
        "7"
    } else if d == 8 {
        "8"
    } else {
        "9"
    };
    proof {
        reveal_strlit("0");
        reveal_strlit("1");
        reveal_strlit("2");
        reveal_strlit("3");
        reveal_strlit("4");
        reveal_strlit("5");
        reveal_strlit("6");
        reveal_strlit("7");
        reveal_strlit("8");
        reveal_strlit("9");
        assert(digit@ =~= seq![digit_char(d as nat)]);
    }
    s.append(digit);
}

/// Appends the decimal digits of `n` to the string (what `n.to_string()`
/// gives)
pub fn push_decimal(s: &mut String, n: usize)
    ensures
        final(s)@ == old(s)@ + decimal(n as nat),
    decreases n,
{
    if n >= 10 {
        push_decimal(s, n / 10);
    }
    push_digit(s, n % 10);
    proof {
        assert(s@ =~= old(s)@ + decimal(n as nat)) by {
            if n >= 10 {
                assert(decimal(n as nat) == decimal((n / 10) as nat).push(digit_char((n % 10) as nat)));
            }
        }
    }
}

/// Three decimal digits of `n`, below 1000, with leading zeros
pub open spec fn three_digits(n: nat) -> Seq<char> {
    seq![digit_char(n / 100), digit_char((n / 10) % 10), digit_char(n % 10)]
}

/// The decimal digits of `n` with a comma between each group of three,
/// counted from the right: the way the English locale writes a number
pub open spec fn thousands(n: nat) -> Seq<char>
    decreases n,
{
    if n < 1000 {
        decimal(n)
    } else {
        thousands(n / 1000) + seq![','] + three_digits(n % 1000)
    }
}

/// Appends `n` with thousands separators (what `num_format` writes for the
/// English locale)
pub fn push_thousands(s: &mut String, n: usize)
    ensures
        final(s)@ == old(s)@ + thousands(n as nat),
    decreases n,
{
    if n < 1000 {
        push_decimal(s, n);
    } else {
        push_thousands(s, n / 1000);
        crate::text::push_char(s, ',');
        let rest = n % 1000;
        push_digit(s, rest / 100);
        push_digit(s, (rest / 10) % 10);
        push_digit(s, rest % 10);
        proof {
            assert(s@ =~= old(s)@ + thousands(n as nat));
        }
    }
}

/// The text of `n` with thousands separators
pub fn thousands_string(n: usize) -> (r: String)
    ensures
        r@ == thousands(n as nat),
{
    let mut s = String::new();
    push_thousands(&mut s, n);
    proof {
        assert(s@ =~= thousands(n as nat));
    }
    s
}

/// The decimal text of `n` (`n.to_string()`)
pub fn decimal_string(n: usize) -> (r: String)
    ensures
        r@ == decimal(n as nat),
{
    let mut s = String::new();
    push_decimal(&mut s, n);
    proof {
        assert(s@ =~= decimal(n as nat));
    }
    s
}

} // verus!
