//! Human-readable text for error and diagnostic messages.

use vstd::prelude::*;
use vstd::string::StringExecFns;

verus! {

broadcast use vstd::string::group_string_axioms;

/// The upper-case hexadecimal digit of a value below 16.
pub open spec fn hex_digit(n: int) -> char {
    if n < 10 {
        (48 + n) as char
    } else {
        (55 + n) as char
    }
}

/// `0x` followed by the two upper-case hexadecimal digits of `b`.
pub open spec fn hex_byte(b: u8) -> Seq<char> {
    seq!['0', 'x', hex_digit(b as int / 16), hex_digit(b as int % 16)]
}

/// An owned copy of a string slice.
pub fn owned(s: &str) -> (r: String)
    ensures
        r@ == s@,
{
    s.to_string()
}

fn digit_text(n: u8) -> (r: &'static str)
    requires
        n < 16,
    ensures
        r@ == seq![hex_digit(n as int)],
{
    let s = if n == 0 { "0" } else if n == 1 { "1" } else if n == 2 { "2" } else if n == 3 {
        "3"
    } else if n == 4 { "4" } else if n == 5 { "5" } else if n == 6 { "6" } else if n == 7 {
        "7"
    } else if n == 8 { "8" } else if n == 9 { "9" } else if n == 10 { "A" } else if n == 11 {
        "B"
    } else if n == 12 { "C" } else if n == 13 { "D" } else if n == 14 { "E" } else { "F" };
    proof {
        reveal_strlit("0");
        reveal_strlit("1");
        reveal_strlit("2");
        reveal_strlit("3");
        reveal_strlit("4");
        reveal_strlit("5");
        reveal_strlit("6");
        reveal_strlit("7");
        reveal_strlit("8");
        reveal_strlit("9");
        reveal_strlit("A");
        reveal_strlit("B");
        reveal_strlit("C");
        reveal_strlit("D");
        reveal_strlit("E");
        reveal_strlit("F");
        assert(s@ =~= seq![hex_digit(n as int)]);
    }
    s
}

/// Appends `0x` and the two upper-case hexadecimal digits of `b`.
pub fn push_hex(s: &mut String, b: u8)
    ensures
        final(s)@ == old(s)@ + hex_byte(b),
{
    s.append("0x");
    s.append(digit_text(b / 16));
    s.append(digit_text(b % 16));
    proof {
        reveal_strlit("0x");
        assert(final(s)@ =~= old(s)@ + hex_byte(b));
    }
}

/// `prefix` followed by `0x` and the two hexadecimal digits of `b`.
pub fn with_hex(prefix: &str, b: u8) -> (r: String)
    ensures
        r@ == prefix@ + hex_byte(b),
{
    let mut s = owned(prefix);
    push_hex(&mut s, b);
    s
}

/// The decimal digits of `n`, without leading zeros.
pub open spec fn decimal(n: nat) -> Seq<char>
    decreases n,
{
    if n < 10 {
        seq![hex_digit(n as int)]
    } else {
        decimal(n / 10) + seq![hex_digit((n % 10) as int)]
    }
}

/// Appends the decimal digits of `n`.
pub fn push_number(s: &mut String, n: u64)
    ensures
        final(s)@ == old(s)@ + decimal(n as nat),
    decreases n,
{
    if n >= 10 {
        push_number(s, n / 10);
    }
    let ghost mid = s@;
    s.append(digit_text((n % 10) as u8));
    assert(s@ =~= old(s)@ + decimal(n as nat));
}

/// Appends `t`.
pub fn push_text(s: &mut String, t: &str)
    ensures
        final(s)@ == old(s)@ + t@,
{
    s.append(t);
}

/// `prefix`, the decimal digits of `n`, then `suffix`.
pub fn with_number(prefix: &str, n: u64, suffix: &str) -> (r: String)
    ensures
        r@ == prefix@ + decimal(n as nat) + suffix@,
{
    let mut s = owned(prefix);
    push_number(&mut s, n);
    s.append(suffix);
    s
}

} // verus!
