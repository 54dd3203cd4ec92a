//! Numbers as decimal text.

use vstd::prelude::*;
use vstd::string::*;

verus! {

/// The text of one decimal digit.
pub open spec fn digit(d: nat) -> Seq<char> {
    if d == 0 {
        "0"@
    } else if d == 1 {
        "1"@
    } else if d == 2 {
        "2"@
    } else if d == 3 {
        "3"@
    } else if d == 4 {
        "4"@
    } else if d == 5 {
        "5"@
    } else if d == 6 {
        "6"@
    } else if d == 7 {
        "7"@
    } else if d == 8 {
        "8"@
    } else {
        "9"@
    }
}

/// The text `acc` followed by the decimal digits of `n`, without leading zeros.
pub open spec fn with_decimal(acc: Seq<char>, n: nat) -> Seq<char>
    decreases n,
{
    if n < 10 {
        acc + digit(n)
    } else {
        with_decimal(acc, n / 10) + digit(n % 10)
    }
}

/// The text `acc` followed by a minus sign, if `n` is negative, and the
/// decimal digits of the magnitude of `n`.
pub open spec fn with_integer(acc: Seq<char>, n: int) -> Seq<char> {
    if n < 0 {
        with_decimal(acc + "-"@, (-n) as nat)
    } else {
        with_decimal(acc, n as nat)
    }
}

/// Ten to the power of `n`.
pub open spec fn pow10(n: nat) -> nat
    decreases n,
{
    if n == 0 {
        1
    } else {
        10 * pow10((n - 1) as nat)
    }
}

/// The text `acc` followed by the digits of the fraction `part / 10^width`,
/// up to the last digit that is not zero.
pub open spec fn with_fraction(acc: Seq<char>, part: nat, width: nat) -> Seq<char>
    decreases width,
{
    if part == 0 || width == 0 {
        acc
    } else {
        let unit = pow10((width - 1) as nat);
        with_fraction(acc + digit(part / unit), part % unit, (width - 1) as nat)
    }
}

/// The text `acc` followed by the decimal text of `n / 10^width`: the whole
/// part, and after a point the fraction, if there is one.
pub open spec fn with_fixed(acc: Seq<char>, n: nat, width: nat) -> Seq<char> {
    let unit = pow10(width);
    let whole = with_decimal(acc, n / unit);
    if n % unit == 0 {
        whole
    } else {
        with_fraction(whole + "."@, n % unit, width)
    }
}

/// The text `acc` followed by the decimal text of `n / 10^width`, with a
/// minus sign if `n` is negative.
pub open spec fn with_signed_fixed(acc: Seq<char>, n: int, width: nat) -> Seq<char> {
    if n < 0 {
        with_fixed(acc + "-"@, (-n) as nat, width)
    } else {
        with_fixed(acc, n as nat, width)
    }
}

fn digit_text(d: u128) -> (t: &'static str)
    requires
        d < 10,
    ensures
        t@ == digit(d as nat),
{
    if d == 0 {
        "0"
    } else if d == 1 {
        "1"
    } else if d == 2 {
        "2"
    } else if d == 3 {
        "3"
    } else if d == 4 {
        "4"
    } else if d == 5 {
        "5"
    } else if d == 6 {
        "6"
    } else if d == 7 {
        "7"
    } else if d == 8 {
        "8"
    } else {
        "9"
    }
}

/// Appends the decimal digits of `n`.
pub fn push_decimal(out: &mut String, n: u128)
    ensures
        final(out)@ == with_decimal(old(out)@, n as nat),
    decreases n,
{
    if n >= 10 {
        push_decimal(out, n / 10);
    }
    out.append(digit_text(n % 10));
}

/// Appends the decimal text of `n`.
pub fn push_integer(out: &mut String, n: i64)
    ensures
        final(out)@ == with_integer(old(out)@, n as int),
{
    if n < 0 {
        out.append("-");
        push_decimal(out, (-(n as i128)) as u128);
    } else {
        push_decimal(out, n as u128);
    }
}

/// The powers of ten are positive and grow.
pub proof fn lemma_pow10_grows(a: nat, b: nat)
    requires
        a <= b,
    ensures
        0 < pow10(a) <= pow10(b),
    decreases b,
{
    if a < b {
        lemma_pow10_grows(a, (b - 1) as nat);
    } else if a > 0 {
        lemma_pow10_grows((a - 1) as nat, (a - 1) as nat);
    }
}

/// The first thirty-two powers of ten fit in sixteen bytes.
pub proof fn lemma_pow10(a: nat, b: nat)
    requires
        a <= b,
    ensures
        0 < pow10(a) <= pow10(b),
        b <= 31 ==> pow10(b) <= 10_000_000_000_000_000_000_000_000_000_000,
{
    lemma_pow10_grows(a, b);
    if b <= 31 {
        lemma_pow10_grows(b, 31);
        reveal_with_fuel(pow10, 32);
    }
}

/// Ten to the power of `n`.
pub fn power_of_ten(n: u32) -> (p: u128)
    requires
        n <= 31,
    ensures
        p == pow10(n as nat),
        0 < p <= 10_000_000_000_000_000_000_000_000_000_000,
{
    let mut p: u128 = 1;
    let mut i: u32 = 0;
    while i < n
        invariant
            i <= n <= 31,
            p == pow10(i as nat),
        decreases n - i,
    {
        proof {
            lemma_pow10((i + 1) as nat, 31);
        }
        p = p * 10;
        i += 1;
    }
    proof {
        lemma_pow10(n as nat, n as nat);
    }
    p
}

fn push_fraction(out: &mut String, part: u128, width: u32)
    requires
        width <= 9,
        part < pow10(width as nat),
    ensures
        final(out)@ == with_fraction(old(out)@, part as nat, width as nat),
    decreases width,
{
    if part != 0 && width != 0 {
        let unit: u128 = power_of_ten(width - 1);
        assert(part / unit < 10) by (nonlinear_arith)
            requires
                part < 10 * unit,
                unit > 0,
        ;
        out.append(digit_text(part / unit));
        assert(part % unit < unit) by (nonlinear_arith)
            requires
                unit > 0,
        ;
        push_fraction(out, part % unit, width - 1);
    }
}

/// Appends the decimal text of `n / 10^width`.
pub fn push_fixed(out: &mut String, n: u128, width: u32)
    requires
        width <= 9,
    ensures
        final(out)@ == with_fixed(old(out)@, n as nat, width as nat),
{
    let unit: u128 = power_of_ten(width);
    push_decimal(out, n / unit);
    let part: u128 = n % unit;
    if part != 0 {
        out.append(".");
        push_fraction(out, part, width);
    }
}

/// Appends the decimal text of `n / 10^width`, with its sign.
pub fn push_signed_fixed(out: &mut String, n: i128, width: u32)
    requires
        width <= 9,
        n > i128::MIN,
    ensures
        final(out)@ == with_signed_fixed(old(out)@, n as int, width as nat),
{
    if n < 0 {
        out.append("-");
        push_fixed(out, (-n) as u128, width);
    } else {
        push_fixed(out, n as u128, width);
    }
}

} // verus!
