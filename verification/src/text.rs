//! Reading bytes: blanks, names, searches and numbers.

use vstd::prelude::*;
use crate::number::{lemma_pow10, pow10, power_of_ten};

verus! {

/// A stretch of the input, from `start` up to but without `end`.
#[derive(Clone, Copy, PartialEq, Eq, Debug, Structural)]
pub struct Span {
    pub start: usize,
    pub end: usize,
}

impl Span {
    /// The bytes of the stretch; nothing where the stretch does not lie in the input.
    pub open spec fn of(self, s: Seq<u8>) -> Seq<u8> {
        if self.start <= self.end <= s.len() {
            s.subrange(self.start as int, self.end as int)
        } else {
            Seq::empty()
        }
    }
}

pub open spec fn is_space(b: u8) -> bool {
    b == 32 || b == 9 || b == 10 || b == 13
}

pub open spec fn is_digit(b: u8) -> bool {
    48 <= b <= 57
}

/// The byte can stand in the name of a tag or of an attribute.
pub open spec fn is_name_byte(b: u8) -> bool {
    (97 <= b <= 122) || (65 <= b <= 90) || is_digit(b) || b == 95 || b == 45 || b == 58 || b == 46
}

/// The first place from `i` on that holds no blank.
pub open spec fn skip_spaces(s: Seq<u8>, i: int) -> int
    decreases s.len() - i,
{
    if 0 <= i < s.len() && is_space(s[i]) {
        skip_spaces(s, i + 1)
    } else {
        i
    }
}

/// The first place from `i` on that holds no byte of a name.
pub open spec fn name_end(s: Seq<u8>, i: int) -> int
    decreases s.len() - i,
{
    if 0 <= i < s.len() && is_name_byte(s[i]) {
        name_end(s, i + 1)
    } else {
        i
    }
}

/// The first place from `i` on that holds the byte `b`; the length of the
/// input if there is none.
pub open spec fn find_byte(s: Seq<u8>, i: int, b: u8) -> int
    decreases s.len() - i,
{
    if 0 <= i < s.len() && s[i] != b {
        find_byte(s, i + 1, b)
    } else if i < 0 || i > s.len() {
        s.len() as int
    } else {
        i
    }
}

/// The input holds `pattern` at place `i`.
pub open spec fn starts_with(s: Seq<u8>, i: int, pattern: Seq<u8>) -> bool {
    0 <= i && i + pattern.len() <= s.len() && s.subrange(i, i + pattern.len()) == pattern
}

/// The first place from `i` on at which the input holds `pattern`; the
/// length of the input if there is none.
pub open spec fn find_pattern(s: Seq<u8>, i: int, pattern: Seq<u8>) -> int
    decreases s.len() - i,
{
    if 0 <= i < s.len() && !starts_with(s, i, pattern) {
        find_pattern(s, i + 1, pattern)
    } else if i < 0 || i > s.len() {
        s.len() as int
    } else {
        i
    }
}

/// The last place before `end`, and not before `start`, that holds no blank, plus one.
pub open spec fn trim_end(s: Seq<u8>, start: int, end: int) -> int
    decreases end - start,
{
    if start < end <= s.len() && 0 <= start && is_space(s[end - 1]) {
        trim_end(s, start, end - 1)
    } else {
        end
    }
}

/// The stretch without the blanks at its ends.
pub open spec fn trimmed(s: Seq<u8>, span: Span) -> Span {
    if span.start <= span.end <= s.len() {
        let start = if skip_spaces(s, span.start as int) < span.end {
            skip_spaces(s, span.start as int)
        } else {
            span.end as int
        };
        Span { start: start as usize, end: trim_end(s, start, span.end as int) as usize }
    } else {
        Span { start: 0, end: 0 }
    }
}

pub fn space(b: u8) -> (r: bool)
    ensures
        r == is_space(b),
{
    b == 32 || b == 9 || b == 10 || b == 13
}

pub fn digit_byte(b: u8) -> (r: bool)
    ensures
        r == is_digit(b),
{
    48 <= b && b <= 57
}

pub fn name_byte(b: u8) -> (r: bool)
    ensures
        r == is_name_byte(b),
{
    (97 <= b && b <= 122) || (65 <= b && b <= 90) || digit_byte(b) || b == 95 || b == 45 || b == 58
        || b == 46
}

pub fn after_spaces(s: &[u8], i: usize) -> (j: usize)
    requires
        i <= s.len(),
    ensures
        j == skip_spaces(s@, i as int),
        i <= j <= s.len(),
{
    let mut j: usize = i;
    while j < s.len() && space(s[j])
        invariant
            i <= j <= s.len(),
            skip_spaces(s@, i as int) == skip_spaces(s@, j as int),
        decreases s.len() - j,
    {
        j += 1;
    }
    j
}

pub fn after_name(s: &[u8], i: usize) -> (j: usize)
    requires
        i <= s.len(),
    ensures
        j == name_end(s@, i as int),
        i <= j <= s.len(),
{
    let mut j: usize = i;
    while j < s.len() && name_byte(s[j])
        invariant
            i <= j <= s.len(),
            name_end(s@, i as int) == name_end(s@, j as int),
        decreases s.len() - j,
    {
        j += 1;
    }
    j
}

pub fn position_of(s: &[u8], i: usize, b: u8) -> (j: usize)
    requires
        i <= s.len(),
    ensures
        j == find_byte(s@, i as int, b),
        i <= j <= s.len(),
        j < s.len() ==> s[j as int] == b,
{
    let mut j: usize = i;
    while j < s.len() && s[j] != b
        invariant
            i <= j <= s.len(),
            find_byte(s@, i as int, b) == find_byte(s@, j as int, b),
        decreases s.len() - j,
    {
        j += 1;
    }
    j
}

pub fn holds(s: &[u8], i: usize, pattern: &[u8]) -> (r: bool)
    requires
        i <= s.len(),
    ensures
        r == starts_with(s@, i as int, pattern@),
{
    if pattern.len() > s.len() - i {
        return false;
    }
    let mut k: usize = 0;
    while k < pattern.len()
        invariant
            k <= pattern.len(),
            i + pattern.len() <= s.len(),
            forall|j: int| 0 <= j < k ==> s@[i + j] == pattern@[j],
        decreases pattern.len() - k,
    {
        if s[i + k] != pattern[k] {
            assert(s@.subrange(i as int, i + pattern.len())[k as int] != pattern@[k as int]);
            return false;
        }
        k += 1;
    }
    assert(s@.subrange(i as int, i + pattern.len()) =~= pattern@);
    true
}

pub fn position_of_pattern(s: &[u8], i: usize, pattern: &[u8]) -> (j: usize)
    requires
        i <= s.len(),
    ensures
        j == find_pattern(s@, i as int, pattern@),
        i <= j <= s.len(),
        j < s.len() ==> starts_with(s@, j as int, pattern@),
{
    let mut j: usize = i;
    while j < s.len() && !holds(s, j, pattern)
        invariant
            i <= j <= s.len(),
            find_pattern(s@, i as int, pattern@) == find_pattern(s@, j as int, pattern@),
        decreases s.len() - j,
    {
        j += 1;
    }
    j
}

/// Whether the stretch holds exactly the bytes of `pattern`.
pub fn span_is(s: &[u8], span: Span, pattern: &[u8]) -> (r: bool)
    ensures
        r == (span.start <= span.end <= s.len() && span.of(s@) == pattern@),
{
    if span.start > span.end || span.end > s.len() {
        return false;
    }
    if span.end - span.start != pattern.len() {
        assert(span.of(s@).len() != pattern@.len());
        return false;
    }
    holds(s, span.start, pattern)
}

pub fn trim(s: &[u8], span: Span) -> (t: Span)
    ensures
        t == trimmed(s@, span),
        span.start <= span.end <= s.len() ==> span.start <= t.start <= t.end <= span.end,
{
    if span.start > span.end || span.end > s.len() {
        return Span { start: 0, end: 0 };
    }
    let skipped: usize = after_spaces(s, span.start);
    let start: usize = if skipped < span.end { skipped } else { span.end };
    let mut end: usize = span.end;
    while start < end && space(s[end - 1])
        invariant
            start <= end <= span.end <= s.len(),
            trim_end(s@, start as int, span.end as int) == trim_end(s@, start as int, end as int),
        decreases end - start,
    {
        end -= 1;
    }
    Span { start, end }
}

/// The value from which on a run of digits counts as too long to have a value.
pub const DIGIT_CAP: u128 = 1_000_000_000_000_000_000_000_000_000_000;

/// The largest magnitude of a number read, in thousandths.
pub const NUMBER_LIMIT: u128 = 1_000_000_000_000_000_000;

/// What a run of digits holds: its value, the number of its digits and the
/// place after it. A value from [`DIGIT_CAP`] on stands for a run too long to have one.
pub struct Digits {
    pub value: nat,
    pub count: nat,
    pub next: int,
}

/// The run of digits from `i` on, before `end`, continuing a run of `count`
/// digits of value `value`.
pub open spec fn digits_from(s: Seq<u8>, i: int, end: int, value: nat, count: nat) -> Digits
    decreases end - i,
{
    if 0 <= i < end <= s.len() && is_digit(s[i]) {
        digits_from(
            s,
            i + 1,
            end,
            if value >= DIGIT_CAP {
                value
            } else {
                (value * 10 + (s[i] - 48)) as nat
            },
            count + 1,
        )
    } else {
        Digits { value, count, next: i }
    }
}

/// The number that the stretch holds between blanks, if it holds the
/// decimal digits of a number below two to the sixty-fourth and nothing else.
pub open spec fn unsigned_of(s: Seq<u8>, span: Span) -> Option<u64> {
    let t = trimmed(s, span);
    let d = digits_from(s, t.start as int, t.end as int, 0, 0);
    if span.start <= span.end <= s.len() && d.count >= 1 && d.next == t.end && d.value
        <= u64::MAX {
        Some(d.value as u64)
    } else {
        None
    }
}

/// Whether a sign stands at place `i`, and the place after it.
pub open spec fn sign_at(s: Seq<u8>, i: int, end: int) -> (bool, int) {
    if 0 <= i < end <= s.len() && s[i] == 45 {
        (true, i + 1)
    } else if 0 <= i < end <= s.len() && s[i] == 43 {
        (false, i + 1)
    } else {
        (false, i)
    }
}

/// The number `mantissa * 10^power`, rounded to the nearest whole number,
/// halves upwards; nothing if the mantissa has no value or the number is
/// beyond [`NUMBER_LIMIT`].
pub open spec fn scaled(mantissa: nat, power: int) -> Option<nat> {
    if mantissa >= DIGIT_CAP {
        None
    } else if mantissa == 0 {
        Some(0)
    } else if power >= 0 {
        if power > 30 || mantissa * pow10(power as nat) > NUMBER_LIMIT {
            None
        } else {
            Some(mantissa * pow10(power as nat))
        }
    } else if -power > 31 {
        Some(0)
    } else {
        let unit = pow10((-power) as nat);
        let rounded = (mantissa + unit / 2) / unit;
        if rounded > NUMBER_LIMIT {
            None
        } else {
            Some(rounded as nat)
        }
    }
}

/// The number that the stretch holds between blanks, in thousandths and
/// rounded to the nearest: a sign or none, digits with or without a point
/// among them, and an exponent or none; nothing for any other text.
pub open spec fn decimal_of(s: Seq<u8>, span: Span) -> Option<i64> {
    let t = trimmed(s, span);
    let end = t.end as int;
    let (negative, i) = sign_at(s, t.start as int, end);
    let whole = digits_from(s, i, end, 0, 0);
    let pointed = 0 <= whole.next < end <= s.len() && s[whole.next] == 46;
    let fraction = if pointed {
        digits_from(s, whole.next + 1, end, whole.value, 0)
    } else {
        Digits { value: whole.value, count: 0, next: whole.next }
    };
    let powered = 0 <= fraction.next < end <= s.len() && (s[fraction.next] == 101
        || s[fraction.next] == 69);
    let (down, j) = sign_at(s, fraction.next + 1, end);
    let exponent = digits_from(s, j, end, 0, 0);
    let last = if powered { exponent.next } else { fraction.next };
    let power = if !powered {
        0
    } else if down {
        -(exponent.value as int)
    } else {
        exponent.value as int
    };
    if !(span.start <= span.end <= s.len()) || whole.count + fraction.count == 0 || (powered
        && exponent.count == 0) || last != end {
        None
    } else {
        match scaled(fraction.value, power - fraction.count + 3) {
            None => None,
            Some(v) => Some(
                if negative {
                    (-(v as int)) as i64
                } else {
                    v as i64
                },
            ),
        }
    }
}

/// The place at which the digits begin that end the stretch.
pub open spec fn tail_start(s: Seq<u8>, start: int, end: int) -> int
    decreases end - start,
{
    if 0 <= start < end <= s.len() && is_digit(s[end - 1]) {
        tail_start(s, start, end - 1)
    } else {
        end
    }
}

/// The number whose digits end the stretch, blanks aside: the identifier
/// at the end of an address.
pub open spec fn trailing_of(s: Seq<u8>, span: Span) -> Option<u64> {
    let t = trimmed(s, span);
    unsigned_of(
        s,
        Span { start: tail_start(s, t.start as int, t.end as int) as usize, end: t.end },
    )
}

/// Reads a run of digits.
pub fn read_digits(s: &[u8], i: usize, end: usize, value: u128, count: usize) -> (r: (
    u128,
    usize,
    usize,
))
    requires
        i <= end <= s.len(),
        value <= 10 * DIGIT_CAP + 9,
        count <= i,
    ensures
        ({
            let d = digits_from(s@, i as int, end as int, value as nat, count as nat);
            d.value == r.0 && d.count == r.1 && d.next == r.2
        }),
        i <= r.2 <= end,
        r.1 <= r.2,
        r.0 <= 10 * DIGIT_CAP + 9,
{
    let mut sum: u128 = value;
    let mut seen: usize = count;
    let mut j: usize = i;
    while j < end && digit_byte(s[j])
        invariant
            i <= j <= end <= s.len(),
            seen <= j,
            sum <= 10 * DIGIT_CAP + 9,
            digits_from(s@, i as int, end as int, value as nat, count as nat) == digits_from(
                s@,
                j as int,
                end as int,
                sum as nat,
                seen as nat,
            ),
        decreases end - j,
    {
        if sum < DIGIT_CAP {
            sum = sum * 10 + (s[j] - 48) as u128;
        }
        seen += 1;
        j += 1;
    }
    (sum, seen, j)
}

/// Reads a whole number.
pub fn parse_unsigned(s: &[u8], span: Span) -> (r: Option<u64>)
    ensures
        r == unsigned_of(s@, span),
{
    if span.start > span.end || span.end > s.len() {
        return None;
    }
    let t: Span = trim(s, span);
    let (value, count, next) = read_digits(s, t.start, t.end, 0, 0);
    if count >= 1 && next == t.end && value <= u64::MAX as u128 {
        Some(value as u64)
    } else {
        None
    }
}

fn read_sign(s: &[u8], i: usize, end: usize) -> (r: (bool, usize))
    requires
        i <= end <= s.len(),
    ensures
        (r.0, r.1 as int) == sign_at(s@, i as int, end as int),
        i <= r.1 <= end,
{
    if i < end && s[i] == 45 {
        (true, i + 1)
    } else if i < end && s[i] == 43 {
        (false, i + 1)
    } else {
        (false, i)
    }
}

/// Scales and rounds a mantissa.
pub fn scale(mantissa: u128, power: i128) -> (r: Option<u64>)
    requires
        mantissa <= 10 * DIGIT_CAP + 9,
    ensures
        match scaled(mantissa as nat, power as int) {
            Some(v) => r == Some(v as u64) && v <= NUMBER_LIMIT,
            None => r is None,
        },
{
    if mantissa >= DIGIT_CAP {
        None
    } else if mantissa == 0 {
        Some(0)
    } else if power >= 0 {
        if power > 30 {
            return None;
        }
        let unit: u128 = power_of_ten(power as u32);
        // The product may be beyond sixteen bytes: compare with the quotient
        // before multiplying.
        if mantissa > NUMBER_LIMIT / unit {
            assert(mantissa * unit > NUMBER_LIMIT) by (nonlinear_arith)
                requires
                    mantissa > NUMBER_LIMIT / unit,
                    unit > 0,
            ;
            None
        } else {
            assert(mantissa * unit <= NUMBER_LIMIT) by (nonlinear_arith)
                requires
                    mantissa <= NUMBER_LIMIT / unit,
                    unit > 0,
            ;
            Some((mantissa * unit) as u64)
        }
    } else if power < -31 {
        Some(0)
    } else {
        let unit: u128 = power_of_ten((-power) as u32);
        let rounded: u128 = (mantissa + unit / 2) / unit;
        if rounded > NUMBER_LIMIT {
            None
        } else {
            Some(rounded as u64)
        }
    }
}

/// Reads a number with a point, in thousandths.
pub fn parse_decimal(s: &[u8], span: Span) -> (r: Option<i64>)
    ensures
        r == decimal_of(s@, span),
{
    if span.start > span.end || span.end > s.len() {
        return None;
    }
    let t: Span = trim(s, span);
    let end: usize = t.end;
    let (negative, i) = read_sign(s, t.start, end);
    let (whole, whole_count, whole_next) = read_digits(s, i, end, 0, 0);
    let pointed: bool = whole_next < end && s[whole_next] == 46;
    let (mantissa, fraction_count, fraction_next) = if pointed {
        read_digits(s, whole_next + 1, end, whole, 0)
    } else {
        (whole, 0, whole_next)
    };
    let powered: bool = fraction_next < end && (s[fraction_next] == 101 || s[fraction_next] == 69);
    let mut last: usize = fraction_next;
    let mut power: i128 = 0;
    if powered {
        let (down, j) = read_sign(s, fraction_next + 1, end);
        let (exponent, exponent_count, exponent_next) = read_digits(s, j, end, 0, 0);
        if exponent_count == 0 {
            return None;
        }
        last = exponent_next;
        power = if down { -(exponent as i128) } else { exponent as i128 };
    }
    if (whole_count == 0 && fraction_count == 0) || last != end {
        return None;
    }
    match scale(mantissa, power - fraction_count as i128 + 3) {
        None => None,
        Some(v) => Some(if negative { -(v as i64) } else { v as i64 }),
    }
}

/// Reads the number whose digits end the stretch.
pub fn parse_trailing(s: &[u8], span: Span) -> (r: Option<u64>)
    ensures
        r == trailing_of(s@, span),
{
    let t: Span = trim(s, span);
    if span.start > span.end || span.end > s.len() {
        return parse_unsigned(s, Span { start: 0, end: 0 });
    }
    let mut start: usize = t.end;
    while t.start < start && digit_byte(s[start - 1])
        invariant
            t.start <= start <= t.end <= s.len(),
            tail_start(s@, t.start as int, t.end as int) == tail_start(
                s@,
                t.start as int,
                start as int,
            ),
        decreases start - t.start,
    {
        start -= 1;
    }
    parse_unsigned(s, Span { start, end: t.end })
}

} // verus!
