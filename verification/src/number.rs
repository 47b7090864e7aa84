//! Numbers as text, and text as numbers.
use crate::text::{copy_text, to_chars};
use vstd::prelude::*;
use vstd::string::*;

verus! {

// ── Decimal digits ───────────────────────────────────────────────────────────

/// The decimal digit with the value `d`.
pub open spec fn digit_char(d: nat) -> char {
    (48 + d) as char
}

/// Whether `c` is one of the ten ASCII digits.
pub open spec fn is_digit(c: char) -> bool {
    48 <= c as u32 <= 57
}

/// The value of the decimal digit `c`.
pub open spec fn digit_value(c: char) -> nat {
    (c as u32 - 48) as nat
}

/// Whether `s` is made of decimal digits alone.
pub open spec fn all_digits(s: Seq<char>) -> bool {
    forall|i: int| 0 <= i < s.len() ==> is_digit(#[trigger] s[i])
}

/// The number that the decimal digits of `s` write.
pub open spec fn digits_value(s: Seq<char>) -> nat
    decreases s.len(),
{
    if s.len() == 0 {
        0
    } else {
        digits_value(s.drop_last()) * 10 + digit_value(s.last())
    }
}

/// `n` in decimal, without leading zeros.
pub open spec fn decimal(n: nat) -> Seq<char>
    decreases n,
{
    if n < 10 {
        seq![digit_char(n)]
    } else {
        decimal(n / 10).push(digit_char(n % 10))
    }
}

/// `n` in decimal, with a minus sign where it is negative.
pub open spec fn signed_decimal(n: int) -> Seq<char> {
    if n < 0 {
        seq!['-'] + decimal((-n) as nat)
    } else {
        decimal(n as nat)
    }
}

/// `s` with zeros in front, up to `width` characters.
pub open spec fn zero_padded(s: Seq<char>, width: nat) -> Seq<char> {
    if s.len() >= width {
        s
    } else {
        Seq::new((width - s.len()) as nat, |i: int| '0') + s
    }
}

/// Writes `n` in decimal.
pub fn decimal_text(n: u128) -> (r: String)
    ensures
        r@ == decimal(n as nat),
    decreases n,
{
    let d: u8 = (n % 10) as u8;
    let c: char = (48u8 + d) as char;
    if n < 10 {
        let mut r = String::new();
        r.push(c);
        r
    } else {
        let mut r = decimal_text(n / 10);
        r.push(c);
        r
    }
}

/// Writes `n` in decimal, with its sign where it is negative.
pub fn signed_text(n: i128) -> (r: String)
    ensures
        r@ == signed_decimal(n as int),
{
    if n < 0 {
        let mut r = String::new();
        r.push('-');
        let magnitude: u128 = (-(n + 1)) as u128 + 1;
        let digits = decimal_text(magnitude);
        r.append(digits.as_str());
        r
    } else {
        decimal_text(n as u128)
    }
}

/// Writes `n` in decimal, with zeros in front up to `width` characters.
pub fn padded_text(n: u128, width: usize) -> (r: String)
    ensures
        r@ == zero_padded(decimal(n as nat), width as nat),
{
    let digits = decimal_text(n);
    let chars = to_chars(digits.as_str());
    let len: usize = chars.len();
    let mut r = String::new();
    let mut i: usize = len;
    while i < width
        invariant
            len <= i,
            len < width ==> i <= width,
            width <= len ==> i == len,
            r@ == Seq::new((i - len) as nat, |k: int| '0'),
        decreases width - i,
    {
        r.push('0');
        i += 1;
    }
    r.append(digits.as_str());
    r
}

/// The hexadecimal digit with the value `d`, in upper case.
pub open spec fn hex_char(d: nat) -> char {
    if d < 10 {
        (48 + d) as char
    } else {
        (55 + d) as char
    }
}

/// `n` in hexadecimal, in upper case and without leading zeros.
pub open spec fn hexadecimal(n: nat) -> Seq<char>
    decreases n,
{
    if n < 16 {
        seq![hex_char(n)]
    } else {
        hexadecimal(n / 16).push(hex_char(n % 16))
    }
}

/// Writes `n` in upper-case hexadecimal.
pub fn hexadecimal_text(n: u64) -> (r: String)
    ensures
        r@ == hexadecimal(n as nat),
    decreases n,
{
    let d: u8 = (n % 16) as u8;
    let c: char = if d < 10 { (48u8 + d) as char } else { (55u8 + d) as char };
    if n < 16 {
        let mut r = String::new();
        r.push(c);
        r
    } else {
        let mut r = hexadecimal_text(n / 16);
        r.push(c);
        r
    }
}

// ── Reading whole numbers ────────────────────────────────────────────────────

/// The number that `s` writes with one or more decimal digits.
pub open spec fn unsigned_value(s: Seq<char>) -> Option<nat> {
    if s.len() > 0 && all_digits(s) {
        Some(digits_value(s))
    } else {
        None
    }
}

/// The number that `s` writes: an optional sign, then one or more digits.
pub open spec fn signed_value(s: Seq<char>) -> Option<int> {
    if s.len() > 0 && s[0] == '-' {
        match unsigned_value(s.drop_first()) {
            Some(v) => Some(-(v as int)),
            None => None,
        }
    } else if s.len() > 0 && s[0] == '+' {
        match unsigned_value(s.drop_first()) {
            Some(v) => Some(v as int),
            None => None,
        }
    } else {
        match unsigned_value(s) {
            Some(v) => Some(v as int),
            None => None,
        }
    }
}

/// The `u32` that `s` writes: an optional plus sign, then digits.
pub open spec fn u32_value(s: Seq<char>) -> Option<u32> {
    if s.len() > 0 && s[0] == '-' {
        None
    } else {
        match signed_value(s) {
            Some(v) => if v <= u32::MAX {
                Some(v as u32)
            } else {
                None
            },
            None => None,
        }
    }
}

/// The `i64` that `s` writes.
pub open spec fn i64_value(s: Seq<char>) -> Option<i64> {
    match signed_value(s) {
        Some(v) => if i64::MIN <= v <= i64::MAX {
            Some(v as i64)
        } else {
            None
        },
        None => None,
    }
}

/// The `i32` that `s` writes.
pub open spec fn i32_value(s: Seq<char>) -> Option<i32> {
    match signed_value(s) {
        Some(v) => if i32::MIN <= v <= i32::MAX {
            Some(v as i32)
        } else {
            None
        },
        None => None,
    }
}

/// A bound above every number that is read.
const CEILING: u128 = 0x1_0000_0000_0000_0000;

/// Whether `c` is one of the ten ASCII digits.
pub fn is_decimal_digit(c: char) -> (r: bool)
    ensures
        r == is_digit(c),
{
    let code: u32 = c as u32;
    48 <= code && code <= 57
}

/// Reads the digits from `from` on; what is at or above the ceiling is given as
/// the ceiling.
fn read_digits(chars: &[char], from: usize) -> (r: Option<u128>)
    requires
        from <= chars@.len(),
    ensures
        r is Some == unsigned_value(chars@.skip(from as int)) is Some,
        r matches Some(v) ==> {
            let exact = digits_value(chars@.skip(from as int));
            if exact < CEILING {
                v == exact
            } else {
                v == CEILING
            }
        },
{
    let n: usize = chars.len();
    let ghost rest = chars@.skip(from as int);
    if from == n {
        return None;
    }
    let mut value: u128 = 0;
    let mut i: usize = from;
    while i < n
        invariant
            n == chars@.len(),
            from <= i <= n,
            rest == chars@.skip(from as int),
            all_digits(rest.take(i - from)),
            value <= CEILING,
            digits_value(rest.take(i - from)) < CEILING ==> value == digits_value(
                rest.take(i - from),
            ),
            digits_value(rest.take(i - from)) >= CEILING ==> value == CEILING,
        decreases n - i,
    {
        let c = chars[i];
        let ghost k = i - from;
        proof {
            assert(rest.take(k + 1).drop_last() =~= rest.take(k));
            assert(rest.take(k + 1).last() == rest[k]);
            assert(rest[k] == c);
        }
        if !is_decimal_digit(c) {
            assert(!is_digit(rest[k]));
            return None;
        }
        let d: u128 = (c as u32 - 48) as u128;
        let wider: u128 = value * 10 + d;
        value = if wider > CEILING {
            CEILING
        } else {
            wider
        };
        i += 1;
        proof {
            assert forall|j: int| 0 <= j < k + 1 implies is_digit(
                #[trigger] rest.take(k + 1)[j],
            ) by {
                if j < k {
                    assert(rest.take(k)[j] == rest.take(k + 1)[j]);
                }
            }
        }
    }
    assert(rest.take(n - from) =~= rest);
    Some(value)
}

/// Reads `s` as a signed number; what is out of the range of `i64` gives `None`.
pub fn parse_i64(s: &str) -> (r: Option<i64>)
    ensures
        r == i64_value(s@),
{
    let chars = to_chars(s);
    if chars.len() == 0 {
        return None;
    }
    let minus = chars[0] == '-';
    let from: usize = if minus || chars[0] == '+' { 1 } else { 0 };
    proof {
        assert(s@.skip(0) =~= s@);
        assert(s@.skip(1) =~= s@.drop_first());
    }
    match read_digits(&chars, from) {
        None => None,
        Some(v) => {
            if minus {
                if v == 0x8000_0000_0000_0000 {
                    Some(i64::MIN)
                } else if v < 0x8000_0000_0000_0000 {
                    Some(-(v as i64))
                } else {
                    None
                }
            } else if v < 0x8000_0000_0000_0000 {
                Some(v as i64)
            } else {
                None
            }
        },
    }
}

/// Reads `s` as a signed number; what is out of the range of `i32` gives `None`.
pub fn parse_i32(s: &str) -> (r: Option<i32>)
    ensures
        r == i32_value(s@),
{
    match parse_i64(s) {
        None => None,
        Some(v) => {
            if v < i32::MIN as i64 || v > i32::MAX as i64 {
                None
            } else {
                Some(v as i32)
            }
        },
    }
}

/// Reads `s` as an unsigned number; what is out of the range of `u32` gives `None`.
pub fn parse_u32(s: &str) -> (r: Option<u32>)
    ensures
        r == u32_value(s@),
{
    let chars = to_chars(s);
    if chars.len() == 0 || chars[0] == '-' {
        return None;
    }
    match parse_i64(s) {
        None => None,
        Some(v) => {
            if v < 0 || v > u32::MAX as i64 {
                None
            } else {
                Some(v as u32)
            }
        },
    }
}

// ── What is written reads back ───────────────────────────────────────────────

/// The decimal digits of a number are digits, one at least, and write the number.
pub proof fn decimal_reads_back(n: nat)
    ensures
        decimal(n).len() > 0,
        all_digits(decimal(n)),
        digits_value(decimal(n)) == n,
    decreases n,
{
    let last = digit_char(n % 10);
    assert(is_digit(last) && digit_value(last) == n % 10);
    if n < 10 {
        let s = decimal(n);
        assert(s.drop_last() =~= Seq::empty());
        assert(digits_value(s.drop_last()) == 0);
        assert(s.last() == digit_char(n));
    } else {
        decimal_reads_back(n / 10);
        assert(decimal(n).drop_last() =~= decimal(n / 10));
    }
}

/// Zeros in front of digits change nothing of the number that they write.
pub proof fn padding_keeps_the_value(s: Seq<char>, width: nat)
    requires
        all_digits(s),
    ensures
        all_digits(zero_padded(s, width)),
        digits_value(zero_padded(s, width)) == digits_value(s),
    decreases s.len(),
{
    let padded = zero_padded(s, width);
    if s.len() < width {
        let zeros = Seq::new((width - s.len()) as nat, |i: int| '0');
        lemma_zeros_in_front(zeros, s);
        assert forall|i: int| 0 <= i < padded.len() implies is_digit(#[trigger] padded[i]) by {
            if i < zeros.len() {
                assert(padded[i] == '0');
            } else {
                assert(padded[i] == s[i - zeros.len()]);
            }
        }
    }
}

proof fn lemma_zeros_in_front(zeros: Seq<char>, s: Seq<char>)
    requires
        forall|i: int| 0 <= i < zeros.len() ==> #[trigger] zeros[i] == '0',
    ensures
        digits_value(zeros + s) == digits_value(s),
    decreases zeros.len() + s.len(),
{
    let all = zeros + s;
    if s.len() > 0 {
        assert(all.drop_last() =~= zeros + s.drop_last());
        lemma_zeros_in_front(zeros, s.drop_last());
    } else if zeros.len() > 0 {
        assert(all =~= zeros);
        assert(zeros.drop_last() + s =~= zeros.drop_last());
        lemma_zeros_in_front(zeros.drop_last(), s);
        assert(digit_value(zeros.last()) == 0);
    } else {
        assert(all =~= s);
    }
}

/// A `u32` that is written in decimal, padded with zeros or not, reads back as itself.
pub proof fn u32_reads_back(n: u32, width: nat)
    ensures
        u32_value(zero_padded(decimal(n as nat), width)) == Some(n),
{
    let s = decimal(n as nat);
    let padded = zero_padded(s, width);
    decimal_reads_back(n as nat);
    padding_keeps_the_value(s, width);
    assert(padded.len() > 0);
    assert(is_digit(padded[0]));
}

/// An `i64` that is written in decimal reads back as itself.
pub proof fn i64_reads_back(n: i64)
    ensures
        i64_value(signed_decimal(n as int)) == Some(n),
{
    if n < 0 {
        let digits = decimal((-(n as int)) as nat);
        decimal_reads_back((-(n as int)) as nat);
        assert(signed_decimal(n as int).drop_first() =~= digits);
    } else {
        decimal_reads_back(n as nat);
        assert(is_digit(decimal(n as nat)[0]));
    }
}

/// An `i32` that is written in decimal reads back as itself.
pub proof fn i32_reads_back(n: i32)
    ensures
        i32_value(signed_decimal(n as int)) == Some(n),
{
    i64_reads_back(n as i64);
}

// ── Doubles that are carried through ─────────────────────────────────────────

/// A double-precision number: its IEEE 754 bit pattern, by which it is ordered, and
/// the text that messages and filter strings show for it.
#[derive(Debug, Clone)]
pub struct Float {
    pub bits: u64,
    pub text: String,
}

/// One above the largest magnitude that a bit pattern holds beside its sign.
pub const SIGN: u64 = 0x8000_0000_0000_0000;

/// The bit pattern of positive infinity.
pub const INFINITE: u64 = 0x7FF0_0000_0000_0000;

/// The magnitude of a bit pattern, without its sign.
pub open spec fn magnitude(bits: u64) -> int {
    if bits >= SIGN {
        bits - SIGN
    } else {
        bits as int
    }
}

/// Where a bit pattern stands in the order of the numbers.
pub open spec fn rank(bits: u64) -> int {
    if bits >= SIGN {
        -magnitude(bits)
    } else {
        magnitude(bits)
    }
}

/// Whether a bit pattern is no number.
pub open spec fn not_a_number(bits: u64) -> bool {
    magnitude(bits) > INFINITE
}

/// Whether the double `a` is above the double `b`.
pub open spec fn above(a: u64, b: u64) -> bool {
    !not_a_number(a) && !not_a_number(b) && rank(a) > rank(b)
}

/// Whether the double `a` is at most the double `b`.
pub open spec fn at_most(a: u64, b: u64) -> bool {
    !not_a_number(a) && !not_a_number(b) && rank(a) <= rank(b)
}

/// Whether the double is zero, of either sign.
pub open spec fn is_zero(bits: u64) -> bool {
    bits == 0 || bits == SIGN
}

impl Float {
    /// The number with the bit pattern `bits`, shown as `text`.
    pub fn new(bits: u64, text: &str) -> (r: Float)
        ensures
            r.bits == bits,
            r.text@ == text@,
    {
        Float { bits, text: copy_text(text) }
    }

    /// Whether this number is above `other`; never where one of them is no number.
    pub fn exceeds(&self, other: &Float) -> (r: bool)
        ensures
            r == above(self.bits, other.bits),
    {
        let left_negative = self.bits >= SIGN;
        let right_negative = other.bits >= SIGN;
        let left: u64 = if left_negative { self.bits - SIGN } else { self.bits };
        let right: u64 = if right_negative { other.bits - SIGN } else { other.bits };
        if left > INFINITE || right > INFINITE {
            false
        } else if left_negative {
            right_negative && left < right
        } else if right_negative {
            left > 0 || right > 0
        } else {
            left > right
        }
    }

    /// Whether this number is at most `other`; never where one of them is no number.
    pub fn at_most(&self, other: &Float) -> (r: bool)
        ensures
            r == at_most(self.bits, other.bits),
    {
        !self.is_no_number() && !other.is_no_number() && !self.exceeds(other)
    }

    /// Whether this is no number.
    pub fn is_no_number(&self) -> (r: bool)
        ensures
            r == not_a_number(self.bits),
    {
        if self.bits >= SIGN {
            self.bits - SIGN > INFINITE
        } else {
            self.bits > INFINITE
        }
    }

    /// Whether this number is other than zero.
    pub fn nonzero(&self) -> (r: bool)
        ensures
            r == !is_zero(self.bits),
    {
        self.bits != 0 && self.bits != SIGN
    }

    /// A copy of this number.
    pub fn copy(&self) -> (r: Float)
        ensures
            r.bits == self.bits,
            r.text@ == self.text@,
    {
        Float { bits: self.bits, text: self.text.clone() }
    }
}

/// Numbers are strictly ordered by their bit patterns: none is above itself, and what is
/// above a number is above those below it. Nothing is above or below what is no number.
pub proof fn order_of_numbers_is_strict(a: u64, b: u64, c: u64)
    ensures
        !above(a, a),
        above(a, b) && above(b, c) ==> above(a, c),
        above(a, b) ==> !above(b, a),
        not_a_number(a) ==> !above(a, b) && !above(b, a),
{
}

/// Positive numbers are ordered as their bit patterns, negative ones the other way round, and
/// these are below those; the zeros are equal; and what is beyond infinity is no number.
pub proof fn order_of_numbers_is_that_of_bit_patterns(a: u64, b: u64)
    ensures
        a <= 0x7FF0_0000_0000_0000 && b <= 0x7FF0_0000_0000_0000 ==> (above(a, b) <==> a > b)
            && (at_most(a, b) <==> a <= b),
        0x8000_0000_0000_0000 <= a <= 0xFFF0_0000_0000_0000 && 0x8000_0000_0000_0000 <= b
            <= 0xFFF0_0000_0000_0000 ==> (above(a, b) <==> a < b) && (at_most(a, b) <==> a >= b),
        a <= 0x7FF0_0000_0000_0000 && 0x8000_0000_0000_0000 <= b <= 0xFFF0_0000_0000_0000 ==> (
        above(a, b) <==> a > 0 || b > 0x8000_0000_0000_0000) && at_most(b, a) && !above(b, a),
        0x7FF0_0000_0000_0000 < a < 0x8000_0000_0000_0000 || a > 0xFFF0_0000_0000_0000 ==> !above(
            a,
            b,
        ) && !above(b, a) && !at_most(a, b) && !at_most(b, a),
        is_zero(a) <==> a == 0 || a == 0x8000_0000_0000_0000,
{
}

/// Digits are read from the highest: one more digit behind them makes ten times the number,
/// and the digit. A sign in front tells whether it is negative; other characters make no
/// number.
pub proof fn digits_are_read_from_the_highest(s: Seq<char>, c: char)
    ensures
        '0' <= c <= '9' ==> digits_value(s.push(c)) == 10 * digits_value(s) + (c as u32 - '0' as u32),
        s.len() > 0 && all_digits(s) ==> {
            &&& signed_value(s) == Some(digits_value(s) as int)
            &&& signed_value(seq!['-'] + s) == Some(-(digits_value(s) as int))
            &&& signed_value(seq!['+'] + s) == Some(digits_value(s) as int)
            &&& u32_value(s) == if digits_value(s) <= 0xFFFF_FFFF {
                Some(digits_value(s) as u32)
            } else {
                None
            }
            &&& u32_value(seq!['-'] + s) is None
        },
        signed_value(Seq::empty()) is None,
        !('0' <= c <= '9') && c != '+' && c != '-' ==> signed_value(s.push(c)) is None,
        digits_value(Seq::empty()) == 0,
{
    assert(s.push(c).drop_last() =~= s);
    if s.len() > 0 && all_digits(s) {
        assert(is_digit(s[0]));
        assert((seq!['-'] + s).drop_first() =~= s);
        assert((seq!['+'] + s).drop_first() =~= s);
    }
    if !('0' <= c <= '9') && c != '+' && c != '-' {
        let t = s.push(c);
        assert(!is_digit(t[s.len() as int]));
        let u = t.drop_first();
        if s.len() > 0 {
            assert(u[u.len() - 1] == c);
            assert(!is_digit(u[u.len() - 1]));
        }
    }
}

/// A number in hexadecimal is written with the digits of its sixteenth part and the digit of
/// what is left over, in upper case.
pub proof fn hexadecimal_digits_are_in_upper_case(q: nat, d: nat)
    requires
        d < 16,
    ensures
        hexadecimal(d) == seq!["0123456789ABCDEF"@[d as int]],
        q > 0 ==> hexadecimal(16 * q + d) == hexadecimal(q).push("0123456789ABCDEF"@[d as int]),
{
    reveal_strlit("0123456789ABCDEF");
    assert(hex_char(d) == "0123456789ABCDEF"@[d as int]);
    if q > 0 {
        assert((16 * q + d) / 16 == q);
        assert((16 * q + d) % 16 == d);
    }
}

/// A number in decimal is written with the digits of its tenth part and the digit of what is
/// left over, and a minus in front where it is below zero.
pub proof fn decimal_digits_come_from_the_highest(q: nat, d: nat, width: nat)
    requires
        d < 10,
    ensures
        decimal(d) == seq!["0123456789"@[d as int]],
        q > 0 ==> decimal(10 * q + d) == decimal(q).push("0123456789"@[d as int]),
        signed_decimal(q as int) == decimal(q),
        q > 0 ==> signed_decimal(-q) == seq!['-'] + decimal(q),
        ({
            let s = zero_padded(decimal(q), width);
            &&& decimal(q).len() >= width ==> s == decimal(q)
            &&& decimal(q).len() < width ==> s.len() == width && s.skip(width - decimal(q).len())
                == decimal(q) && forall|i: int|
                0 <= i < width - decimal(q).len() ==> #[trigger] s[i] == '0'
        }),
{
    reveal_strlit("0123456789");
    assert(digit_char(d) == "0123456789"@[d as int]);
    if q > 0 {
        assert((10 * q + d) / 10 == q);
        assert((10 * q + d) % 10 == d);
    }
    let s = zero_padded(decimal(q), width);
    if decimal(q).len() < width {
        assert(s.skip(width - decimal(q).len()) =~= decimal(q));
    } else {
        assert(s =~= decimal(q));
    }
}

}
