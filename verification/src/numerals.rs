//! Numerals: reading and writing numbers in decimal and hexadecimal notation.
use crate::text::{is_digit, to_chars, to_text};
use vstd::prelude::*;

verus! {

/// The character for a digit of the value `d`: `0` to `9`, then `a` to `f`.
pub open spec fn digit_char(d: nat) -> char {
    if d < 10 {
        (48 + d) as u8 as char
    } else {
        (87 + d) as u8 as char
    }
}

/// The value of a digit character.
pub open spec fn digit_value(c: char) -> nat {
    if '0' <= c <= '9' {
        (c as u32 - 48) as nat
    } else {
        (c as u32 - 87) as nat
    }
}

/// The numeral of `n` in `base`, without leading zeros.
pub open spec fn numeral(n: nat, base: nat) -> Seq<char>
    decreases n,
{
    if base < 2 || n < base {
        seq![digit_char(n)]
    } else {
        proof {
            assert(n / base < n) by (nonlinear_arith)
                requires
                    n >= base,
                    base >= 2,
            ;
        }
        numeral(n / base, base).push(digit_char(n % base))
    }
}

/// The number that a sequence of digits stands for in `base`.
pub open spec fn number(s: Seq<char>, base: nat) -> nat
    decreases s.len(),
{
    if s.len() == 0 {
        0
    } else {
        number(s.drop_last(), base) * base + digit_value(s.last())
    }
}

/// The decimal numeral of `n`.
pub open spec fn decimal(n: nat) -> Seq<char> {
    numeral(n, 10)
}

/// `s` with zeros before it up to the given width.
pub open spec fn zero_padded(s: Seq<char>, width: nat) -> Seq<char>
    decreases width - s.len(),
{
    if s.len() < width {
        zero_padded(seq!['0'] + s, width)
    } else {
        s
    }
}

/// Digits alone, and at least one.
pub open spec fn all_digits(s: Seq<char>) -> bool {
    s.len() > 0 && forall|i: int| 0 <= i < s.len() ==> is_digit(#[trigger] s[i])
}

/// The numeral after its sign, where it begins with `+`.
pub open spec fn without_plus(s: Seq<char>) -> Seq<char> {
    if s.len() > 0 && s[0] == '+' {
        s.skip(1)
    } else {
        s
    }
}

/// The number of at most `max` that `s` writes in decimal: an optional `+`, then digits alone.
pub open spec fn parse_unsigned(s: Seq<char>, max: nat) -> Option<nat> {
    let digits = without_plus(s);
    if all_digits(digits) && number(digits, 10) <= max {
        Some(number(digits, 10))
    } else {
        None
    }
}

/// The number from `min` to `max` that `s` writes in decimal, with an optional sign.
pub open spec fn parse_signed(s: Seq<char>, min: int, max: nat) -> Option<int> {
    if s.len() > 0 && s[0] == '-' {
        let digits = s.skip(1);
        if all_digits(digits) && -number(digits, 10) >= min {
            Some(-number(digits, 10))
        } else {
            None
        }
    } else {
        match parse_unsigned(s, max) {
            Some(n) => Some(n as int),
            None => None,
        }
    }
}

proof fn lemma_number_prefix(s: Seq<char>, k: int)
    requires
        0 <= k <= s.len(),
    ensures
        number(s.take(k), 10) <= number(s, 10),
    decreases s.len() - k,
{
    if k == s.len() {
        assert(s.take(k) == s);
    } else {
        assert(s.take(k + 1).drop_last() == s.take(k));
        lemma_number_prefix(s, k + 1);
    }
}

/// The number of at most `max` that the characters write: digits alone, at least one.
pub fn read_digits(cs: &[char], max: u64) -> (r: Option<u64>)
    ensures
        r is Some <==> all_digits(cs@) && number(cs@, 10) <= max,
        r matches Some(n) ==> n == number(cs@, 10),
{
    let len: usize = cs.len();
    if len == 0 {
        return None;
    }
    let mut acc: u64 = 0;
    let mut i: usize = 0;
    while i < len
        invariant
            len == cs@.len(),
            i <= len,
            acc <= max,
            acc == number(cs@.take(i as int), 10),
            forall|k: int| 0 <= k < i ==> is_digit(#[trigger] cs@[k]),
        decreases len - i,
    {
        let c: char = cs[i];
        if !('0' <= c && c <= '9') {
            assert(!is_digit(cs@[i as int]));
            return None;
        }
        assert(cs@.take(i + 1).drop_last() == cs@.take(i as int));
        let d: u32 = c as u32 - 48;
        let wide: u128 = (acc as u128) * 10 + d as u128;
        if wide > max as u128 {
            proof {
                lemma_number_prefix(cs@, i + 1);
            }
            return None;
        }
        acc = wide as u64;
        i += 1;
    }
    assert(cs@.take(len as int) == cs@);
    Some(acc)
}

/// The number of at most `max` that the characters write in decimal.
pub fn read_unsigned(cs: &[char], max: u64) -> (r: Option<u64>)
    ensures
        r is Some <==> parse_unsigned(cs@, max as nat) is Some,
        r matches Some(n) ==> parse_unsigned(cs@, max as nat) == Some(n as nat),
{
    if cs.len() > 0 && cs[0] == '+' {
        let tail = vstd::slice::slice_subrange(cs, 1, cs.len());
        assert(tail@ == cs@.skip(1));
        read_digits(tail, max)
    } else {
        read_digits(cs, max)
    }
}

/// The `u16` that the text writes in decimal.
pub fn parse_u16(s: &str) -> (r: Option<u16>)
    ensures
        r is Some <==> parse_unsigned(s@, u16::MAX as nat) is Some,
        r matches Some(n) ==> parse_unsigned(s@, u16::MAX as nat) == Some(n as nat),
{
    let cs = to_chars(s);
    match read_unsigned(cs.as_slice(), u16::MAX as u64) {
        Some(n) => Some(n as u16),
        None => None,
    }
}

/// The `u32` that the text writes in decimal.
pub fn parse_u32(s: &str) -> (r: Option<u32>)
    ensures
        r is Some <==> parse_unsigned(s@, u32::MAX as nat) is Some,
        r matches Some(n) ==> parse_unsigned(s@, u32::MAX as nat) == Some(n as nat),
{
    let cs = to_chars(s);
    match read_unsigned(cs.as_slice(), u32::MAX as u64) {
        Some(n) => Some(n as u32),
        None => None,
    }
}

/// The `u64` that the text writes in decimal.
pub fn parse_u64(s: &str) -> (r: Option<u64>)
    ensures
        r is Some <==> parse_unsigned(s@, u64::MAX as nat) is Some,
        r matches Some(n) ==> parse_unsigned(s@, u64::MAX as nat) == Some(n as nat),
{
    let cs = to_chars(s);
    read_unsigned(cs.as_slice(), u64::MAX)
}

/// The `i32` that the text writes in decimal.
pub fn parse_i32(s: &str) -> (r: Option<i32>)
    ensures
        r is Some <==> parse_signed(s@, i32::MIN as int, i32::MAX as nat) is Some,
        r matches Some(n) ==> parse_signed(s@, i32::MIN as int, i32::MAX as nat) == Some(n as int),
{
    let cs = to_chars(s);
    if cs.len() > 0 && cs[0] == '-' {
        let tail = vstd::slice::slice_subrange(cs.as_slice(), 1, cs.len());
        assert(tail@ == s@.skip(1));
        match read_digits(tail, 2147483648) {
            Some(n) => Some((0i64 - n as i64) as i32),
            None => None,
        }
    } else {
        match read_unsigned(cs.as_slice(), 2147483647) {
            Some(n) => Some(n as i32),
            None => None,
        }
    }
}

fn char_of_digit(d: u64) -> (r: char)
    requires
        d < 16,
    ensures
        r == digit_char(d as nat),
{
    let b: u8 = d as u8;
    if b < 10 {
        (48 + b) as char
    } else {
        (87 + b) as char
    }
}

/// The numeral of `n` in `base`.
pub fn numeral_chars(n: u64, base: u64) -> (r: Vec<char>)
    requires
        2 <= base <= 16,
    ensures
        r@ == numeral(n as nat, base as nat),
    decreases n,
{
    if n < base {
        let mut v: Vec<char> = Vec::new();
        v.push(char_of_digit(n));
        v
    } else {
        proof {
            assert(n / base < n) by (nonlinear_arith)
                requires
                    n >= base,
                    base >= 2,
            ;
            assert(n % base < base) by (nonlinear_arith)
                requires
                    base >= 2,
            ;
        }
        let mut v = numeral_chars(n / base, base);
        v.push(char_of_digit(n % base));
        v
    }
}

/// The decimal numeral of `n`.
pub fn decimal_text(n: u64) -> (r: String)
    ensures
        r@ == decimal(n as nat),
{
    let cs = numeral_chars(n, 10);
    to_text(cs.as_slice())
}

/// The numeral of `n` in `base` with zeros before it up to the given width.
pub fn padded_text(n: u64, base: u64, width: usize) -> (r: String)
    requires
        2 <= base <= 16,
    ensures
        r@ == zero_padded(numeral(n as nat, base as nat), width as nat),
{
    let mut cs = numeral_chars(n, base);
    while cs.len() < width
        invariant
            zero_padded(cs@, width as nat) == zero_padded(
                numeral(n as nat, base as nat),
                width as nat,
            ),
        decreases width - cs.len(),
    {
        let ghost before = cs@;
        cs.insert(0, '0');
        assert(cs@ == seq!['0'] + before);
    }
    to_text(cs.as_slice())
}

// ---------------------------------------------------------------------------
// What is written reads back
// ---------------------------------------------------------------------------
proof fn lemma_digit_round_trip(d: nat)
    requires
        d < 16,
    ensures
        digit_value(digit_char(d)) == d,
        d < 10 ==> is_digit(digit_char(d)),
{
}

proof fn lemma_number_zero_first(s: Seq<char>, base: nat)
    ensures
        number(seq!['0'] + s, base) == number(s, base),
    decreases s.len(),
{
    let t = seq!['0'] + s;
    if s.len() == 0 {
        assert(t.drop_last() == Seq::<char>::empty());
        assert(number(t.drop_last(), base) == 0);
        assert(0 * base == 0) by (nonlinear_arith);
    } else {
        assert(t.drop_last() == seq!['0'] + s.drop_last());
        lemma_number_zero_first(s.drop_last(), base);
    }
}

/// The numeral of a number stands for that number.
pub proof fn lemma_numeral_round_trip(n: nat, base: nat)
    requires
        2 <= base <= 16,
    ensures
        number(numeral(n, base), base) == n,
        numeral(n, base).len() > 0,
        base <= 10 ==> all_digits(numeral(n, base)),
    decreases n,
{
    let s = numeral(n, base);
    if n < base {
        lemma_digit_round_trip(n);
        assert(s.drop_last() == Seq::<char>::empty());
        assert(number(s.drop_last(), base) == 0);
        assert(0 * base == 0) by (nonlinear_arith);
    } else {
        assert(n / base < n) by (nonlinear_arith)
            requires
                n >= base,
                base >= 2,
        ;
        assert(n % base < base && n == (n / base) * base + n % base) by (nonlinear_arith)
            requires
                base >= 2,
        ;
        lemma_numeral_round_trip(n / base, base);
        lemma_digit_round_trip(n % base);
        assert(s.drop_last() == numeral(n / base, base));
    }
}

/// Zeros before a numeral do not change the number that it stands for.
pub proof fn lemma_padding_keeps_number(s: Seq<char>, width: nat, base: nat)
    ensures
        number(zero_padded(s, width), base) == number(s, base),
    decreases width - s.len(),
{
    if s.len() < width {
        lemma_number_zero_first(s, base);
        lemma_padding_keeps_number(seq!['0'] + s, width, base);
    }
}

/// A decimal numeral reads back as its number.
pub proof fn law_decimal_reads_back(n: nat, max: nat)
    requires
        n <= max,
    ensures
        parse_unsigned(decimal(n), max) == Some(n),
{
    lemma_numeral_round_trip(n, 10);
    assert(is_digit(decimal(n)[0]));
}

} // verus!
