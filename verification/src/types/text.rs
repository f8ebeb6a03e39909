//! Decimal spellings of integers and the order of byte strings.

use vstd::prelude::*;
use vstd::utf8::{decode_utf8, valid_utf8};

verus! {

/// The ASCII digit for `d`.
pub open spec fn digit(d: nat) -> u8 {
    (48 + d) as u8
}

/// The decimal digits of `n`, most significant first, without leading zeros.
pub open spec fn decimal_digits(n: nat) -> Seq<u8>
    decreases n,
{
    if n < 10 {
        seq![digit(n)]
    } else {
        decimal_digits(n / 10).push(digit(n % 10))
    }
}

/// The decimal spelling of `v`: a minus sign for a negative number, then
/// the digits.
pub open spec fn decimal_text(v: int) -> Seq<u8> {
    if v < 0 {
        seq![45u8] + decimal_digits((-v) as nat)
    } else {
        decimal_digits(v as nat)
    }
}

/// Whether every byte is an ASCII digit.
pub open spec fn all_digits(s: Seq<u8>) -> bool {
    forall|i: int| 0 <= i < s.len() ==> 48 <= #[trigger] s[i] <= 57
}

/// The number that a sequence of ASCII digits spells.
pub open spec fn digits_value(s: Seq<u8>) -> nat
    decreases s.len(),
{
    if s.len() == 0 {
        0
    } else {
        digits_value(s.drop_last()) * 10 + (s.last() - 48) as nat
    }
}

/// Whether the text starts with a sign.
pub open spec fn has_sign(s: Seq<u8>) -> bool {
    s.len() > 0 && (s[0] == 45 || s[0] == 43)
}

/// The digits of a text: what follows the sign, where it has one.
pub open spec fn unsigned_part(s: Seq<u8>) -> Seq<u8> {
    if has_sign(s) {
        s.skip(1)
    } else {
        s
    }
}

/// The number that the text spells: an optional sign and at least one
/// digit, nothing else. `None` for every other text.
pub open spec fn parse_decimal(s: Seq<u8>) -> Option<int> {
    let digits = unsigned_part(s);
    if digits.len() > 0 && all_digits(digits) {
        if s[0] == 45 {
            Some(-(digits_value(digits) as int))
        } else {
            Some(digits_value(digits) as int)
        }
    } else {
        None
    }
}

/// How two byte strings compare: -1, 0 or 1 as the first is before, equal
/// to or after the second, byte by byte, a proper prefix before the longer
/// string.
pub open spec fn bytes_order(a: Seq<u8>, b: Seq<u8>) -> int
    decreases a.len(),
{
    if a.len() == 0 {
        if b.len() == 0 {
            0
        } else {
            -1
        }
    } else if b.len() == 0 {
        1
    } else if a[0] < b[0] {
        -1
    } else if a[0] > b[0] {
        1
    } else {
        bytes_order(a.skip(1), b.skip(1))
    }
}

/// The digits of a number are digits, and they spell the number.
pub proof fn lemma_digits_round_trip(n: nat)
    ensures
        decimal_digits(n).len() > 0,
        all_digits(decimal_digits(n)),
        digits_value(decimal_digits(n)) == n,
    decreases n,
{
    reveal_with_fuel(digits_value, 2);
    if n >= 10 {
        lemma_digits_round_trip(n / 10);
        assert(decimal_digits(n).drop_last() =~= decimal_digits(n / 10));
        assert(decimal_digits(n).last() == digit(n % 10));
    } else {
        assert(decimal_digits(n).drop_last() =~= Seq::<u8>::empty());
        assert(decimal_digits(n).last() == digit(n));
    }
}

/// Every integer is recovered from its decimal spelling.
pub proof fn lemma_decimal_round_trip(v: int)
    ensures
        parse_decimal(decimal_text(v)) == Some(v),
{
    if v < 0 {
        let digits = decimal_digits((-v) as nat);
        lemma_digits_round_trip((-v) as nat);
        assert(decimal_text(v).skip(1) =~= digits);
    } else {
        lemma_digits_round_trip(v as nat);
    }
}

/// A byte string compares equal to another exactly where the two are the same.
pub proof fn lemma_bytes_order_equal(a: Seq<u8>, b: Seq<u8>)
    ensures
        bytes_order(a, b) == 0 <==> a == b,
        -1 <= bytes_order(a, b) <= 1,
    decreases a.len(),
{
    if a.len() > 0 && b.len() > 0 {
        lemma_bytes_order_equal(a.skip(1), b.skip(1));
        if a[0] == b[0] {
            if a.skip(1) == b.skip(1) {
                assert(a =~= seq![a[0]] + a.skip(1));
                assert(b =~= seq![b[0]] + b.skip(1));
            }
        }
    } else if a.len() == 0 && b.len() == 0 {
        assert(a =~= b);
    }
}

/// The digits of a prefix spell no more than the digits of the whole.
proof fn lemma_digits_value_prefix(s: Seq<u8>, n: int)
    requires
        all_digits(s),
        0 <= n <= s.len(),
    ensures
        digits_value(s.take(n)) <= digits_value(s),
    decreases s.len() - n,
{
    if n < s.len() {
        lemma_digits_value_prefix(s, n + 1);
        assert(s.take(n + 1).drop_last() =~= s.take(n));
    } else {
        assert(s.take(n) =~= s);
    }
}

/// Writes the decimal spelling of a number, given as its sign and size.
pub fn format_decimal(negative: bool, magnitude: u64) -> (text: Vec<u8>)
    requires
        negative ==> magnitude > 0,
    ensures
        text@ == decimal_text(
            if negative {
                -(magnitude as int)
            } else {
                magnitude as int
            },
        ),
{
    let mut digits: Vec<u8> = Vec::new();
    let mut rest: u64 = magnitude;
    digits.push(48u8 + (rest % 10) as u8);
    rest = rest / 10;
    while rest > 0
        invariant
            decimal_digits(magnitude as nat) == (if rest > 0 {
                decimal_digits(rest as nat) + digits@
            } else {
                digits@
            }),
        decreases rest,
    {
        let ghost before = digits@;
        digits.insert(0, 48u8 + (rest % 10) as u8);
        proof {
            let d = digit((rest % 10) as nat);
            assert(digits@ =~= seq![d] + before);
            if rest >= 10 {
                assert(decimal_digits(rest as nat) + before =~= decimal_digits((rest / 10) as nat)
                    + digits@);
            } else {
                assert(decimal_digits(rest as nat) + before =~= digits@);
            }
        }
        rest = rest / 10;
    }
    if negative {
        let ghost before = digits@;
        digits.insert(0, 45u8);
        assert(digits@ =~= seq![45u8] + before);
    }
    digits
}

/// What a text holds, read as a decimal number.
#[derive(Clone, Copy, Debug, PartialEq, Eq, Structural)]
pub enum ParsedNumber {
    /// The text is no number.
    Invalid,
    /// The text is a number of more than `u64::MAX` in size.
    TooLarge,
    /// The number, as its sign and its size.
    Number { negative: bool, magnitude: u64 },
}

/// Reads a decimal number: an optional sign, then digits only.
pub fn parse_decimal_text(text: &[u8]) -> (parsed: ParsedNumber)
    ensures
        parse_decimal(text@) is None <==> parsed is Invalid,
        parse_decimal(text@) matches Some(v) ==> (if -(u64::MAX as int) <= v <= u64::MAX {
            parsed == (ParsedNumber::Number {
                negative: text@[0] == 45,
                magnitude: (if v < 0 {
                    -v
                } else {
                    v
                }) as u64,
            })
        } else {
            parsed is TooLarge
        }),
{
    let len: usize = text.len();
    if len == 0 {
        return ParsedNumber::Invalid;
    }
    let signed: bool = text[0] == 45u8 || text[0] == 43u8;
    let negative: bool = text[0] == 45u8;
    let start: usize = if signed {
        1
    } else {
        0
    };
    if start == len {
        return ParsedNumber::Invalid;
    }
    let ghost digits = unsigned_part(text@);
    proof {
        assert(digits =~= text@.skip(start as int));
    }
    let mut i: usize = start;
    while i < len
        invariant
            start <= i <= len,
            len == text@.len(),
            digits == text@.skip(start as int),
            digits == unsigned_part(text@),
            forall|k: int| 0 <= k < i - start ==> 48 <= #[trigger] digits[k] <= 57,
        decreases len - i,
    {
        if text[i] < 48u8 || text[i] > 57u8 {
            proof {
                assert(digits[i - start] == text@[i as int]);
                assert(!all_digits(digits));
            }
            return ParsedNumber::Invalid;
        }
        proof {
            assert(digits[i - start] == text@[i as int]);
        }
        i += 1;
    }
    assert(all_digits(digits));
    let mut value: u64 = 0;
    let mut j: usize = start;
    while j < len
        invariant
            start <= j <= len,
            len == text@.len(),
            digits == text@.skip(start as int),
            digits == unsigned_part(text@),
            all_digits(digits),
            value == digits_value(digits.take(j - start)),
        decreases len - j,
    {
        proof {
            assert(digits[j - start] == text@[j as int]);
            assert(digits.take(j - start + 1).drop_last() =~= digits.take(j - start));
            assert(digits.take(j - start + 1).last() == text@[j as int]);
            lemma_digits_value_prefix(digits, j - start + 1);
        }
        let d: u64 = (text[j] - 48u8) as u64;
        if value > (u64::MAX - d) / 10 {
            return ParsedNumber::TooLarge;
        }
        value = value * 10 + d;
        j += 1;
    }
    proof {
        assert(digits.take(len - start) =~= digits);
    }
    ParsedNumber::Number { negative, magnitude: value }
}

/// Compares two byte strings; the result is -1, 0 or 1.
pub fn compare_bytes(a: &[u8], b: &[u8]) -> (order: i8)
    ensures
        order == bytes_order(a@, b@),
{
    let alen: usize = a.len();
    let blen: usize = b.len();
    let mut i: usize = 0;
    proof {
        assert(a@.skip(0) =~= a@);
        assert(b@.skip(0) =~= b@);
    }
    while i < alen && i < blen
        invariant
            i <= alen,
            i <= blen,
            alen == a@.len(),
            blen == b@.len(),
            bytes_order(a@, b@) == bytes_order(a@.skip(i as int), b@.skip(i as int)),
        decreases alen - i,
    {
        proof {
            assert(a@.skip(i as int).skip(1) =~= a@.skip(i + 1));
            assert(b@.skip(i as int).skip(1) =~= b@.skip(i + 1));
        }
        if a[i] < b[i] {
            return -1;
        }
        if a[i] > b[i] {
            return 1;
        }
        i += 1;
    }
    if alen == blen {
        0
    } else if i == alen {
        -1
    } else {
        1
    }
}

/// `String::from_utf8_lossy`, made an owned string: bytes that are valid
/// UTF-8 become the string that they encode. Of other bytes, which the
/// function replaces, the contract says nothing.
#[verifier::external_body]
pub(crate) fn string_from_text(text: &[u8]) -> (s: String)
    ensures
        valid_utf8(text@) ==> s@ == decode_utf8(text@),
{
    String::from_utf8_lossy(text).into_owned()
}

} // verus!
