//! Digits in a radix between 2 and 36, and the integer types that the
//! `strto*` family converts digit strings into.

use vstd::prelude::*;

verus! {

/// The value of an ASCII alphanumeric digit (`0-9`, then `a-z` or `A-Z` from
/// ten on); 36 for any other byte, which is a digit in no radix.
pub open spec fn digit_value(c: u8) -> int {
    if 0x30 <= c <= 0x39 {
        c - 0x30
    } else if 0x61 <= c <= 0x7a {
        c - 0x61 + 10
    } else if 0x41 <= c <= 0x5a {
        c - 0x41 + 10
    } else {
        36
    }
}

/// Whether `c` is a digit in radix `base`.
pub open spec fn is_digit_in(c: u8, base: int) -> bool {
    digit_value(c) < base
}

/// Whether every byte of `digits` is a digit in radix `base`.
pub open spec fn all_digits(digits: Seq<u8>, base: int) -> bool {
    forall|i: int| 0 <= i < digits.len() ==> #[trigger] is_digit_in(digits[i], base)
}

/// The number that a digit string denotes in radix `base`, most significant
/// digit first.
pub open spec fn digits_value(digits: Seq<u8>, base: int) -> int
    decreases digits.len(),
{
    if digits.len() == 0 {
        0
    } else {
        digits_value(digits.drop_last(), base) * base + digit_value(digits.last())
    }
}

/// Whether a byte is a digit in radix `base` (`char::is_digit` on the byte
/// read as a character).
pub fn is_digit(c: u8, base: u32) -> (r: bool)
    requires
        2 <= base <= 36,
    ensures
        r == is_digit_in(c, base as int),
{
    let v: u32 = if 0x30 <= c && c <= 0x39 {
        (c - 0x30) as u32
    } else if 0x61 <= c && c <= 0x7a {
        (c - 0x61) as u32 + 10
    } else if 0x41 <= c && c <= 0x5a {
        (c - 0x41) as u32 + 10
    } else {
        36
    };
    v < base
}

/// The value of a byte known to be a digit in radix `base`.
fn digit_of(c: u8, base: u32) -> (r: u64)
    requires
        2 <= base <= 36,
        is_digit_in(c, base as int),
    ensures
        r == digit_value(c),
        r < base,
{
    if 0x30 <= c && c <= 0x39 {
        (c - 0x30) as u64
    } else if 0x61 <= c && c <= 0x7a {
        (c - 0x61) as u64 + 10
    } else {
        (c - 0x41) as u64 + 10
    }
}

proof fn lemma_digit_value_nonneg(c: u8)
    ensures
        0 <= digit_value(c) <= 36,
{
}

/// A digit string's value is never below that of any of its prefixes.
proof fn lemma_digits_value_prefix_le(digits: Seq<u8>, base: int, n: int)
    requires
        base >= 1,
        0 <= n <= digits.len(),
    ensures
        0 <= digits_value(digits.take(n), base) <= digits_value(digits, base),
    decreases digits.len() - n,
{
    if n == digits.len() {
        assert(digits.take(n) =~= digits);
        lemma_digits_value_nonneg(digits, base);
    } else {
        lemma_digits_value_prefix_le(digits, base, n + 1);
        let p = digits.take(n + 1);
        assert(p.drop_last() =~= digits.take(n));
        let v = digits_value(digits.take(n), base);
        lemma_digits_value_nonneg(digits.take(n), base);
        lemma_digit_value_nonneg(p.last());
        assert(v * base >= v) by (nonlinear_arith)
            requires
                v >= 0,
                base >= 1,
        ;
    }
}

proof fn lemma_digits_value_nonneg(digits: Seq<u8>, base: int)
    requires
        base >= 1,
    ensures
        digits_value(digits, base) >= 0,
    decreases digits.len(),
{
    if digits.len() > 0 {
        lemma_digits_value_nonneg(digits.drop_last(), base);
        lemma_digit_value_nonneg(digits.last());
        let v = digits_value(digits.drop_last(), base);
        assert(v * base >= 0) by (nonlinear_arith)
            requires
                v >= 0,
                base >= 1,
        ;
    }
}

/// The value of a digit string in radix `base` if it is at most `limit`;
/// `None` where it exceeds `limit`.
pub fn digits_value_up_to(digits: &[u8], base: u32, limit: u64) -> (r: Option<u64>)
    requires
        2 <= base <= 36,
        all_digits(digits@, base as int),
    ensures
        match r {
            Some(v) => v == digits_value(digits@, base as int) && v <= limit,
            None => digits_value(digits@, base as int) > limit,
        },
{
    let mut acc: u64 = 0;
    let mut i: usize = 0;
    while i < digits.len()
        invariant
            2 <= base <= 36,
            all_digits(digits@, base as int),
            i <= digits.len(),
            acc == digits_value(digits@.take(i as int), base as int),
            acc <= limit,
        decreases digits.len() - i,
    {
        let d = digit_of(digits[i], base);
        proof {
            assert(is_digit_in(digits@[i as int], base as int));
            let p = digits@.take(i + 1);
            assert(p.drop_last() =~= digits@.take(i as int));
            assert(p.last() == digits@[i as int]);
        }
        let next = match acc.checked_mul(base as u64) {
            Some(m) => m.checked_add(d),
            None => None,
        };
        match next {
            Some(n) if n <= limit => {
                acc = n;
                i = i + 1;
            },
            _ => {
                proof {
                    lemma_digits_value_prefix_le(digits@, base as int, i + 1);
                    assert(acc * base + d > limit) by (nonlinear_arith)
                        requires
                            acc * base > u64::MAX || acc * base + d > u64::MAX || acc
                                * base + d > limit,
                            limit <= u64::MAX,
                    ;
                }
                return None;
            },
        }
    }
    proof {
        assert(digits@.take(i as int) =~= digits@);
    }
    Some(acc)
}

/// An integer type that digit strings convert into: a radix conversion
/// that falls back to a fixed value where the digits do not fit, a
/// negation, and a zero.
pub trait RadixInteger: Sized {
    /// The value that a digit string converts into.
    spec fn spec_from_radix(digits: Seq<u8>, base: u32) -> Self;

    /// The value of a negation.
    spec fn spec_negate(self) -> Self;

    /// The zero of the type.
    spec fn spec_zero() -> Self;

    /// Converts a digit string in radix `base`.
    fn from_radix(digits: &[u8], base: u32) -> (r: Self)
        requires
            2 <= base <= 36,
            all_digits(digits@, base as int),
        ensures
            r == Self::spec_from_radix(digits@, base),
    ;

    /// Negates a value.
    fn negate(self) -> (r: Self)
        ensures
            r == self.spec_negate(),
    ;

    /// The zero of the type.
    fn zero() -> (r: Self)
        ensures
            r == Self::spec_zero(),
    ;
}

/// `strtol`'s conversion: `i32::from_str_radix`, saturating at `i32::MAX`
/// on overflow or an empty digit string; negation saturates at `i32::MIN`.
impl RadixInteger for i32 {
    open spec fn spec_from_radix(digits: Seq<u8>, base: u32) -> i32 {
        if digits.len() > 0 && digits_value(digits, base as int) <= i32::MAX {
            digits_value(digits, base as int) as i32
        } else {
            i32::MAX
        }
    }

    open spec fn spec_negate(self) -> i32 {
        if self == i32::MIN {
            i32::MIN
        } else {
            (-self) as i32
        }
    }

    open spec fn spec_zero() -> i32 {
        0
    }

    fn from_radix(digits: &[u8], base: u32) -> (r: i32) {
        if digits.len() == 0 {
            return i32::MAX;
        }
        match digits_value_up_to(digits, base, 0x7fff_ffffu64) {
            Some(v) => v as i32,
            None => i32::MAX,
        }
    }

    fn negate(self) -> (r: i32) {
        if self == i32::MIN {
            i32::MIN
        } else {
            -self
        }
    }

    fn zero() -> (r: i32) {
        0
    }
}

/// `strtoul`'s conversion: `u32::from_str_radix`, saturating at `u32::MAX`
/// on overflow or an empty digit string; negation wraps.
impl RadixInteger for u32 {
    open spec fn spec_from_radix(digits: Seq<u8>, base: u32) -> u32 {
        if digits.len() > 0 && digits_value(digits, base as int) <= u32::MAX {
            digits_value(digits, base as int) as u32
        } else {
            u32::MAX
        }
    }

    open spec fn spec_negate(self) -> u32 {
        if self == 0 {
            0
        } else {
            (0x1_0000_0000 - self) as u32
        }
    }

    open spec fn spec_zero() -> u32 {
        0
    }

    fn from_radix(digits: &[u8], base: u32) -> (r: u32) {
        if digits.len() == 0 {
            return u32::MAX;
        }
        match digits_value_up_to(digits, base, 0xffff_ffffu64) {
            Some(v) => v as u32,
            None => u32::MAX,
        }
    }

    fn negate(self) -> (r: u32) {
        if self == 0 {
            0
        } else {
            u32::MAX - self + 1
        }
    }

    fn zero() -> (r: u32) {
        0
    }
}

/// `strtoull`'s conversion: `u64::from_str_radix`, saturating at `u64::MAX`
/// on overflow or an empty digit string; negation wraps.
impl RadixInteger for u64 {
    open spec fn spec_from_radix(digits: Seq<u8>, base: u32) -> u64 {
        if digits.len() > 0 && digits_value(digits, base as int) <= u64::MAX {
            digits_value(digits, base as int) as u64
        } else {
            u64::MAX
        }
    }

    open spec fn spec_negate(self) -> u64 {
        if self == 0 {
            0
        } else {
            (0x1_0000_0000_0000_0000 - self) as u64
        }
    }

    open spec fn spec_zero() -> u64 {
        0
    }

    fn from_radix(digits: &[u8], base: u32) -> (r: u64) {
        if digits.len() == 0 {
            return u64::MAX;
        }
        match digits_value_up_to(digits, base, u64::MAX) {
            Some(v) => v,
            None => u64::MAX,
        }
    }

    fn negate(self) -> (r: u64) {
        if self == 0 {
            0
        } else {
            u64::MAX - self + 1
        }
    }

    fn zero() -> (r: u64) {
        0
    }
}

} // verus!
