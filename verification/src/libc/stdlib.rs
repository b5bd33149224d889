//! `stdlib.h`: the pseudo-random generators, number parsing, environment
//! variables and the other host-side logic of the C standard library.

use vstd::prelude::*;
use crate::bytes::{cstr_len, cstr_prefix, is_valid_utf8, strlen};
use crate::libc::stdlib::env_vars::EINVAL;
use crate::libc::stdlib::radix::{RadixInteger, all_digits, is_digit_in};
use crate::libc::stdlib::scan::{
    IntScanModel, int_scan, scan_int, digit_run, ws_run, is_c_space, next_pos, int_scan_whitespace,
    int_scan_sign, int_scan_base,
};

pub mod bsearch;
pub mod env_vars;
pub mod multibyte;
pub mod radix;
pub mod scan;
pub mod system;

verus! {


/// What an integer conversion of the subject from `offset` on gives: the
/// value and the number of bytes consumed (white space included), or
/// `Err` where no number was found. A literal that consists of an octal
/// `0` prefix alone converts to zero.
pub open spec fn spec_str_to_int<Q: RadixInteger>(s: Seq<u8>, offset: int, base: int, max: int) -> Result<(Q, u32), ()> {
    let m = int_scan(s, offset, base, max);
    if m.len - m.prefix_length > 0 {
        let v = Q::spec_from_radix(s.subrange(m.digits_start, m.digits_start + m.digits_len), m.base as u32);
        Ok((if m.negative { v.spec_negate() } else { v }, (m.whitespace_len + m.len) as u32))
    } else if m.base == 8 && m.prefix_length > 0 {
        Ok((Q::spec_zero(), (m.whitespace_len + m.prefix_length) as u32))
    } else {
        Err(())
    }
}

/// Whether a base is one that the `strto*` functions accept: 0 (detect it
/// from the prefix) or 2 to 36.
pub open spec fn valid_base(base: int) -> bool {
    base == 0 || 2 <= base <= 36
}

/// Whether a scan of the subject settles on a radix: it does unless radix
/// detection was asked for and the subject ended (or the length limit cut
/// it) before the radix could be seen.
pub open spec fn base_settles(s: Seq<u8>, offset: int, base: int, max: int) -> bool {
    2 <= int_scan(s, offset, base, max).base <= 36
}

/// Whether the subject holds a NUL byte at or after `offset`, as a C string
/// does.
pub open spec fn nul_terminated_from(s: Seq<u8>, offset: int) -> bool {
    exists|j: int| offset <= j < s.len() && s[j] == 0
}

proof fn lemma_digit_run_elem(s: Seq<u8>, q: int, base: int, i: int)
    requires
        0 <= i < digit_run(s, q, base),
    ensures
        0 <= q,
        q + i < s.len(),
        is_digit_in(s[q + i], base),
    decreases i,
{
    if i > 0 {
        lemma_digit_run_elem(s, q + 1, base, i - 1);
    }
}

proof fn lemma_digits_in_run(s: Seq<u8>, q: int, base: int, k: int)
    requires
        0 <= k <= digit_run(s, q, base),
        0 <= q,
        q + k <= s.len(),
    ensures
        all_digits(s.subrange(q, q + k), base),
{
    if k > 0 {
        lemma_digit_run_elem(s, q, base, 0);
        lemma_digit_run_elem(s, q, base, k - 1);
        assert forall|i: int| 0 <= i < k implies #[trigger] is_digit_in(s.subrange(q, q + k)[i], base) by {
            lemma_digit_run_elem(s, q, base, i);
        }
    }
}

proof fn lemma_ws_stops_before_nul(s: Seq<u8>, i: int, j: int)
    requires
        0 <= i <= j < s.len(),
        s[j] == 0,
    ensures
        i + ws_run(s, i) <= j,
    decreases j - i,
{
    if i < j && is_c_space(s[i]) {
        lemma_ws_stops_before_nul(s, i + 1, j);
    }
}

/// In a NUL-terminated subject, radix detection always settles (unless a
/// length limit of one byte cuts the scan after a sign).
pub proof fn lemma_base_settles_in_c_string(s: Seq<u8>, offset: int, base: int, max: int)
    requires
        0 <= offset,
        valid_base(base),
        nul_terminated_from(s, offset),
        max != 1,
    ensures
        base_settles(s, offset, base, max),
{
    let j = choose|j: int| offset <= j < s.len() && s[j] == 0;
    lemma_ws_stops_before_nul(s, offset, j);
    let m0 = int_scan_whitespace(s, offset, base);
    let m1 = int_scan_sign(s, offset, max, m0);
    assert(!m0.stopped);
    assert(!m1.stopped);
    assert(next_pos(offset, m1) <= j);
    if base == 0 {
        let q = next_pos(offset, m1);
        if s[q] == 0x30 {
            assert(q + 1 <= j);
        }
    }
}

proof fn lemma_digit_run_of_digits(s: Seq<u8>, q: int, n: int, base: int)
    requires
        0 <= q,
        0 <= n,
        q + n < s.len(),
        forall|i: int| q <= i < q + n ==> is_digit_in(#[trigger] s[i], base),
        !is_digit_in(s[q + n], base),
    ensures
        digit_run(s, q, base) == n,
    decreases n,
{
    if n > 0 {
        lemma_digit_run_of_digits(s, q + 1, n - 1, base);
    }
}

/// A run of digits (optionally after a `-`), ended by a byte that is no
/// digit, converts to the value of the digits (negated after a `-`), and
/// the end pointer lands just after the last digit. In radix 8 and 16 a
/// leading `0` is read as a radix prefix, so there the digits must not
/// start with one.
pub proof fn lemma_str_to_int_reads_digits<Q: RadixInteger>(
    negative: bool,
    digits: Seq<u8>,
    rest: Seq<u8>,
    base: int,
)
    requires
        2 <= base <= 36,
        digits.len() >= 1,
        base == 8 || base == 16 ==> digits[0] != 0x30,
        all_digits(digits, base),
        rest.len() >= 1,
        !is_digit_in(rest[0], base),
        digits.len() + 2 < u32::MAX,
    ensures
        ({
            let s = if negative { seq![0x2du8] + digits + rest } else { digits + rest };
            let v = Q::spec_from_radix(digits, base as u32);
            spec_str_to_int::<Q>(s, 0, base, u32::MAX as int) == Ok::<(Q, u32), ()>(
                (
                    if negative { v.spec_negate() } else { v },
                    (digits.len() + if negative { 1int } else { 0int }) as u32,
                ),
            )
        }),
{
    let s = if negative { seq![0x2du8] + digits + rest } else { digits + rest };
    let q: int = if negative { 1 } else { 0 };
    let n = digits.len() as int;
    assert forall|i: int| q <= i < q + n implies is_digit_in(#[trigger] s[i], base) by {
        assert(s[i] == digits[i - q]);
        assert(is_digit_in(digits[i - q], base));
    }
    assert(s[q + n] == rest[0]);
    lemma_digit_run_of_digits(s, q, n, base);
    assert(is_digit_in(digits[0], base));
    assert(!is_c_space(s[0]));
    assert(ws_run(s, 0) == 0);
    let m0 = int_scan_whitespace(s, 0, base);
    let m1 = int_scan_sign(s, 0, u32::MAX as int, m0);
    assert(m1.len == q && !m1.stopped && m1.prefix_length == q);
    let m2 = int_scan_base(s, 0, m1);
    assert(m2 == m1);
    let m = int_scan(s, 0, base, u32::MAX as int);
    assert(m.digits_start == q && m.digits_len == n);
    assert(s.subrange(q, q + n) =~= digits);
}

/// `str_to_int_inner_generic`: converts the integer literal at the start of
/// the subject (after white space): an optional sign, a radix prefix (`0`
/// for radix 8, `0x`/`0X` for radix 16, detected where `base` is 0), then
/// digits. At most `max_length` bytes after the white space are consumed
/// (0 means no limit). The digits convert through `Q`, and a `-` negates
/// the result.
pub fn str_to_int_inner_generic<Q: RadixInteger>(
    subject: &[u8],
    offset: usize,
    base: u32,
    max_length: u32,
) -> (r: Result<(Q, u32), ()>)
    requires
        subject.len() < u32::MAX,
        valid_base(base as int),
        base_settles(subject@, offset as int, base as int, max_length as int),
    ensures
        r == spec_str_to_int::<Q>(subject@, offset as int, base as int, max_length as int),
{
    let scan = scan_int(subject, offset, base, max_length);
    let ghost m = scan.model();
    let magnitude_len = scan.len - scan.prefix_length;
    if magnitude_len > 0 {
        let digits = &subject[scan.digits_start..scan.digits_start + scan.digits_len];
        proof {
            lemma_digits_in_run(subject@, m.digits_start, m.base, m.digits_len);
        }
        let mut res = Q::from_radix(digits, scan.base);
        if scan.negative {
            res = res.negate();
        }
        Ok((res, scan.whitespace_len + scan.len))
    } else if scan.base == 8 && scan.prefix_length > 0 {
        Ok((Q::zero(), scan.whitespace_len + scan.prefix_length))
    } else {
        Err(())
    }
}

/// `strtol_inner`: converts a decimal, octal or hexadecimal `i32` literal
/// (radix 0 detects it), saturating at `i32::MAX`/`i32::MIN`.
pub fn strtol_inner(s: &[u8], base: u32) -> (r: Result<(i32, u32), ()>)
    requires
        s.len() < u32::MAX,
        valid_base(base as int),
        base_settles(s@, 0, base as int, u32::MAX as int),
    ensures
        r == spec_str_to_int::<i32>(s@, 0, base as int, u32::MAX as int),
{
    str_to_int_inner_generic::<i32>(s, 0, base, u32::MAX)
}

/// A radix other than 0 stays what it is through a scan.
pub proof fn lemma_explicit_base_settles(s: Seq<u8>, offset: int, base: int, max: int)
    requires
        2 <= base <= 36,
    ensures
        base_settles(s, offset, base, max),
        int_scan(s, offset, base, max).base == base,
{
}

/// What `strtol`, `strtoul` and `strtoull` report: the converted value and
/// how many bytes the end pointer moves past; where no number is found, 0
/// and no move.
pub open spec fn strto_outcome<Q: RadixInteger>(r: Result<(Q, u32), ()>) -> (Q, u32) {
    match r {
        Ok((v, len)) => (v, len),
        Err(_) => (Q::spec_zero(), 0),
    }
}

/// `atoi`: the decimal `i32` at the start of a string, 0 where there is
/// none. `errno` is cleared.
pub fn atoi(s: &[u8], errno: &mut i32) -> (r: i32)
    requires
        s.len() < u32::MAX,
    ensures
        r == strto_outcome(spec_str_to_int::<i32>(s@, 0, 10, u32::MAX as int)).0,
        *final(errno) == 0,
{
    *errno = 0;
    proof {
        lemma_explicit_base_settles(s@, 0, 10, u32::MAX as int);
    }
    match strtol_inner(s, 10) {
        Ok((res, _)) => res,
        Err(_) => 0,
    }
}

/// `atol`: as `atoi` (`long` is 32 bits wide on the guest).
pub fn atol(s: &[u8], errno: &mut i32) -> (r: i32)
    requires
        s.len() < u32::MAX,
    ensures
        r == strto_outcome(spec_str_to_int::<i32>(s@, 0, 10, u32::MAX as int)).0,
        *final(errno) == 0,
{
    atoi(s, errno)
}

/// `strtol`: the `i32` at the start of a string in radix `base`, and the
/// offset that the end pointer is set to. `errno` is cleared.
pub fn strtol(s: &[u8], base: i32, errno: &mut i32) -> (r: (i32, u32))
    requires
        s.len() < u32::MAX,
        valid_base(base as int),
        base_settles(s@, 0, base as int, u32::MAX as int),
    ensures
        r == strto_outcome(spec_str_to_int::<i32>(s@, 0, base as int, u32::MAX as int)),
        *final(errno) == 0,
{
    *errno = 0;
    match strtol_inner(s, base as u32) {
        Ok((res, len)) => (res, len),
        Err(_) => (0, 0),
    }
}

/// `strtoul`: the `u32` at the start of a string in radix `base` (a `-`
/// negates it modulo 2^32; overflow saturates at `u32::MAX`), and the offset
/// that the end pointer is set to. `errno` is cleared.
pub fn strtoul(s: &[u8], base: i32, errno: &mut i32) -> (r: (u32, u32))
    requires
        s.len() < u32::MAX,
        valid_base(base as int),
        base_settles(s@, 0, base as int, u32::MAX as int),
    ensures
        r == strto_outcome(spec_str_to_int::<u32>(s@, 0, base as int, u32::MAX as int)),
        *final(errno) == 0,
{
    *errno = 0;
    match str_to_int_inner_generic::<u32>(s, 0, base as u32, u32::MAX) {
        Ok((res, len)) => (res, len),
        Err(_) => (0, 0),
    }
}

/// `strtoull`: the `u64` at the start of a string in radix `base` (a `-`
/// negates it modulo 2^64; overflow saturates at `u64::MAX`), and the offset
/// that the end pointer is set to. `errno` is cleared.
pub fn strtoull(s: &[u8], base: i32, errno: &mut i32) -> (r: (u64, u32))
    requires
        s.len() < u32::MAX,
        valid_base(base as int),
        base_settles(s@, 0, base as int, u32::MAX as int),
    ensures
        r == strto_outcome(spec_str_to_int::<u64>(s@, 0, base as int, u32::MAX as int)),
        *final(errno) == 0,
{
    *errno = 0;
    match str_to_int_inner_generic::<u64>(s, 0, base as u32, u32::MAX) {
        Ok((res, len)) => (res, len),
        Err(_) => (0, 0),
    }
}

/// The size that `malloc` asks the guest heap for: a request for zero bytes
/// is served as one for a single byte.
pub open spec fn alloc_size(size: u32) -> u32 {
    if size == 0 {
        1
    } else {
        size
    }
}

/// Every allocation asks for at least one byte, and for exactly the size
/// requested when that is not zero.
pub proof fn lemma_alloc_size(size: u32)
    ensures
        alloc_size(size) >= 1,
        size > 0 ==> alloc_size(size) == size,
        size == 0 ==> alloc_size(size) == 1,
{
}

/// `malloc`: the size to allocate. `errno` is cleared.
pub fn malloc(size: u32, errno: &mut i32) -> (r: u32)
    ensures
        r == alloc_size(size),
        *final(errno) == 0,
{
    *errno = 0;
    if size == 0 {
        1
    } else {
        size
    }
}

/// `NSZoneMalloc`: the size to allocate (the zone is ignored).
#[allow(non_snake_case)]
pub fn NSZoneMalloc(size: u32) -> (r: u32)
    ensures
        r == alloc_size(size),
{
    if size == 0 {
        1
    } else {
        size
    }
}

/// `calloc`: the size of the zeroed block to allocate for `count` items of
/// `size` bytes. `errno` is cleared.
pub fn calloc(count: u32, size: u32, errno: &mut i32) -> (r: u32)
    requires
        count * size <= u32::MAX,
    ensures
        r == alloc_size((count * size) as u32),
        *final(errno) == 0,
{
    let total = size * count;
    malloc(total, errno)
}

/// What `realloc` does with the guest heap.
#[derive(Clone, Copy, Debug, PartialEq, Eq, Structural)]
pub enum ReallocPlan {
    /// Allocate a new block of this size (the pointer was null).
    Allocate(u32),
    /// Resize the block to this size.
    Resize(u32),
}

/// `realloc`: a null pointer allocates afresh; any other block is resized
/// (a zero size to one byte). `errno` is cleared.
pub fn realloc(ptr_is_null: bool, size: u32, errno: &mut i32) -> (r: ReallocPlan)
    ensures
        r == (if ptr_is_null {
            ReallocPlan::Allocate(alloc_size(size))
        } else {
            ReallocPlan::Resize(alloc_size(size))
        }),
        *final(errno) == 0,
{
    if ptr_is_null {
        return ReallocPlan::Allocate(malloc(size, errno));
    }
    ReallocPlan::Resize(malloc(size, errno))
}

/// `NSZoneRealloc`: the size to resize to (the zone is ignored).
#[allow(non_snake_case)]
pub fn NSZoneRealloc(size: u32) -> (r: u32)
    ensures
        r == alloc_size(size),
{
    NSZoneMalloc(size)
}

/// `reallocf`: as `realloc`, and once the resize has been tried, whether
/// the old block must be freed: exactly when resizing failed. `errno` is
/// cleared.
pub fn reallocf(ptr_is_null: bool, size: u32, errno: &mut i32) -> (r: ReallocPlan)
    ensures
        r == (if ptr_is_null {
            ReallocPlan::Allocate(alloc_size(size))
        } else {
            ReallocPlan::Resize(alloc_size(size))
        }),
        *final(errno) == 0,
{
    realloc(ptr_is_null, size, errno)
}

/// After `reallocf` resized a block: the old block is freed where the
/// resize returned null.
pub fn reallocf_frees_old(new_ptr_is_null: bool) -> (r: bool)
    ensures
        r == new_ptr_is_null,
{
    new_ptr_is_null
}

/// What `free` does with a pointer.
#[derive(Clone, Copy, Debug, PartialEq, Eq, Structural)]
pub enum FreePlan {
    /// The pointer is an Objective-C object: it is deallocated as one.
    DeallocObject,
    /// A null pointer: nothing happens.
    Nothing,
    /// The block is returned to the guest heap.
    Free,
}

/// `free`: objects are deallocated as objects (leaving `errno` alone), null
/// is ignored, any other block is freed; but for objects, `errno` is
/// cleared.
pub fn free(is_object: bool, ptr_is_null: bool, errno: &mut i32) -> (r: FreePlan)
    ensures
        r == (if is_object {
            FreePlan::DeallocObject
        } else if ptr_is_null {
            FreePlan::Nothing
        } else {
            FreePlan::Free
        }),
        *final(errno) == (if is_object { *old(errno) } else { 0 }),
{
    if is_object {
        return FreePlan::DeallocObject;
    }
    *errno = 0;
    if ptr_is_null {
        return FreePlan::Nothing;
    }
    FreePlan::Free
}

/// The result of `div`.
#[derive(Clone, Copy, Debug, PartialEq, Eq, Structural)]
#[allow(non_camel_case_types)]
pub struct div_t {
    pub quot: i32,
    pub rem: i32,
}

/// Division that rounds toward zero, as C's `/` does.
pub open spec fn trunc_div(n: int, d: int) -> int {
    let q = (if n >= 0 { n } else { -n }) / (if d >= 0 { d } else { -d });
    if (n >= 0) == (d > 0) {
        q
    } else {
        -q
    }
}

/// The remainder of division that rounds toward zero: the sign of the
/// dividend, the magnitude of the remainder of the magnitudes.
pub open spec fn trunc_rem(n: int, d: int) -> int {
    let r = (if n >= 0 { n } else { -n }) % (if d >= 0 { d } else { -d });
    if n >= 0 {
        r
    } else {
        -r
    }
}

/// `div`: the quotient (rounded toward zero) and remainder, wrapping for
/// `i32::MIN / -1`.
pub fn div(numer: i32, denom: i32) -> (r: div_t)
    requires
        denom != 0,
    ensures
        numer == i32::MIN && denom == -1 ==> r.quot == i32::MIN && r.rem == 0,
        !(numer == i32::MIN && denom == -1) ==> r.quot == trunc_div(numer as int, denom as int)
            && r.rem == trunc_rem(numer as int, denom as int),
{
    if numer == i32::MIN && denom == -1 {
        return div_t { quot: i32::MIN, rem: 0 };
    }
    let n = numer as i64;
    let d = denom as i64;
    let an: i64 = if n >= 0 { n } else { -n };
    let ad: i64 = if d >= 0 { d } else { -d };
    let q: i64 = an / ad;
    let r0: i64 = an % ad;
    assert(q <= an) by (nonlinear_arith)
        requires
            q == an / ad,
            an >= 0,
            ad >= 1,
    ;
    assert((n >= 0) == (d > 0) ==> q <= 0x7fff_ffff) by {
        if (n >= 0) == (d > 0) && an == 0x8000_0000 {
            assert(ad >= 2) by {
                if ad == 1 {
                    assert(d == -1);
                }
            }
            assert(q <= 0x4000_0000) by (nonlinear_arith)
                requires
                    q == an / ad,
                    an == 0x8000_0000,
                    ad >= 2,
            ;
        }
    }
    let quot: i64 = if (n >= 0) == (d > 0) { q } else { -q };
    let rem: i64 = if n >= 0 { r0 } else { -r0 };
    assert(0 <= r0 < ad);
    div_t { quot: quot as i32, rem: rem as i32 }
}

/// Division that rounds toward zero gives back the dividend: the quotient
/// times the divisor plus the remainder is the dividend, and the remainder
/// is smaller than the divisor in magnitude and has the dividend's sign.
pub proof fn lemma_div_reconstructs(n: int, d: int)
    requires
        d != 0,
    ensures
        trunc_div(n, d) * d + trunc_rem(n, d) == n,
        n >= 0 ==> 0 <= trunc_rem(n, d) < (if d >= 0 { d } else { -d }),
        n < 0 ==> 0 <= -trunc_rem(n, d) < (if d >= 0 { d } else { -d }),
{
    let an = if n >= 0 { n } else { -n };
    let ad = if d >= 0 { d } else { -d };
    let q = an / ad;
    let r = an % ad;
    assert(an == q * ad + r && 0 <= r < ad) by (nonlinear_arith)
        requires
            an >= 0,
            ad > 0,
            q == an / ad,
            r == an % ad,
    ;
    if d < 0 {
        assert((-q) * d == q * ad && q * d == -(q * ad)) by (nonlinear_arith)
            requires
                ad == -d,
        ;
    } else {
        assert((-q) * d == -(q * ad)) by (nonlinear_arith)
            requires
                ad == d,
        ;
    }
}

/// The bytes of a string with its `.` characters removed.
pub open spec fn strip_dots(s: Seq<u8>) -> Seq<u8>
    decreases s.len(),
{
    if s.len() == 0 {
        s
    } else if s.last() == 0x2e {
        strip_dots(s.drop_last())
    } else {
        strip_dots(s.drop_last()).push(s.last())
    }
}

/// The position of the last `.` in a string, or -1.
pub open spec fn last_dot(s: Seq<u8>) -> int
    decreases s.len(),
{
    if s.len() == 0 {
        -1
    } else if s.last() == 0x2e {
        s.len() - 1
    } else {
        last_dot(s.drop_last())
    }
}

/// The digits and decimal point position that `_fcvt` reports for a number
/// formatted with a fixed number of fraction digits: the text without its
/// point, and the position of the point (the number of digits where there
/// is none); a single leading zero before the point is dropped.
pub open spec fn spec_fcvt_digits(formatted: Seq<u8>) -> (Seq<u8>, int) {
    let digits = strip_dots(formatted);
    let pos = if last_dot(formatted) >= 0 { last_dot(formatted) } else { digits.len() as int };
    if digits.len() > 1 && digits[0] == 0x30 && pos == 1 {
        (digits.drop_first(), 0)
    } else {
        (digits, pos)
    }
}

/// Whether a string holds no `.`.
pub open spec fn no_dot(s: Seq<u8>) -> bool {
    forall|i: int| 0 <= i < s.len() ==> s[i] != 0x2e
}

proof fn lemma_strip_dots_concat(a: Seq<u8>, b: Seq<u8>)
    ensures
        strip_dots(a + b) == strip_dots(a) + strip_dots(b),
    decreases b.len(),
{
    if b.len() == 0 {
        assert(a + b =~= a);
        assert(strip_dots(b) =~= Seq::<u8>::empty());
        assert(strip_dots(a) + strip_dots(b) =~= strip_dots(a));
    } else {
        lemma_strip_dots_concat(a, b.drop_last());
        assert((a + b).drop_last() =~= a + b.drop_last());
        assert((a + b).last() == b.last());
        if b.last() == 0x2e {
        } else {
            assert(strip_dots(a) + strip_dots(b.drop_last()).push(b.last()) =~= (strip_dots(a)
                + strip_dots(b.drop_last())).push(b.last()));
        }
    }
}

proof fn lemma_no_dot(s: Seq<u8>)
    requires
        no_dot(s),
    ensures
        strip_dots(s) == s,
        last_dot(s) == -1,
    decreases s.len(),
{
    if s.len() > 0 {
        lemma_no_dot(s.drop_last());
        assert(strip_dots(s.drop_last()).push(s.last()) =~= s);
    }
}

proof fn lemma_last_dot_suffix(a: Seq<u8>, b: Seq<u8>)
    requires
        no_dot(b),
    ensures
        last_dot(a + seq![0x2eu8] + b) == a.len(),
    decreases b.len(),
{
    let t = a + seq![0x2eu8] + b;
    if b.len() == 0 {
        assert(t.last() == 0x2e);
    } else {
        lemma_last_dot_suffix(a, b.drop_last());
        assert(t.drop_last() =~= a + seq![0x2eu8] + b.drop_last());
        assert(t.last() == b.last());
    }
}

/// `_fcvt` takes a formatted number apart: without a point, all of it is
/// digits and the point lies after them; with one point, the digits are
/// those on both sides and the point lies after the whole part, except
/// that a whole part of a single `0` before fraction digits is dropped and
/// the point then lies before the first digit.
pub proof fn lemma_fcvt_digits_split(whole: Seq<u8>, fraction: Option<Seq<u8>>)
    requires
        no_dot(whole),
        fraction matches Some(f) ==> no_dot(f),
    ensures
        match fraction {
            None => spec_fcvt_digits(whole) == (whole, whole.len() as int),
            Some(f) => spec_fcvt_digits(whole + seq![0x2eu8] + f) == (if whole == seq![0x30u8]
                && f.len() > 0 {
                (f, 0int)
            } else {
                (whole + f, whole.len() as int)
            }),
        },
{
    lemma_no_dot(whole);
    match fraction {
        None => {},
        Some(f) => {
            lemma_no_dot(f);
            let t = whole + seq![0x2eu8] + f;
            lemma_last_dot_suffix(whole, f);
            lemma_strip_dots_concat(whole + seq![0x2eu8], f);
            lemma_strip_dots_concat(whole, seq![0x2eu8]);
            let dot = seq![0x2eu8];
            assert(dot.drop_last() =~= Seq::<u8>::empty());
            assert(dot.last() == 0x2e);
            assert(strip_dots(Seq::<u8>::empty()) == Seq::<u8>::empty());
            assert(strip_dots(dot) == strip_dots(dot.drop_last()));
            assert(strip_dots(dot) =~= Seq::<u8>::empty());
            assert(strip_dots(t) =~= whole + f);
            if whole == seq![0x30u8] && f.len() > 0 {
                assert((whole + f).drop_first() =~= f);
            } else if (whole + f).len() > 1 && (whole + f)[0] == 0x30 && whole.len() == 1 {
                assert(whole =~= seq![0x30u8]);
            }
        },
    }
}

/// `_fcvt`'s digit extraction from the formatted absolute value.
pub fn fcvt_digits(formatted: &[u8]) -> (r: (Vec<u8>, i32))
    requires
        formatted.len() < i32::MAX,
    ensures
        (r.0@, r.1 as int) == spec_fcvt_digits(formatted@),
{
    let mut digits: Vec<u8> = Vec::new();
    let mut decimal_pos: i32 = formatted.len() as i32;
    let mut dot_found = false;
    let mut i: usize = 0;
    while i < formatted.len()
        invariant
            i <= formatted.len(),
            formatted.len() < i32::MAX,
            digits@ == strip_dots(formatted@.take(i as int)),
            digits@.len() <= i,
            dot_found == (last_dot(formatted@.take(i as int)) >= 0),
            dot_found ==> decimal_pos == last_dot(formatted@.take(i as int)),
            last_dot(formatted@.take(i as int)) < i,
        decreases formatted.len() - i,
    {
        let ghost t = formatted@.take(i + 1);
        assert(t.drop_last() =~= formatted@.take(i as int));
        assert(t.last() == formatted@[i as int]);
        if formatted[i] == 0x2e {
            decimal_pos = i as i32;
            dot_found = true;
        } else {
            digits.push(formatted[i]);
        }
        i = i + 1;
    }
    assert(formatted@.take(i as int) =~= formatted@);
    if !dot_found {
        decimal_pos = digits.len() as i32;
    }
    if digits.len() > 1 && digits[0] == 0x30 && decimal_pos == 1 {
        digits.remove(0);
        decimal_pos = decimal_pos - 1;
    }
    (digits, decimal_pos)
}

/// The path that `realpath` stores for the components of a resolved path:
/// a `/` before each component (a lone `/` for none), then a NUL.
pub open spec fn joined_path(components: Seq<Seq<u8>>) -> Seq<u8>
    decreases components.len(),
{
    if components.len() == 0 {
        seq![0x2fu8]
    } else if components.len() == 1 {
        seq![0x2fu8] + components[0]
    } else {
        joined_path(components.drop_last()) + seq![0x2fu8] + components.last()
    }
}

/// The path of no components is `/`; one component is preceded by a `/`;
/// and appending a component to a non-empty list appends a `/` and that
/// component. Every component is thus preceded by exactly one `/`, whatever
/// the number of components.
pub proof fn lemma_joined_path_appends(components: Seq<Seq<u8>>, c: Seq<u8>)
    ensures
        joined_path(Seq::empty()) == seq![0x2fu8],
        joined_path(seq![c]) == seq![0x2fu8] + c,
        components.len() >= 1 ==> joined_path(components.push(c)) == joined_path(components)
            + seq![0x2fu8] + c,
{
    assert(components.push(c).drop_last() =~= components);
    assert(components.push(c).last() == c);
    assert(seq![c].len() == 1 && seq![c][0] == c);
}

/// `realpath`: the bytes to store for a path resolved into `components`
/// (against the working directory), terminator included.
pub fn realpath(components: &Vec<Vec<u8>>) -> (r: Vec<u8>)
    ensures
        r@ == joined_path(components@.map_values(|c: Vec<u8>| c@)).push(0),
{
    let ghost comps = components@.map_values(|c: Vec<u8>| c@);
    let mut out: Vec<u8> = Vec::new();
    out.push(0x2f);
    let mut i: usize = 0;
    while i < components.len()
        invariant
            comps == components@.map_values(|c: Vec<u8>| c@),
            i <= components.len(),
            i == 0 ==> out@ == seq![0x2fu8],
            i > 0 ==> out@ == joined_path(comps.take(i as int)),
        decreases components.len() - i,
    {
        if i > 0 {
            out.push(0x2f);
        }
        let c = &components[i];
        let mut j: usize = 0;
        let ghost base = out@;
        while j < c.len()
            invariant
                j <= c.len(),
                out@ == base + c@.take(j as int),
            decreases c.len() - j,
        {
            out.push(c[j]);
            j = j + 1;
            assert(out@ =~= base + c@.take(j as int));
        }
        proof {
            assert(c@.take(j as int) =~= c@);
            let t = comps.take(i + 1);
            assert(t.drop_last() =~= comps.take(i as int));
            assert(t.last() == c@);
            if i == 0 {
                assert(t.len() == 1);
                assert(out@ =~= seq![0x2fu8] + t[0]);
            } else {
                assert(out@ =~= joined_path(comps.take(i as int)) + seq![0x2fu8] + t.last());
            }
        }
        i = i + 1;
    }
    proof {
        if i > 0 {
            assert(comps.take(i as int) =~= comps);
        } else {
            assert(comps.len() == 0);
        }
    }
    out.push(0);
    out
}

/// `putenv`: nothing is stored (there is no environment block); a null
/// string, or one that is not UTF-8, is refused with -1 and `errno` set to
/// `EINVAL`; any other is accepted with 0, leaving `errno` alone.
pub fn putenv(string: Option<&[u8]>, errno: &mut i32) -> (r: i32)
    ensures
        (r, *final(errno)) == (match string {
            None => (-1i32, EINVAL),
            Some(s) => if vstd::utf8::valid_utf8(cstr_prefix(s@)) {
                (0i32, *old(errno))
            } else {
                (-1i32, EINVAL)
            },
        }),
{
    match string {
        None => {
            *errno = EINVAL;
            -1
        },
        Some(s) => {
            let n = strlen(s);
            let text = &s[0..n];
            if is_valid_utf8(text) {
                0
            } else {
                *errno = EINVAL;
                -1
            }
        },
    }
}

/// The text that the assertion handlers print for a C string: `(null)` for
/// a null pointer, the string where it is UTF-8, `(invalid utf-8)`
/// otherwise.
pub open spec fn spec_read_cstr_safe(s: Option<Seq<u8>>) -> Seq<u8> {
    match s {
        None => seq![0x28u8, 0x6e, 0x75, 0x6c, 0x6c, 0x29],
        Some(s) => if vstd::utf8::valid_utf8(cstr_prefix(s)) {
            cstr_prefix(s)
        } else {
            seq![
                0x28u8, 0x69, 0x6e, 0x76, 0x61, 0x6c, 0x69, 0x64, 0x20, 0x75, 0x74, 0x66, 0x2d,
                0x38, 0x29,
            ]
        },
    }
}

/// `read_cstr_safe`: the text of a C string for diagnostics.
pub fn read_cstr_safe(s: Option<&[u8]>) -> (r: Vec<u8>)
    requires
        s matches Some(s) ==> cstr_len(s@) < s.len(),
    ensures
        r@ == spec_read_cstr_safe(
            match s {
                Some(s) => Some(s@),
                None => None,
            },
        ),
{
    match s {
        None => {
            let r = vec![0x28u8, 0x6e, 0x75, 0x6c, 0x6c, 0x29];
            assert(r@ =~= seq![0x28u8, 0x6e, 0x75, 0x6c, 0x6c, 0x29]);
            r
        },
        Some(s) => {
            let n = strlen(s);
            let text = &s[0..n];
            if is_valid_utf8(text) {
                crate::bytes::copy_bytes(text)
            } else {
                let r = vec![
                    0x28u8, 0x69, 0x6e, 0x76, 0x61, 0x6c, 0x69, 0x64, 0x20, 0x75, 0x74, 0x66, 0x2d,
                    0x38, 0x29,
                ];
                assert(r@ =~= seq![
                    0x28u8, 0x69, 0x6e, 0x76, 0x61, 0x6c, 0x69, 0x64, 0x20, 0x75, 0x74, 0x66, 0x2d,
                    0x38, 0x29,
                ]);
                r
            }
        },
    }
}

/// `ENOATTR`: the extended attribute does not exist.
pub const ENOATTR: i32 = 93;

/// `setxattr`: extended attributes are not stored; reports success.
pub fn setxattr() -> (r: i32)
    ensures
        r == 0,
{
    0
}

/// `fsetxattr`: as `setxattr`.
pub fn fsetxattr() -> (r: i32)
    ensures
        r == 0,
{
    0
}

/// `getxattr`: no attribute exists; -1 with `errno` set to `ENOATTR`.
pub fn getxattr(errno: &mut i32) -> (r: i32)
    ensures
        r == -1,
        *final(errno) == ENOATTR,
{
    *errno = ENOATTR;
    -1
}

/// `fgetxattr`: as `getxattr`.
pub fn fgetxattr(errno: &mut i32) -> (r: i32)
    ensures
        r == -1,
        *final(errno) == ENOATTR,
{
    *errno = ENOATTR;
    -1
}

/// `removexattr`: no attribute exists; -1 with `errno` set to `ENOATTR`.
pub fn removexattr(errno: &mut i32) -> (r: i32)
    ensures
        r == -1,
        *final(errno) == ENOATTR,
{
    *errno = ENOATTR;
    -1
}

/// `fremovexattr`: as `removexattr`.
pub fn fremovexattr(errno: &mut i32) -> (r: i32)
    ensures
        r == -1,
        *final(errno) == ENOATTR,
{
    *errno = ENOATTR;
    -1
}

/// `listxattr`: the list is empty. Returns 0 and whether an empty list (a
/// single NUL) is stored in the name buffer: where there is one of nonzero
/// size.
pub fn listxattr(namebuf_is_null: bool, size: u32) -> (r: (i32, bool))
    ensures
        r == (0i32, !namebuf_is_null && size > 0),
{
    (0, !namebuf_is_null && size > 0)
}

/// `flistxattr`: as `listxattr`.
pub fn flistxattr(namebuf_is_null: bool, size: u32) -> (r: (i32, bool))
    ensures
        r == (0i32, !namebuf_is_null && size > 0),
{
    listxattr(namebuf_is_null, size)
}

/// `RAND_MAX`: the largest value that `rand` and `random` return.
pub const RAND_MAX: i32 = 0x7fff_ffff;

/// One step of the xorshift32 generator, with a zero state lifted to one
/// (zero is a fixed point of xorshift).
pub open spec fn spec_prng(state: u32) -> u32 {
    let s0: u32 = if state == 0 { 1u32 } else { state };
    let s1: u32 = s0 ^ (s0 << 13u32);
    let s2: u32 = s1 ^ (s1 >> 17u32);
    s2 ^ (s2 << 5u32)
}

/// Advances the generator state by one step.
pub fn prng(state: u32) -> (r: u32)
    ensures
        r == spec_prng(state),
{
    let mut s: u32 = if state < 1 { 1 } else { state };
    s = s ^ (s << 13u32);
    s = s ^ (s >> 17u32);
    s = s ^ (s << 5u32);
    s
}

/// The value that `rand`/`random` report for a generator state: the state
/// reinterpreted as `i32` and masked with `RAND_MAX`.
pub open spec fn spec_rand_output(state: u32) -> i32 {
    (state & 0x7fff_ffffu32) as i32
}

/// The generator states of `stdlib.h`.
#[derive(Clone, Copy, Debug, PartialEq, Eq, Structural)]
pub struct State {
    pub rand: u32,
    pub random: u32,
    pub arc4random: u32,
}

impl Default for State {
    /// All three generators start from the zero seed.
    fn default() -> (s: Self)
        ensures
            s.rand == 0,
            s.random == 0,
            s.arc4random == 0,
    {
        State { rand: 0, random: 0, arc4random: 0 }
    }
}

impl State {
    /// `srand`: seeds the `rand` generator.
    pub fn srand(&mut self, seed: u32)
        ensures
            final(self).rand == seed,
            final(self).random == old(self).random,
            final(self).arc4random == old(self).arc4random,
    {
        self.rand = seed;
    }

    /// `rand`: advances the `rand` generator and returns its new state
    /// masked to `0..=RAND_MAX`.
    pub fn rand(&mut self) -> (r: i32)
        ensures
            final(self).rand == spec_prng(old(self).rand),
            final(self).random == old(self).random,
            final(self).arc4random == old(self).arc4random,
            r == spec_rand_output(final(self).rand),
    {
        self.rand = prng(self.rand);
        (self.rand & 0x7fff_ffffu32) as i32
    }

    /// `srandom`: seeds the `random` generator. `errno` is cleared.
    pub fn srandom(&mut self, seed: u32, errno: &mut i32)
        ensures
            final(self).random == seed,
            final(self).rand == old(self).rand,
            final(self).arc4random == old(self).arc4random,
            *final(errno) == 0,
    {
        *errno = 0;
        self.random = seed;
    }

    /// `random`: advances the `random` generator and returns its new state
    /// masked to `0..=RAND_MAX`. `errno` is cleared.
    pub fn random(&mut self, errno: &mut i32) -> (r: i32)
        ensures
            final(self).random == spec_prng(old(self).random),
            final(self).rand == old(self).rand,
            final(self).arc4random == old(self).arc4random,
            r == spec_rand_output(final(self).random),
            *final(errno) == 0,
    {
        *errno = 0;
        self.random = prng(self.random);
        (self.random & 0x7fff_ffffu32) as i32
    }

    /// `arc4random`: advances the `arc4random` generator and returns its new
    /// state in full.
    pub fn arc4random(&mut self) -> (r: u32)
        ensures
            final(self).arc4random == spec_prng(old(self).arc4random),
            final(self).rand == old(self).rand,
            final(self).random == old(self).random,
            r == final(self).arc4random,
    {
        self.arc4random = prng(self.arc4random);
        self.arc4random
    }

    /// `arc4random_stir`: behaves as `arc4random`.
    pub fn arc4random_stir(&mut self) -> (r: u32)
        ensures
            final(self).arc4random == spec_prng(old(self).arc4random),
            final(self).rand == old(self).rand,
            final(self).random == old(self).random,
            r == final(self).arc4random,
    {
        self.arc4random()
    }

    /// `arc4random_addrandom`: behaves as `arc4random`.
    pub fn arc4random_addrandom(&mut self) -> (r: u32)
        ensures
            final(self).arc4random == spec_prng(old(self).arc4random),
            final(self).rand == old(self).rand,
            final(self).random == old(self).random,
            r == final(self).arc4random,
    {
        self.arc4random()
    }

    /// `sranddev`: seeds `rand` with the next `arc4random` value and returns
    /// that seed.
    pub fn sranddev(&mut self) -> (seed: u32)
        ensures
            final(self).arc4random == spec_prng(old(self).arc4random),
            final(self).rand == final(self).arc4random,
            final(self).random == old(self).random,
            seed == final(self).rand,
    {
        let seed = self.arc4random();
        self.rand = seed;
        seed
    }
}

/// The generator never reaches the zero state, whatever state it steps from.
pub proof fn lemma_prng_nonzero(state: u32)
    ensures
        spec_prng(state) != 0,
{
    let s0: u32 = if state == 0 { 1u32 } else { state };
    assert(s0 != 0 ==> (s0 ^ (s0 << 13u32)) != 0) by (bit_vector);
    let s1: u32 = s0 ^ (s0 << 13u32);
    assert(s1 != 0 ==> (s1 ^ (s1 >> 17u32)) != 0) by (bit_vector);
    let s2: u32 = s1 ^ (s1 >> 17u32);
    assert(s2 != 0 ==> (s2 ^ (s2 << 5u32)) != 0) by (bit_vector);
}

/// `rand` and `random` only ever return values in `0..=RAND_MAX`.
pub proof fn lemma_rand_output_in_range(state: u32)
    ensures
        0 <= spec_rand_output(state) <= RAND_MAX,
{
    assert((state & 0x7fff_ffffu32) <= 0x7fff_ffffu32) by (bit_vector);
}

} // verus!
