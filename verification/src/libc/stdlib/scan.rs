//! Scanning of C number literals: the whitespace before them, integer
//! literals with their sign, radix prefix and digits, and the extent of
//! decimal floating-point literals.
//!
//! A subject is a byte slice read from an offset; a read past its end fails,
//! as a read past the end of a stream does. A C string in guest memory is
//! its bytes up to and including the terminating NUL.

use vstd::prelude::*;
use crate::libc::stdlib::radix::{digit_value, is_digit, is_digit_in};

verus! {

/// The bytes skipped as white space: the ASCII white space characters and
/// the vertical tab.
pub open spec fn is_c_space(c: u8) -> bool {
    c == 0x20 || (0x09 <= c <= 0x0d)
}

/// The number of consecutive white space bytes from position `i` on.
pub open spec fn ws_run(s: Seq<u8>, i: int) -> nat
    decreases s.len() - i,
{
    if 0 <= i < s.len() && is_c_space(s[i]) {
        1 + ws_run(s, i + 1)
    } else {
        0
    }
}

/// The number of consecutive digits in radix `base` from position `i` on.
pub open spec fn digit_run(s: Seq<u8>, i: int, base: int) -> nat
    decreases s.len() - i,
{
    if 0 <= i < s.len() && is_digit_in(s[i], base) {
        1 + digit_run(s, i + 1, base)
    } else {
        0
    }
}

/// The number of consecutive decimal digits from position `i` on.
pub open spec fn decimal_run(s: Seq<u8>, i: int) -> nat {
    digit_run(s, i, 10)
}

pub open spec fn is_sign(c: u8) -> bool {
    c == 0x2b || c == 0x2d
}

pub open spec fn is_x(c: u8) -> bool {
    c == 0x78 || c == 0x58
}

/// Counts the white space at the start of the subject, from `offset` on.
/// `Ok` holds the count where a byte that is not white space follows it;
/// `Err` holds it where the subject ends first.
pub fn count_whitespace_generic(subject: &[u8], offset: usize) -> (r: Result<u32, u32>)
    requires
        subject.len() < u32::MAX,
    ensures
        r == (if offset + ws_run(subject@, offset as int) < subject.len() {
            Ok::<u32, u32>(ws_run(subject@, offset as int) as u32)
        } else {
            Err::<u32, u32>(ws_run(subject@, offset as int) as u32)
        }),
{
    if offset >= subject.len() {
        return Err(0);
    }
    let mut i: usize = offset;
    while i < subject.len() && (subject[i] == 0x20 || (0x09 <= subject[i] && subject[i] <= 0x0d))
        invariant
            offset <= i <= subject.len(),
            ws_run(subject@, offset as int) == (i - offset) + ws_run(subject@, i as int),
        decreases subject.len() - i,
    {
        i = i + 1;
    }
    if i < subject.len() {
        Ok((i - offset) as u32)
    } else {
        Err((i - offset) as u32)
    }
}

/// Counts the digits in radix `base` from position `start` on.
fn count_digits(subject: &[u8], start: usize, base: u32) -> (r: usize)
    requires
        2 <= base <= 36,
        start <= subject.len(),
    ensures
        r == digit_run(subject@, start as int, base as int),
        start + r <= subject.len(),
{
    let mut i: usize = start;
    while i < subject.len() && is_digit(subject[i], base)
        invariant
            2 <= base <= 36,
            start <= i <= subject.len(),
            digit_run(subject@, start as int, base as int) == (i - start) + digit_run(
                subject@,
                i as int,
                base as int,
            ),
        decreases subject.len() - i,
    {
        i = i + 1;
    }
    i - start
}

/// The length of a decimal floating-point literal starting at position `p`:
/// an optional sign (or a first digit), decimal digits, optionally a `.`
/// and more digits, optionally an `e`/`E` with an optional sign (or first
/// digit) and digits.
pub open spec fn float_literal_len(s: Seq<u8>, p: int) -> int {
    let lead: int = if p < s.len() && (is_sign(s[p]) || is_digit_in(s[p], 10)) { 1 } else { 0 };
    let a = lead + decimal_run(s, p + lead);
    let b = if p + a < s.len() && s[p + a] == 0x2e { a + 1 + decimal_run(s, p + a + 1) } else { a };
    let c0 = b + 1;
    let e_lead: int = if p + c0 < s.len() && (is_sign(s[p + c0]) || is_digit_in(s[p + c0], 10)) {
        1
    } else {
        0
    };
    if p + b < s.len() && (s[p + b] == 0x65 || s[p + b] == 0x45) {
        c0 + e_lead + decimal_run(s, p + c0 + e_lead)
    } else {
        b
    }
}

/// The extent of a floating-point literal: the white space before it and
/// the bytes that form it.
#[derive(Clone, Copy, Debug, PartialEq, Eq, Structural)]
pub struct FloatScan {
    pub whitespace_len: u32,
    pub len: u32,
}

/// What a floating-point scan of the subject from `offset` on finds: the
/// white space, then (where the subject does not end there) the literal.
pub open spec fn float_scan(s: Seq<u8>, offset: int) -> (int, int) {
    let ws = ws_run(s, offset) as int;
    let p = offset + ws;
    (ws, if p >= s.len() { 0 } else { float_literal_len(s, p) })
}

/// Scans past a decimal floating-point literal.
fn skip_decimals(subject: &[u8], start: usize) -> (r: usize)
    requires
        start <= subject.len(),
    ensures
        r == start + decimal_run(subject@, start as int),
        r <= subject.len(),
{
    proof {
        lemma_digit_run_bound(subject@, start as int, 10);
    }
    start + count_digits(subject, start, 10)
}

/// Finds the extent of the floating-point literal at the start of the
/// subject (after white space); converting its text is left to the caller.
pub fn scan_float(subject: &[u8], offset: usize) -> (r: FloatScan)
    requires
        subject.len() < u32::MAX,
    ensures
        (r.whitespace_len as int, r.len as int) == float_scan(subject@, offset as int),
        r.len == 0 || offset + r.whitespace_len + r.len <= subject.len(),
{
    proof {
        lemma_ws_run_bound(subject@, offset as int);
    }
    let whitespace_len = match count_whitespace_generic(subject, offset) {
        Ok(n) => n,
        Err(n) => {
            return FloatScan { whitespace_len: n, len: 0 };
        },
    };
    let p = offset + whitespace_len as usize;
    let c = subject[p];
    let lead: usize = if c == 0x2b || c == 0x2d || (0x30 <= c && c <= 0x39) { 1 } else { 0 };
    let mut q = skip_decimals(subject, p + lead);
    if q < subject.len() && subject[q] == 0x2e {
        q = skip_decimals(subject, q + 1);
    }
    if q < subject.len() && (subject[q] == 0x65 || subject[q] == 0x45) {
        q = q + 1;
        if q < subject.len() && (subject[q] == 0x2b || subject[q] == 0x2d || (0x30 <= subject[q]
            && subject[q] <= 0x39)) {
            q = q + 1;
        }
        q = skip_decimals(subject, q);
    }
    FloatScan { whitespace_len, len: (q - p) as u32 }
}

/// The state of an integer scan: the white space skipped, the bytes
/// consumed after it (sign, radix prefix and digits), how many of those
/// form the sign and radix prefix, the sign, the radix, where the digits
/// lie, and whether the scan ended early.
pub struct IntScanModel {
    pub whitespace_len: int,
    pub len: int,
    pub prefix_length: int,
    pub negative: bool,
    pub base: int,
    pub digits_start: int,
    pub digits_len: int,
    pub stopped: bool,
}

/// Position of the next byte to read.
pub open spec fn next_pos(offset: int, m: IntScanModel) -> int {
    offset + m.whitespace_len + m.len
}

/// The white space phase: the scan ends here where the subject does.
pub open spec fn int_scan_whitespace(s: Seq<u8>, offset: int, base: int) -> IntScanModel {
    let ws = ws_run(s, offset) as int;
    IntScanModel {
        whitespace_len: ws,
        len: 0,
        prefix_length: 0,
        negative: false,
        base: base,
        digits_start: if offset + ws >= s.len() { 0 } else { offset + ws },
        digits_len: 0,
        stopped: offset + ws >= s.len(),
    }
}

/// The sign phase: an optional `+` or `-`.
pub open spec fn int_scan_sign(s: Seq<u8>, offset: int, max: int, m: IntScanModel) -> IntScanModel {
    if m.stopped {
        m
    } else if is_sign(s[next_pos(offset, m)]) {
        IntScanModel {
            len: m.len + 1,
            prefix_length: m.prefix_length + 1,
            negative: s[next_pos(offset, m)] == 0x2d,
            stopped: m.len + 1 == max,
            ..m
        }
    } else {
        m
    }
}

/// The radix detection phase for radix 0: `0x`/`0X` selects 16, another
/// leading `0` selects 8, anything else 10. Nothing is consumed.
pub open spec fn int_scan_base(s: Seq<u8>, offset: int, m: IntScanModel) -> IntScanModel {
    let q = next_pos(offset, m);
    if m.stopped || m.base != 0 {
        m
    } else if q >= s.len() {
        IntScanModel { stopped: true, ..m }
    } else if s[q] == 0x30 {
        if q + 1 >= s.len() {
            IntScanModel { stopped: true, ..m }
        } else if is_x(s[q + 1]) {
            IntScanModel { base: 16, ..m }
        } else {
            IntScanModel { base: 8, ..m }
        }
    } else {
        IntScanModel { base: 10, ..m }
    }
}

/// The radix prefix phase for radix 8 and 16: a leading `0`, and for radix
/// 16 an `x` or `X` after it. A byte consumed is counted as prefix once the
/// length limit has not cut the scan at it.
pub open spec fn int_scan_prefix(s: Seq<u8>, offset: int, max: int, m: IntScanModel) -> IntScanModel {
    let q = next_pos(offset, m);
    if m.stopped || !(m.base == 8 || m.base == 16) {
        m
    } else if q >= s.len() {
        IntScanModel { stopped: true, ..m }
    } else if s[q] != 0x30 {
        m
    } else if m.len + 1 == max {
        IntScanModel { len: m.len + 1, stopped: true, ..m }
    } else if m.base != 16 {
        IntScanModel { len: m.len + 1, prefix_length: m.prefix_length + 1, ..m }
    } else if q + 1 >= s.len() {
        IntScanModel {
            len: m.len + 1,
            prefix_length: m.prefix_length + 1,
            stopped: true,
            ..m
        }
    } else if !is_x(s[q + 1]) {
        IntScanModel { len: m.len + 1, prefix_length: m.prefix_length + 1, ..m }
    } else if m.len + 2 == max {
        IntScanModel {
            len: m.len + 2,
            prefix_length: m.prefix_length + 1,
            stopped: true,
            ..m
        }
    } else {
        IntScanModel { len: m.len + 2, prefix_length: m.prefix_length + 2, ..m }
    }
}

/// The digit phase: the longest run of digits in the radix, cut where the
/// consumed length reaches the limit (a limit of 0 cuts nothing).
pub open spec fn int_scan_digits(s: Seq<u8>, offset: int, max: int, m: IntScanModel) -> IntScanModel {
    let q = next_pos(offset, m);
    let run = digit_run(s, q, m.base) as int;
    let k = if max > m.len && m.len + run >= max {
        max - m.len
    } else {
        run
    };
    if m.stopped {
        m
    } else {
        IntScanModel { len: m.len + k, digits_start: q, digits_len: k, ..m }
    }
}

/// The whole scan of an integer literal from `offset` on, in radix `base`
/// (0 to detect it from the prefix), consuming at most `max` bytes after
/// the white space.
pub open spec fn int_scan(s: Seq<u8>, offset: int, base: int, max: int) -> IntScanModel {
    int_scan_digits(
        s,
        offset,
        max,
        int_scan_prefix(
            s,
            offset,
            max,
            int_scan_base(s, offset, int_scan_sign(s, offset, max, int_scan_whitespace(s, offset, base))),
        ),
    )
}

/// An integer scan as the executable code holds it.
#[derive(Clone, Copy, Debug, PartialEq, Eq, Structural)]
pub struct IntScan {
    pub whitespace_len: u32,
    pub len: u32,
    pub prefix_length: u32,
    pub negative: bool,
    pub base: u32,
    pub digits_start: usize,
    pub digits_len: usize,
    pub stopped: bool,
}

impl IntScan {
    pub open spec fn model(self) -> IntScanModel {
        IntScanModel {
            whitespace_len: self.whitespace_len as int,
            len: self.len as int,
            prefix_length: self.prefix_length as int,
            negative: self.negative,
            base: self.base as int,
            digits_start: self.digits_start as int,
            digits_len: self.digits_len as int,
            stopped: self.stopped,
        }
    }
}

/// The bounds that every scan state keeps: what has been consumed lies in
/// the subject.
pub open spec fn scan_in_bounds(s: Seq<u8>, offset: int, m: IntScanModel) -> bool {
    &&& 0 <= m.prefix_length <= m.len
    &&& 0 <= m.whitespace_len
    &&& m.stopped || offset + m.whitespace_len + m.len <= s.len()
    &&& !m.stopped ==> 0 <= offset
    &&& m.whitespace_len + m.len <= s.len()
    &&& 0 <= m.digits_len
    &&& 0 <= m.digits_start && m.digits_start + m.digits_len <= s.len()
    &&& m.digits_len <= m.len
}

proof fn lemma_ws_run_bound(s: Seq<u8>, i: int)
    ensures
        i >= 0 ==> i + ws_run(s, i) <= s.len() || ws_run(s, i) == 0,
        ws_run(s, i) <= s.len(),
    decreases s.len() - i,
{
    if 0 <= i < s.len() && is_c_space(s[i]) {
        lemma_ws_run_bound(s, i + 1);
    }
}

proof fn lemma_digit_run_bound(s: Seq<u8>, i: int, base: int)
    ensures
        0 <= i ==> i + digit_run(s, i, base) <= s.len() || digit_run(s, i, base) == 0,
    decreases s.len() - i,
{
    if 0 <= i < s.len() && is_digit_in(s[i], base) {
        lemma_digit_run_bound(s, i + 1, base);
    }
}

fn phase_sign(subject: &[u8], offset: usize, max_length: u32, m: IntScan) -> (r: IntScan)
    requires
        subject.len() < u32::MAX,
        scan_in_bounds(subject@, offset as int, m.model()),
        m.len == 0,
        m.prefix_length == 0,
        m.digits_len == 0,
        !m.stopped ==> offset + m.whitespace_len < subject.len(),
    ensures
        r.model() == int_scan_sign(subject@, offset as int, max_length as int, m.model()),
        scan_in_bounds(subject@, offset as int, r.model()),
{
    if m.stopped {
        return m;
    }
    let c = subject[offset + m.whitespace_len as usize];
    if c == 0x2b || c == 0x2d {
        IntScan {
            len: 1,
            prefix_length: 1,
            negative: c == 0x2d,
            stopped: 1 == max_length,
            ..m
        }
    } else {
        m
    }
}

fn phase_base(subject: &[u8], offset: usize, m: IntScan) -> (r: IntScan)
    requires
        subject.len() < u32::MAX,
        scan_in_bounds(subject@, offset as int, m.model()),
        m.base == 0 || 2 <= m.base <= 36,
    ensures
        r.model() == int_scan_base(subject@, offset as int, m.model()),
        scan_in_bounds(subject@, offset as int, r.model()),
        r.base == 0 || 2 <= r.base <= 36,
{
    if m.stopped || m.base != 0 {
        return m;
    }
    let q = offset + m.whitespace_len as usize + m.len as usize;
    if q >= subject.len() {
        IntScan { stopped: true, ..m }
    } else if subject[q] == 0x30 {
        if q + 1 >= subject.len() {
            IntScan { stopped: true, ..m }
        } else if subject[q + 1] == 0x78 || subject[q + 1] == 0x58 {
            IntScan { base: 16, ..m }
        } else {
            IntScan { base: 8, ..m }
        }
    } else {
        IntScan { base: 10, ..m }
    }
}

fn phase_prefix(subject: &[u8], offset: usize, max_length: u32, m: IntScan) -> (r: IntScan)
    requires
        subject.len() < u32::MAX,
        scan_in_bounds(subject@, offset as int, m.model()),
        m.digits_len == 0,
        m.len <= 1,
        m.stopped || m.len == 0 || m.len < max_length || max_length == 0,
    ensures
        r.model() == int_scan_prefix(subject@, offset as int, max_length as int, m.model()),
        scan_in_bounds(subject@, offset as int, r.model()),
        r.base == m.base,
        r.digits_len == 0,
        r.stopped || r.len == 0 || r.len < max_length || max_length == 0,
{
    if m.stopped || !(m.base == 8 || m.base == 16) {
        return m;
    }
    let q = offset + m.whitespace_len as usize + m.len as usize;
    if q >= subject.len() {
        IntScan { stopped: true, ..m }
    } else if subject[q] != 0x30 {
        m
    } else if m.len + 1 == max_length {
        IntScan { len: m.len + 1, stopped: true, ..m }
    } else if m.base != 16 {
        IntScan { len: m.len + 1, prefix_length: m.prefix_length + 1, ..m }
    } else if q + 1 >= subject.len() {
        IntScan { len: m.len + 1, prefix_length: m.prefix_length + 1, stopped: true, ..m }
    } else if !(subject[q + 1] == 0x78 || subject[q + 1] == 0x58) {
        IntScan { len: m.len + 1, prefix_length: m.prefix_length + 1, ..m }
    } else if m.len + 2 == max_length {
        IntScan { len: m.len + 2, prefix_length: m.prefix_length + 1, stopped: true, ..m }
    } else {
        IntScan { len: m.len + 2, prefix_length: m.prefix_length + 2, ..m }
    }
}

fn phase_digits(subject: &[u8], offset: usize, max_length: u32, m: IntScan) -> (r: IntScan)
    requires
        subject.len() < u32::MAX,
        scan_in_bounds(subject@, offset as int, m.model()),
        m.stopped || 2 <= m.base <= 36,
        m.digits_len == 0,
        m.stopped || m.len == 0 || m.len < max_length || max_length == 0,
    ensures
        r.model() == int_scan_digits(subject@, offset as int, max_length as int, m.model()),
        scan_in_bounds(subject@, offset as int, r.model()),
        r.digits_len <= digit_run(subject@, r.digits_start as int, r.base as int),
{
    if m.stopped {
        return m;
    }
    let q = offset + m.whitespace_len as usize + m.len as usize;
    proof {
        lemma_digit_run_bound(subject@, q as int, m.base as int);
    }
    let run = count_digits(subject, q, m.base);
    let k: usize = if max_length > m.len && m.len as usize + run >= max_length as usize {
        (max_length - m.len) as usize
    } else {
        run
    };
    IntScan { len: m.len + k as u32, digits_start: q, digits_len: k, ..m }
}

/// Scans an integer literal (see `int_scan`).
pub fn scan_int(subject: &[u8], offset: usize, base: u32, max_length: u32) -> (r: IntScan)
    requires
        subject.len() < u32::MAX,
        base == 0 || 2 <= base <= 36,
    ensures
        r.model() == int_scan(subject@, offset as int, base as int, max_length as int),
        scan_in_bounds(subject@, offset as int, r.model()),
        r.base == 0 || 2 <= r.base <= 36,
        r.stopped || r.base != 0,
        r.digits_len <= digit_run(subject@, r.digits_start as int, r.base as int),
{
    proof {
        lemma_ws_run_bound(subject@, offset as int);
    }
    let (whitespace_len, stopped) = match count_whitespace_generic(subject, offset) {
        Ok(n) => (n, false),
        Err(n) => (n, true),
    };
    let m0 = IntScan {
        whitespace_len,
        len: 0,
        prefix_length: 0,
        negative: false,
        base,
        digits_start: if stopped { 0 } else { offset + whitespace_len as usize },
        digits_len: 0,
        stopped,
    };
    assert(m0.model() == int_scan_whitespace(subject@, offset as int, base as int));
    let m1 = phase_sign(subject, offset, max_length, m0);
    let m2 = phase_base(subject, offset, m1);
    let m3 = phase_prefix(subject, offset, max_length, m2);
    let m4 = phase_digits(subject, offset, max_length, m3);
    m4
}

} // verus!
