//! Byte strings: comparison, copying, C strings and UTF-8 text.

use vstd::prelude::*;
use vstd::utf8::{
    valid_utf8, valid_first_scalar, decode_first_scalar, length_of_first_scalar, decode_utf8,
    pop_first_scalar, codepoint_width_2, codepoint_width_3, codepoint_width_4,
};

verus! {

/// Byte-wise equality of two byte strings.
pub fn bytes_eq(a: &[u8], b: &[u8]) -> (r: bool)
    ensures
        r == (a@ == b@),
{
    if a.len() != b.len() {
        return false;
    }
    let mut i: usize = 0;
    while i < a.len()
        invariant
            a.len() == b.len(),
            i <= a.len(),
            forall|j: int| 0 <= j < i ==> a@[j] == b@[j],
        decreases a.len() - i,
    {
        if a[i] != b[i] {
            return false;
        }
        i = i + 1;
    }
    assert(a@ =~= b@);
    true
}

/// A copy of a byte string.
pub fn copy_bytes(a: &[u8]) -> (r: Vec<u8>)
    ensures
        r@ == a@,
{
    let mut r: Vec<u8> = Vec::new();
    let mut i: usize = 0;
    while i < a.len()
        invariant
            i <= a.len(),
            r@ == a@.take(i as int),
        decreases a.len() - i,
    {
        r.push(a[i]);
        i = i + 1;
        assert(r@ =~= a@.take(i as int));
    }
    assert(a@.take(i as int) =~= a@);
    r
}

/// The bytes of a C string: those before the first NUL, or all of them
/// where there is none.
pub open spec fn cstr_prefix(s: Seq<u8>) -> Seq<u8> {
    s.take(cstr_len(s))
}

/// The length of a C string: the position of the first NUL, or the whole
/// length where there is none.
pub open spec fn cstr_len(s: Seq<u8>) -> int
    decreases s.len(),
{
    if s.len() == 0 {
        0
    } else if s[0] == 0 {
        0
    } else {
        1 + cstr_len(s.drop_first())
    }
}

/// A C string's length lies within its bytes, its bytes are not NUL, and
/// a NUL ends it where there is one.
pub proof fn lemma_cstr_len_facts(s: Seq<u8>)
    ensures
        0 <= cstr_len(s) <= s.len(),
        cstr_len(s) < s.len() ==> s[cstr_len(s)] == 0,
        forall|i: int| 0 <= i < cstr_len(s) ==> s[i] != 0,
{
    lemma_cstr_len_bounds(s);
}

proof fn lemma_cstr_len_bounds(s: Seq<u8>)
    ensures
        0 <= cstr_len(s) <= s.len(),
        cstr_len(s) < s.len() ==> s[cstr_len(s)] == 0,
        forall|i: int| 0 <= i < cstr_len(s) ==> s[i] != 0,
    decreases s.len(),
{
    if s.len() > 0 && s[0] != 0 {
        lemma_cstr_len_bounds(s.drop_first());
        assert forall|i: int| 0 <= i < cstr_len(s) implies s[i] != 0 by {
            if i > 0 {
                assert(s[i] == s.drop_first()[i - 1]);
            }
        }
    }
}

/// `strlen`: the number of bytes before the first NUL (all of them where
/// there is none).
pub fn strlen(s: &[u8]) -> (r: usize)
    ensures
        r == cstr_len(s@),
        r <= s.len(),
        r < s.len() ==> s@[r as int] == 0,
        forall|i: int| 0 <= i < r ==> s@[i] != 0,
{
    proof {
        lemma_cstr_len_bounds(s@);
    }
    let mut i: usize = 0;
    while i < s.len() && s[i] != 0
        invariant
            i <= s.len(),
            forall|j: int| 0 <= j < i ==> s@[j] != 0,
            cstr_len(s@) >= i,
            0 <= cstr_len(s@) <= s.len(),
            cstr_len(s@) < s.len() ==> s@[cstr_len(s@)] == 0,
            forall|j: int| 0 <= j < cstr_len(s@) ==> s@[j] != 0,
        decreases s.len() - i,
    {
        i = i + 1;
    }
    i
}

/// Whether a byte string is well-formed UTF-8. Calls `std::str::from_utf8`,
/// trusting that it succeeds exactly on the byte strings that vstd's
/// `valid_utf8` describes: a sequence of scalar encodings with correct lead
/// and continuation bytes, no overlong forms, no surrogates and nothing
/// above U+10FFFF, which is how std documents valid UTF-8.
#[verifier::external_body]
pub(crate) fn is_valid_utf8(bytes: &[u8]) -> (r: bool)
    ensures
        r == vstd::utf8::valid_utf8(bytes@),
{
    std::str::from_utf8(bytes).is_ok()
}


/// The character of a Unicode scalar value. Calls `char::from_u32`,
/// trusting that it gives `Some` of the character with that value for a
/// value that is no surrogate and at most U+10FFFF, and `None` for any
/// other, as std documents.
#[verifier::external_body]
fn char_from_u32(v: u32) -> (r: Option<char>)
    ensures
        r == (if v <= 0x10ffff && !(0xd800 <= v <= 0xdfff) {
            Some(v as char)
        } else {
            None::<char>
        }),
{
    char::from_u32(v)
}

/// The scalar value encoded from position `i` on, and the length of its
/// encoding.
fn decode_scalar_at(s: &[u8], i: usize) -> (r: (u32, usize))
    requires
        i < s.len(),
        valid_first_scalar(s@.subrange(i as int, s.len() as int)),
    ensures
        r.0 == decode_first_scalar(s@.subrange(i as int, s.len() as int)),
        r.1 == length_of_first_scalar(s@.subrange(i as int, s.len() as int)),
        i + r.1 <= s.len(),
        r.0 <= 0x10ffff,
{
    let ghost t = s@.subrange(i as int, s.len() as int);
    let b0 = s[i];
    assert(t[0] == b0);
    if b0 < 0x80 {
        assert((b0 & 0x7Fu8) as u32 == b0 as u32) by (bit_vector)
            requires
                b0 < 0x80u8,
        ;
        return (b0 as u32, 1);
    }
    let b1 = s[i + 1];
    assert(t[1] == b1);
    if b0 < 0xe0 {
        let cp = (((b0 & 0x1F) as u32) << 6u32) | ((b1 & 0x3F) as u32);
        assert(cp == codepoint_width_2(b0, b1));
        assert(cp <= 0x7ff) by (bit_vector)
            requires
                cp == (((b0 & 0x1Fu8) as u32) << 6u32) | ((b1 & 0x3Fu8) as u32),
        ;
        return (cp, 2);
    }
    let b2 = s[i + 2];
    assert(t[2] == b2);
    if b0 < 0xf0 {
        let cp = (((b0 & 0x0F) as u32) << 12u32) | (((b1 & 0x3F) as u32) << 6u32) | ((b2
            & 0x3F) as u32);
        assert(cp == codepoint_width_3(b0, b1, b2));
        assert(cp <= 0xffff) by (bit_vector)
            requires
                cp == (((b0 & 0x0Fu8) as u32) << 12u32) | (((b1 & 0x3Fu8) as u32) << 6u32) | ((b2
                    & 0x3Fu8) as u32),
        ;
        return (cp, 3);
    }
    let b3 = s[i + 3];
    assert(t[3] == b3);
    let cp = (((b0 & 0x07) as u32) << 18u32) | (((b1 & 0x3F) as u32) << 12u32) | (((b2 & 0x3F)
        as u32) << 6u32) | ((b3 & 0x3F) as u32);
    assert(cp == codepoint_width_4(b0, b1, b2, b3));
    (cp, 4)
}

/// The characters that well-formed UTF-8 bytes encode.
pub fn decode_utf8_chars(bytes: &[u8]) -> (r: Vec<char>)
    requires
        valid_utf8(bytes@),
    ensures
        r@ == decode_utf8(bytes@),
{
    let mut out: Vec<char> = Vec::new();
    let mut i: usize = 0;
    assert(bytes@.subrange(0, bytes@.len() as int) =~= bytes@);
    while i < bytes.len()
        invariant
            i <= bytes.len(),
            valid_utf8(bytes@.subrange(i as int, bytes.len() as int)),
            out@ + decode_utf8(bytes@.subrange(i as int, bytes.len() as int)) == decode_utf8(bytes@),
        decreases bytes.len() - i,
    {
        let ghost t = bytes@.subrange(i as int, bytes.len() as int);
        assert(valid_first_scalar(t) && valid_utf8(pop_first_scalar(t)));
        let (cp, w) = decode_scalar_at(bytes, i);
        assert(pop_first_scalar(t) =~= bytes@.subrange(i + w, bytes.len() as int));
        let c = match char_from_u32(cp) {
            Some(c) => c,
            None => {
                assert(false);
                return out;
            },
        };
        out.push(c);
        proof {
            assert(decode_utf8(t) == seq![decode_first_scalar(t) as char] + decode_utf8(pop_first_scalar(t)));
            assert(out@ + decode_utf8(pop_first_scalar(t)) =~= (out@.drop_last() + decode_utf8(t)));
        }
        i = i + w;
    }
    assert(bytes@.subrange(i as int, bytes.len() as int) =~= Seq::<u8>::empty());
    assert(out@ + decode_utf8(Seq::<u8>::empty()) =~= out@);
    out
}

} // verus!
