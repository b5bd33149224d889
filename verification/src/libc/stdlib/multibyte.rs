//! Conversions between multibyte (UTF-8) and wide character strings:
//! `mbtowc_l`, `mbstowcs` and `wcstombs`, in the "C" locale.

use vstd::prelude::*;
use vstd::utf8::{
    valid_leading_and_continuation_bytes_first_codepoint, decode_first_codepoint,
    length_of_first_codepoint, encode_utf8, encode_scalar, encode_utf8_first_scalar,
    valid_first_scalar, decode_first_scalar, length_of_first_scalar, codepoint_width_2,
    codepoint_width_3, codepoint_width_4,
};
use crate::bytes::{cstr_len, strlen};

verus! {

/// The bytes that a multibyte conversion may look at: the first `n`, or all
/// that the subject holds where that is fewer.
pub open spec fn window(s: Seq<u8>, n: int) -> Seq<u8> {
    if n <= s.len() {
        s.take(n)
    } else {
        s
    }
}

/// What `mbtowc_l` returns, and the wide character it stores: for no string
/// 0; for no bytes -1; for a NUL 0 and a zero character; otherwise the
/// length and value of a UTF-8 sequence that begins the window (its lead
/// byte and continuation bytes well formed; overlong forms and surrogates
/// are not rejected), or -1 where there is none.
pub open spec fn spec_mbtowc(s: Option<Seq<u8>>, n: int) -> (i32, Option<u32>) {
    match s {
        None => (0, None),
        Some(s) => {
            let w = window(s, n);
            if n == 0 {
                (-1i32, None)
            } else if s[0] == 0 {
                (0, Some(0))
            } else if valid_leading_and_continuation_bytes_first_codepoint(w) {
                (length_of_first_codepoint(w) as i32, Some(decode_first_codepoint(w)))
            } else {
                (-1i32, None)
            }
        },
    }
}

fn is_continuation(b: u8) -> (r: bool)
    ensures
        r == (0x80 <= b <= 0xbf),
{
    assert((b & 0xC0u8) == 0x80u8 <==> (0x80u8 <= b && b <= 0xbfu8)) by (bit_vector);
    (b & 0xC0) == 0x80
}

/// `mbtowc_l`: converts the multibyte character at the start of `s`,
/// looking at no more than `n` bytes. Returns the length converted (0 for
/// a NUL, -1 for an invalid or incomplete sequence) and the wide character
/// to store through `pwc` where one was converted.
pub fn mbtowc_l(s: Option<&[u8]>, n: u32) -> (r: (i32, Option<u32>))
    requires
        s matches Some(s) ==> (n <= s.len() || s.len() >= 4),
    ensures
        r == spec_mbtowc(
            match s {
                Some(s) => Some(s@),
                None => None,
            },
            n as int,
        ),
{
    let s = match s {
        None => return (0, None),
        Some(s) => s,
    };
    if n == 0 {
        return (-1, None);
    }
    let ghost w = window(s@, n as int);
    let first_byte = s[0];
    assert(w[0] == s@[0]);
    if first_byte == 0 {
        return (0, Some(0));
    }
    if first_byte < 0x80 {
        assert((first_byte & 0x7Fu8) as u32 == first_byte as u32) by (bit_vector)
            requires
                first_byte < 0x80u8,
        ;
        return (1, Some(first_byte as u32));
    }
    let bytes_to_read: u32;
    if (first_byte & 0xE0) == 0xC0 {
        bytes_to_read = 1;
    } else if (first_byte & 0xF0) == 0xE0 {
        bytes_to_read = 2;
    } else if (first_byte & 0xF8) == 0xF0 {
        bytes_to_read = 3;
    } else {
        assert(!(0xc0u8 <= first_byte <= 0xf7u8)) by (bit_vector)
            requires
                (first_byte & 0xE0u8) != 0xC0u8,
                (first_byte & 0xF0u8) != 0xE0u8,
                (first_byte & 0xF8u8) != 0xF0u8,
                first_byte >= 0x80u8,
        ;
        return (-1, None);
    }
    assert(bytes_to_read == 1 <==> (0xc0u8 <= first_byte <= 0xdfu8)) by (bit_vector)
        requires
            bytes_to_read == 1 <==> (first_byte & 0xE0u8) == 0xC0u8,
    ;
    assert(bytes_to_read == 2 <==> (0xe0u8 <= first_byte <= 0xefu8)) by (bit_vector)
        requires
            bytes_to_read == 2 <==> ((first_byte & 0xE0u8) != 0xC0u8 && (first_byte & 0xF0u8)
                == 0xE0u8),
    ;
    assert(bytes_to_read == 3 ==> (0xf0u8 <= first_byte <= 0xf7u8)) by (bit_vector)
        requires
            bytes_to_read == 3 ==> ((first_byte & 0xE0u8) != 0xC0u8 && (first_byte & 0xF0u8)
                != 0xE0u8 && (first_byte & 0xF8u8) == 0xF0u8),
    ;
    if n < bytes_to_read + 1 {
        return (-1, None);
    }
    assert(w.len() >= bytes_to_read + 1);
    let b1 = s[1];
    assert(w[1] == b1);
    if !is_continuation(b1) {
        return (-1, None);
    }
    if bytes_to_read == 1 {
        let cp = (((first_byte & 0x1F) as u32) << 6u32) | ((b1 & 0x3F) as u32);
        assert(cp == codepoint_width_2(first_byte, b1));
        return (2, Some(cp));
    }
    let b2 = s[2];
    assert(w[2] == b2);
    if !is_continuation(b2) {
        return (-1, None);
    }
    if bytes_to_read == 2 {
        let cp = (((first_byte & 0x0F) as u32) << 12u32) | (((b1 & 0x3F) as u32) << 6u32) | ((b2
            & 0x3F) as u32);
        assert(cp == codepoint_width_3(first_byte, b1, b2));
        return (3, Some(cp));
    }
    let b3 = s[3];
    assert(w[3] == b3);
    if !is_continuation(b3) {
        return (-1, None);
    }
    let cp = (((first_byte & 0x07) as u32) << 18u32) | (((b1 & 0x3F) as u32) << 12u32) | (((b2
        & 0x3F) as u32) << 6u32) | ((b3 & 0x3F) as u32);
    assert(cp == codepoint_width_4(first_byte, b1, b2, b3));
    (4, Some(cp))
}

/// `mbtowc_l` gives back any character other than NUL from its UTF-8
/// encoding, whatever follows it, whenever it may look at least at the
/// whole encoding.
pub proof fn lemma_mbtowc_decodes_encoding(c: char, rest: Seq<u8>, n: int)
    requires
        c as u32 != 0,
        encode_scalar(c as u32).len() <= n,
    ensures
        spec_mbtowc(Some(encode_scalar(c as u32) + rest), n) == (
            encode_scalar(c as u32).len() as i32,
            Some(c as u32),
        ),
{
    let chars = seq![c];
    encode_utf8_first_scalar(chars);
    let e = encode_scalar(c as u32);
    assert(encode_utf8(chars) =~= e + encode_utf8(chars.drop_first()));
    assert(encode_utf8(chars.drop_first()) =~= Seq::<u8>::empty());
    assert(encode_utf8(chars) =~= e);
    let s = e + rest;
    let w = window(s, n);
    assert(1 <= e.len() <= 4) by {
        assert(valid_first_scalar(e));
    }
    assert forall|i: int| 0 <= i < e.len() implies w[i] == e[i] by {}
    assert(s[0] == e[0]);
    assert(e[0] != 0) by {
        assert(valid_first_scalar(e));
        if e[0] == 0 {
            assert(decode_first_codepoint(e) == 0u32) by {
                assert(0u8 & 0x7Fu8 == 0u8) by (bit_vector);
            }
        }
    }
}

/// What `mbstowcs` stores: each byte of the C string, widened, up to `n`
/// of them, then a zero terminator where fewer than `n` were stored.
pub open spec fn spec_mbstowcs(s: Seq<u8>, n: int) -> Seq<u32> {
    let count = if cstr_len(s) < n { cstr_len(s) } else { n };
    let widened = Seq::new(count as nat, |i: int| s[i] as u32);
    if count < n {
        widened.push(0)
    } else {
        widened
    }
}

/// `mbstowcs` in the "C" locale: widens the bytes of a C string into at
/// most `n` wide characters. Returns the number of characters converted
/// and the wide characters to store (a terminator included where there is
/// room); `errno` is cleared.
pub fn mbstowcs(s: &[u8], n: u32, errno: &mut i32) -> (r: (u32, Vec<u32>))
    requires
        s.len() <= u32::MAX,
    ensures
        r.0 == (if cstr_len(s@) < n { cstr_len(s@) } else { n as int }),
        r.1@ == spec_mbstowcs(s@, n as int),
        *final(errno) == 0,
{
    *errno = 0;
    let size = strlen(s) as u32;
    let to_write = if size < n { size } else { n };
    let mut out: Vec<u32> = Vec::new();
    let mut i: u32 = 0;
    while i < to_write
        invariant
            to_write <= size,
            size as int == cstr_len(s@),
            size <= s.len(),
            i <= to_write,
            out@ =~= Seq::new(i as nat, |k: int| s@[k] as u32),
        decreases to_write - i,
    {
        out.push(s[i as usize] as u32);
        i = i + 1;
    }
    if to_write < n {
        out.push(0);
    }
    (to_write, out)
}

/// What `wcstombs` stores: the bytes of the converted string, then a NUL
/// where fewer than `n` were stored; nothing where `n` is 0.
pub open spec fn spec_wcstombs(converted: Seq<u8>, n: int) -> Seq<u8> {
    if n == 0 {
        Seq::empty()
    } else if converted.len() < n {
        converted.push(0)
    } else {
        converted
    }
}

/// `wcstombs` in the "C" locale: given the guest's wide string already
/// converted to its bytes, stores at most `n` of them. Returns the number
/// of bytes stored (the terminator not counted) and the bytes to store.
pub fn wcstombs(converted: &[u8], n: u32) -> (r: (u32, Vec<u8>))
    requires
        n == 0 || converted.len() <= n,
    ensures
        r.0 == (if n == 0 { 0 } else { converted.len() as int }),
        r.1@ == spec_wcstombs(converted@, n as int),
{
    if n == 0 {
        return (0, Vec::new());
    }
    let len = converted.len() as u32;
    let mut out = crate::bytes::copy_bytes(converted);
    if len < n {
        out.push(0);
    }
    (len, out)
}

/// `mbstowcs` stores the string's characters, each widened unchanged and
/// none of them zero, up to `n`; a zero terminator follows exactly when
/// fewer than `n` were stored, so at most `n` wide characters are written.
pub proof fn lemma_mbstowcs_stores_characters(s: Seq<u8>, n: int)
    requires
        n >= 0,
    ensures
        ({
            let w = spec_mbstowcs(s, n);
            let count = if cstr_len(s) < n { cstr_len(s) } else { n };
            &&& w.len() <= n
            &&& forall|i: int| 0 <= i < count ==> w[i] == s[i] as u32 && w[i] != 0
            &&& (count < n <==> w.len() == count + 1)
            &&& count < n ==> w[count] == 0
            &&& count == n ==> w.len() == n
        }),
{
    crate::bytes::lemma_cstr_len_facts(s);
}

/// `wcstombs` stores the converted string followed by a NUL where it is
/// shorter than the room given, and never more than `n` bytes.
pub proof fn lemma_wcstombs_fits(converted: Seq<u8>, n: int)
    requires
        n == 0 || converted.len() <= n,
    ensures
        spec_wcstombs(converted, n).len() <= n,
        n > 0 ==> spec_wcstombs(converted, n).take(converted.len() as int) == converted,
        n > 0 && converted.len() < n ==> spec_wcstombs(converted, n).last() == 0,
{
    if n > 0 && converted.len() < n {
        assert(converted.push(0).take(converted.len() as int) =~= converted);
    }
    if n > 0 {
        assert(converted.take(converted.len() as int) =~= converted);
    }
}

} // verus!
