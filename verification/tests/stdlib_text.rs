use lib::bytes::{bytes_eq, copy_bytes, decode_utf8_chars, strlen};
use lib::libc::stdlib::bsearch::BsearchState;
use lib::libc::stdlib::multibyte::{mbstowcs, mbtowc_l, wcstombs};
use lib::libc::stdlib::radix::{digits_value_up_to, is_digit};
use lib::libc::stdlib::scan::{count_whitespace_generic, scan_float, scan_int};
use lib::libc::stdlib::system::{is_whitespace, mkdir_status, system, system_command, SystemAction};

fn mbstowcs_cleared(s: &[u8], n: u32) -> (u32, Vec<u32>) {
    let mut errno = 99;
    let r = mbstowcs(s, n, &mut errno);
    assert_eq!(errno, 0);
    r
}

fn chars(s: &str) -> Vec<char> {
    s.chars().collect()
}

#[test]
fn byte_helpers() {
    assert!(bytes_eq(b"abc", b"abc"));
    assert!(!bytes_eq(b"abc", b"abd"));
    assert!(!bytes_eq(b"ab", b"abc"));
    assert_eq!(copy_bytes(b"xyz"), b"xyz".to_vec());
    assert_eq!(strlen(b"abc\0def"), 3);
    assert_eq!(strlen(b"\0"), 0);
}

#[test]
fn radix_digits() {
    assert!(is_digit(b'a', 16));
    assert!(is_digit(b'F', 16));
    assert!(!is_digit(b'g', 16));
    assert!(is_digit(b'7', 8));
    assert!(!is_digit(b'8', 8));
    assert!(is_digit(b'z', 36));
    assert!(!is_digit(b' ', 36));
    assert_eq!(digits_value_up_to(b"ff", 16, 1000), Some(255));
    assert_eq!(digits_value_up_to(b"ffff", 16, 1000), None);
    assert_eq!(digits_value_up_to(b"", 10, 0), Some(0));
    assert_eq!(digits_value_up_to(b"1000", 10, 1000), Some(1000));
}

#[test]
fn whitespace_counting() {
    assert_eq!(count_whitespace_generic(b"  \t5", 0), Ok(3));
    assert_eq!(count_whitespace_generic(b"   ", 0), Err(3));
    assert_eq!(count_whitespace_generic(b"x", 5), Err(0));
    assert_eq!(count_whitespace_generic(b"a \x0bb", 1), Ok(2));
}

#[test]
fn float_literal_extent() {
    let r = scan_float(b"  -1.5e3x", 0);
    assert_eq!((r.whitespace_len, r.len), (2, 6));
    let r = scan_float(b"abc", 0);
    assert_eq!((r.whitespace_len, r.len), (0, 0));
    let r = scan_float(b"1e+", 0);
    assert_eq!((r.whitespace_len, r.len), (0, 3));
    let r = scan_float(b".5\0", 0);
    assert_eq!((r.whitespace_len, r.len), (0, 2));
    let r = scan_float(b"   ", 0);
    assert_eq!((r.whitespace_len, r.len), (3, 0));
}

#[test]
fn integer_scan_phases() {
    let r = scan_int(b" -0x1f\0", 0, 0, u32::MAX);
    assert_eq!(r.whitespace_len, 1);
    assert!(r.negative);
    assert_eq!(r.base, 16);
    assert_eq!(r.prefix_length, 3);
    assert_eq!(r.len, 5);
    assert_eq!((r.digits_start, r.digits_len), (4, 2));
    let r = scan_int(b"777\0", 0, 0, u32::MAX);
    assert_eq!(r.base, 10);
    assert_eq!((r.len, r.prefix_length), (3, 0));
}

#[test]
fn mbtowc_decodes_utf8() {
    assert_eq!(mbtowc_l(None, 3), (0, None));
    assert_eq!(mbtowc_l(Some(b"a"), 0), (-1, None));
    assert_eq!(mbtowc_l(Some(b"\0abc"), 5), (0, Some(0)));
    assert_eq!(mbtowc_l(Some(b"A"), 1), (1, Some(65)));
    assert_eq!(mbtowc_l(Some(&[0xc3, 0xa9]), 2), (2, Some(0xe9)));
    assert_eq!(mbtowc_l(Some(&[0xc3, 0xa9]), 1), (-1, None));
    assert_eq!(mbtowc_l(Some("€".as_bytes()), 3), (3, Some(0x20ac)));
    assert_eq!(mbtowc_l(Some(&[0xf0, 0x9f, 0x98, 0x80]), 4), (4, Some(0x1f600)));
    assert_eq!(mbtowc_l(Some(&[0xff, 0x41, 0x41, 0x41]), 4), (-1, None));
    assert_eq!(mbtowc_l(Some(&[0xe2, 0x28, 0xa1]), 3), (-1, None));
    assert_eq!(mbtowc_l(Some(&[0x80, 0x41]), 2), (-1, None));
}

#[test]
fn mbstowcs_widens_bytes() {
    assert_eq!(mbstowcs_cleared(b"hi\0", 10), (2, vec![0x68, 0x69, 0]));
    assert_eq!(mbstowcs_cleared(b"hello\0", 3), (3, vec![0x68, 0x65, 0x6c]));
    assert_eq!(mbstowcs_cleared(b"ab\0", 2), (2, vec![0x61, 0x62]));
    assert_eq!(mbstowcs_cleared(b"\0", 0), (0, vec![]));
}

#[test]
fn wcstombs_stores_bytes() {
    assert_eq!(wcstombs(b"hi", 10), (2, b"hi\0".to_vec()));
    assert_eq!(wcstombs(b"hi", 2), (2, b"hi".to_vec()));
    assert_eq!(wcstombs(b"whatever", 0), (0, vec![]));
}

#[test]
fn system_commands() {
    assert_eq!(system(None), SystemAction::Status(1));
    assert_eq!(system(Some(&chars(""))), SystemAction::Status(0));
    assert_eq!(system(Some(&chars("   "))), SystemAction::Status(0));
    assert_eq!(system(Some(&chars("  mkdir -p /a/b "))), SystemAction::Mkdir(chars("/a/b")));
    assert_eq!(system(Some(&chars("mkdir -p"))), SystemAction::Status(1));
    assert_eq!(system(Some(&chars("mkdir"))), SystemAction::Status(1));
    assert_eq!(system(Some(&chars("mkdir x y"))), SystemAction::Mkdir(chars("x")));
    assert_eq!(system(Some(&chars("ls -l"))), SystemAction::Status(0));
    assert_eq!(system(Some(&chars("mkdirx a"))), SystemAction::Status(0));
    assert_eq!(
        system(Some(&chars("\u{3000}mkdir\u{a0}-v\tdir"))),
        SystemAction::Mkdir(chars("dir"))
    );
    assert_eq!(mkdir_status(true), 0);
    assert_eq!(mkdir_status(false), 1);
}

#[test]
fn whitespace_matches_std() {
    for c in [' ', '\t', '\n', '\u{85}', '\u{a0}', '\u{2028}', '\u{3000}', 'a', '-', '\0'] {
        assert_eq!(is_whitespace(c), c.is_whitespace(), "{:?}", c);
    }
}

fn run_bsearch(items: &[i32], key: i32) -> Option<u32> {
    let mut state = BsearchState::new(items.len() as u32);
    while let Some(i) = state.probe() {
        let item = items[i as usize];
        let result = if key < item { -1 } else if key == item { 0 } else { 1 };
        if let Some(found) = state.advance(result) {
            return Some(found);
        }
    }
    None
}

#[test]
fn bsearch_finds_present_keys() {
    let items = [1, 3, 5, 7, 9];
    assert_eq!(run_bsearch(&items, 7), Some(3));
    assert_eq!(run_bsearch(&items, 1), Some(0));
    assert_eq!(run_bsearch(&items, 9), Some(4));
    assert_eq!(run_bsearch(&items, 5), Some(2));
}

#[test]
fn bsearch_reports_absent_keys() {
    let items = [1, 3, 5, 7, 9];
    assert_eq!(run_bsearch(&items, 4), None);
    assert_eq!(run_bsearch(&items, 0), None);
    assert_eq!(run_bsearch(&items, 10), None);
    assert_eq!(run_bsearch(&[], 1), None);
}

#[test]
fn bsearch_probe_and_advance() {
    let mut s = BsearchState::new(5);
    assert_eq!(s.probe(), Some(2));
    assert_eq!(s.advance(1), None);
    assert_eq!((s.low, s.len), (3, 2));
    assert_eq!(s.probe(), Some(4));
    assert_eq!(s.advance(-5), None);
    assert_eq!((s.low, s.len), (3, 1));
    assert_eq!(s.advance(0), Some(3));
}

#[test]
fn mbtowc_reads_back_encoded_characters() {
    for c in ['a', 'ß', 'é', '€', '中', '😀', '\u{7ff}', '\u{800}', '\u{10000}', '\u{10ffff}'] {
        let mut buf = [0u8; 4];
        let encoded = c.encode_utf8(&mut buf).as_bytes().to_vec();
        let mut padded = encoded.clone();
        padded.resize(4, b'z');
        assert_eq!(mbtowc_l(Some(&padded), 4), (encoded.len() as i32, Some(c as u32)), "{:?}", c);
    }
}

#[test]
fn utf8_decoding() {
    for text in ["", "mkdir", "héllo wörld", "日本語", "😀 \u{7f} \u{800} \u{10ffff}"] {
        assert_eq!(decode_utf8_chars(text.as_bytes()), text.chars().collect::<Vec<_>>());
    }
}

#[test]
fn system_on_c_strings() {
    assert_eq!(system_command(None), SystemAction::Status(1));
    assert_eq!(system_command(Some(b"mkdir -p /a/b\0")), SystemAction::Mkdir(chars("/a/b")));
    assert_eq!(system_command(Some("mkdir /dé\0junk".as_bytes())), SystemAction::Mkdir(chars("/dé")));
    assert_eq!(system_command(Some(b"mkdir \xff\0")), SystemAction::Status(0));
    assert_eq!(system_command(Some(b"mkdir\0 x")), SystemAction::Status(1));
    assert_eq!(system_command(Some(b"\0")), SystemAction::Status(0));
    assert_eq!(system_command(Some(b"ls\0")), SystemAction::Status(0));
}
