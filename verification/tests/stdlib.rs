use lib::libc::stdlib as c;
use lib::libc::stdlib::env_vars::{EnvVars, EINVAL};
use lib::libc::stdlib::{
    div, fcvt_digits, flistxattr, fsetxattr, listxattr, prng, read_cstr_safe, reallocf_frees_old,
    realpath, setxattr, str_to_int_inner_generic, strtol_inner, FreePlan, ReallocPlan, State,
    ENOATTR, NSZoneMalloc, NSZoneRealloc, RAND_MAX,
};

/// Runs a call that clears `errno`, checking that it does.
fn cleared<T>(f: impl FnOnce(&mut i32) -> T) -> T {
    let mut errno = 99;
    let r = f(&mut errno);
    assert_eq!(errno, 0);
    r
}

fn strtol(s: &[u8], base: i32) -> (i32, u32) {
    cleared(|e| c::strtol(s, base, e))
}

fn strtoul(s: &[u8], base: i32) -> (u32, u32) {
    cleared(|e| c::strtoul(s, base, e))
}

fn strtoull(s: &[u8], base: i32) -> (u64, u32) {
    cleared(|e| c::strtoull(s, base, e))
}

fn atoi(s: &[u8]) -> i32 {
    cleared(|e| c::atoi(s, e))
}

fn atol(s: &[u8]) -> i32 {
    cleared(|e| c::atol(s, e))
}

fn malloc(size: u32) -> u32 {
    cleared(|e| c::malloc(size, e))
}

fn calloc(count: u32, size: u32) -> u32 {
    cleared(|e| c::calloc(count, size, e))
}

fn realloc(ptr_is_null: bool, size: u32) -> ReallocPlan {
    cleared(|e| c::realloc(ptr_is_null, size, e))
}

fn reallocf(ptr_is_null: bool, size: u32) -> ReallocPlan {
    cleared(|e| c::reallocf(ptr_is_null, size, e))
}

#[test]
fn strtol_skips_white_space_and_reads_sign() {
    assert_eq!(strtol(b"  -42abc\0", 10), (-42, 5));
    assert_eq!(strtol(b"  +7\0", 10), (7, 4));
    assert_eq!(strtol(b"\t\n12 34\0", 10), (12, 4));
}

#[test]
fn strtol_detects_radix() {
    assert_eq!(strtol(b"0x1A\0", 0), (26, 4));
    assert_eq!(strtol(b"0X1a\0", 0), (26, 4));
    assert_eq!(strtol(b"010\0", 0), (8, 3));
    assert_eq!(strtol(b"0\0", 0), (0, 1));
    assert_eq!(strtol(b"19\0", 0), (19, 2));
}

#[test]
fn strtol_explicit_radix() {
    assert_eq!(strtol(b"zz\0", 36), (1295, 2));
    assert_eq!(strtol(b"0x\0", 16), (0, 0));
    assert_eq!(strtol(b"0xg\0", 16), (0, 0));
    assert_eq!(strtol(b"ff\0", 16), (255, 2));
    assert_eq!(strtol(b"0xff\0", 16), (255, 4));
    assert_eq!(strtol(b"1012\0", 2), (5, 3));
    assert_eq!(strtol(b"08\0", 8), (0, 1));
}

#[test]
fn strtol_without_number() {
    assert_eq!(strtol(b"abc\0", 10), (0, 0));
    assert_eq!(strtol(b"   \0", 10), (0, 0));
    assert_eq!(strtol(b"-\0", 10), (0, 0));
    assert_eq!(strtol_inner(b"x\0", 10), Err(()));
}

#[test]
fn strtol_saturates() {
    assert_eq!(strtol(b"99999999999\0", 10), (i32::MAX, 11));
    assert_eq!(strtol(b"-99999999999\0", 10), (-2147483647, 12));
    assert_eq!(strtol(b"2147483647\0", 10), (i32::MAX, 10));
    assert_eq!(strtol(b"-2147483647\0", 10), (-2147483647, 11));
}

#[test]
fn atoi_and_atol() {
    assert_eq!(atoi(b"123\0"), 123);
    assert_eq!(atoi(b" -5x\0"), -5);
    assert_eq!(atoi(b"x\0"), 0);
    assert_eq!(atoi(b"0x10\0"), 0);
    assert_eq!(atol(b"77\0"), 77);
}

#[test]
fn strtoul_wraps_negation() {
    assert_eq!(strtoul(b"-1\0", 10), (u32::MAX, 2));
    assert_eq!(strtoul(b"4294967295\0", 10), (u32::MAX, 10));
    assert_eq!(strtoul(b"4294967296\0", 10), (u32::MAX, 10));
    assert_eq!(strtoul(b"0x10\0", 0), (16, 4));
    assert_eq!(strtoul(b"nothing\0", 0), (0, 0));
}

#[test]
fn strtoull_saturates_and_wraps() {
    assert_eq!(strtoull(b"18446744073709551616\0", 10), (u64::MAX, 20));
    assert_eq!(strtoull(b"-2\0", 10), (u64::MAX - 1, 2));
    assert_eq!(strtoull(b"4294967296\0", 10), (4294967296, 10));
}

#[test]
fn generic_conversion_respects_length_limit() {
    assert_eq!(str_to_int_inner_generic::<i32>(b"12345", 0, 10, 3), Ok((123, 3)));
    assert_eq!(str_to_int_inner_generic::<u32>(b"0x5", 0, 16, 1), Ok((u32::MAX, 1)));
    assert_eq!(str_to_int_inner_generic::<u32>(b"0x5", 0, 16, 2), Ok((u32::MAX, 2)));
    assert_eq!(str_to_int_inner_generic::<u64>(b"ab 77\0", 2, 8, 0), Ok((63, 3)));
    assert_eq!(str_to_int_inner_generic::<i32>(b"-", 0, 10, 0), Err(()));
}

#[test]
fn div_rounds_toward_zero() {
    let r = div(7, 2);
    assert_eq!((r.quot, r.rem), (3, 1));
    let r = div(-7, 2);
    assert_eq!((r.quot, r.rem), (-3, -1));
    let r = div(7, -2);
    assert_eq!((r.quot, r.rem), (-3, 1));
    let r = div(-7, -2);
    assert_eq!((r.quot, r.rem), (3, -1));
    let r = div(i32::MIN, -1);
    assert_eq!((r.quot, r.rem), (i32::MIN, 0));
    let r = div(i32::MIN, 1);
    assert_eq!((r.quot, r.rem), (i32::MIN, 0));
}

#[test]
fn fcvt_digits_drops_point() {
    assert_eq!(fcvt_digits(b"3.14"), (b"314".to_vec(), 1));
    assert_eq!(fcvt_digits(b"0.50"), (b"50".to_vec(), 0));
    assert_eq!(fcvt_digits(b"12"), (b"12".to_vec(), 2));
    assert_eq!(fcvt_digits(b"0"), (b"0".to_vec(), 1));
    assert_eq!(fcvt_digits(b"120.5"), (b"1205".to_vec(), 3));
}

#[test]
fn realpath_joins_components() {
    let comps = vec![b"var".to_vec(), b"mobile".to_vec()];
    assert_eq!(realpath(&comps), b"/var/mobile\0".to_vec());
    assert_eq!(realpath(&Vec::new()), b"/\0".to_vec());
    assert_eq!(realpath(&vec![b"a".to_vec()]), b"/a\0".to_vec());
}

#[test]
fn putenv_checks_string() {
    let mut errno = 5;
    assert_eq!(c::putenv(None, &mut errno), -1);
    assert_eq!(errno, EINVAL);
    errno = 5;
    assert_eq!(c::putenv(Some(b"TZ=UTC\0"), &mut errno), 0);
    assert_eq!(errno, 5);
    assert_eq!(c::putenv(Some(&[0xff, 0x00]), &mut errno), -1);
    assert_eq!(errno, EINVAL);
}

#[test]
fn read_cstr_safe_texts() {
    assert_eq!(read_cstr_safe(None), b"(null)".to_vec());
    assert_eq!(read_cstr_safe(Some(b"hi\0x")), b"hi".to_vec());
    assert_eq!(read_cstr_safe(Some(&[0xc3, 0x28, 0x00])), b"(invalid utf-8)".to_vec());
    assert_eq!(read_cstr_safe(Some("é\0".as_bytes())), "é".as_bytes().to_vec());
    assert_eq!(read_cstr_safe(Some(&[0xed, 0xa0, 0x80, 0x00])), b"(invalid utf-8)".to_vec());
    assert_eq!(read_cstr_safe(Some(&[0xc0, 0xaf, 0x00])), b"(invalid utf-8)".to_vec());
    assert_eq!(read_cstr_safe(Some(&[0xf4, 0x90, 0x80, 0x80, 0x00])), b"(invalid utf-8)".to_vec());
}

#[test]
fn xattr_stubs() {
    assert_eq!(setxattr(), 0);
    assert_eq!(fsetxattr(), 0);
    for f in [c::getxattr as fn(&mut i32) -> i32, c::fgetxattr, c::removexattr, c::fremovexattr] {
        let mut errno = 0;
        assert_eq!(f(&mut errno), -1);
        assert_eq!(errno, ENOATTR);
    }
    assert_eq!(listxattr(false, 16), (0, true));
    assert_eq!(listxattr(true, 16), (0, false));
    assert_eq!(flistxattr(false, 0), (0, false));
}

#[test]
fn allocation_sizes() {
    assert_eq!(malloc(0), 1);
    assert_eq!(malloc(5), 5);
    assert_eq!(NSZoneMalloc(0), 1);
    assert_eq!(calloc(3, 4), 12);
    assert_eq!(calloc(0, 4), 1);
    assert_eq!(realloc(true, 0), ReallocPlan::Allocate(1));
    assert_eq!(realloc(false, 8), ReallocPlan::Resize(8));
    assert_eq!(reallocf(false, 0), ReallocPlan::Resize(1));
    assert_eq!(NSZoneRealloc(9), 9);
    assert!(reallocf_frees_old(true));
    assert!(!reallocf_frees_old(false));
    let mut errno = 7;
    assert_eq!(c::free(true, false, &mut errno), FreePlan::DeallocObject);
    assert_eq!(errno, 7);
    assert_eq!(c::free(false, true, &mut errno), FreePlan::Nothing);
    assert_eq!(errno, 0);
    assert_eq!(cleared(|e| c::free(false, false, e)), FreePlan::Free);
}

#[test]
fn prng_steps() {
    assert_eq!(prng(0), 270369);
    assert_eq!(prng(1), 270369);
    assert_eq!(prng(270369), 67634689);
    assert_eq!(prng(67634689), 2647435461);
    assert_eq!(prng(42), 11355432);
    assert_ne!(prng(u32::MAX), 0);
}

#[test]
fn rand_sequence_and_reseed() {
    let mut s = State::default();
    assert_eq!(s.rand(), 270369);
    assert_eq!(s.rand(), 67634689);
    assert_eq!(s.rand(), 499951813);
    assert!(s.rand() <= RAND_MAX);
    s.srand(0);
    assert_eq!(s.rand(), 270369);
    assert_eq!(s.random, 0);
    assert_eq!(s.arc4random, 0);
}

#[test]
fn random_is_independent_of_rand() {
    let mut s = State::default();
    s.srand(42);
    assert_eq!(cleared(|e| s.random(e)), 270369);
    cleared(|e| s.srandom(42, e));
    assert_eq!(cleared(|e| s.random(e)), 11355432);
    assert_eq!(s.rand, 42);
}

#[test]
fn arc4random_returns_full_state() {
    let mut s = State::default();
    assert_eq!(s.arc4random(), 270369);
    assert_eq!(s.arc4random_stir(), 67634689);
    assert_eq!(s.arc4random_addrandom(), 2647435461);
    assert_eq!(s.rand, 0);
}

#[test]
fn sranddev_seeds_rand_from_arc4random() {
    let mut s = State::default();
    let seed = s.sranddev();
    assert_eq!(seed, 270369);
    assert_eq!(s.rand, 270369);
    assert_eq!(s.rand(), 67634689);
    assert_eq!(s.arc4random(), 67634689);
}

#[test]
fn env_vars_set_get_unset() {
    let mut e = EnvVars::new();
    assert_eq!(e.getenv(b"HOME"), None);
    assert_eq!(cleared(|er| e.setenv(b"HOME", b"/var/mobile", 0, er)), 0);
    assert_eq!(e.getenv(b"HOME"), Some(&b"/var/mobile"[..]));
    assert_eq!(cleared(|er| e.setenv(b"HOME", b"/tmp", 0, er)), 0);
    assert_eq!(e.getenv(b"HOME"), Some(&b"/var/mobile"[..]));
    assert_eq!(cleared(|er| e.setenv(b"HOME", b"/tmp", 1, er)), 0);
    assert_eq!(e.getenv(b"HOME"), Some(&b"/tmp"[..]));
    assert_eq!(cleared(|er| e.setenv(b"LANG", b"C", 1, er)), 0);
    assert_eq!(cleared(|er| e.unsetenv(b"HOME", er)), 0);
    assert_eq!(e.getenv(b"HOME"), None);
    assert_eq!(e.getenv(b"LANG"), Some(&b"C"[..]));
    let mut errno = 0;
    assert_eq!(e.unsetenv(b"HOME", &mut errno), -1);
    assert_eq!(errno, EINVAL);
}

#[test]
fn unsetenv_undoes_setenv() {
    let mut e = EnvVars::new();
    cleared(|er| e.setenv(b"KEEP", b"1", 0, er));
    cleared(|er| e.setenv(b"TEMP", b"x", 0, er));
    assert_eq!(cleared(|er| e.unsetenv(b"TEMP", er)), 0);
    assert_eq!(e.getenv(b"TEMP"), None);
    assert_eq!(e.getenv(b"KEEP"), Some(&b"1"[..]));
}

#[test]
fn cxa_atexit_reports_success() {
    assert_eq!(lib::libc::cxxabi::__cxa_atexit(), 0);
}

#[test]
fn div_reconstructs_dividend() {
    for (n, d) in [(7, 2), (-7, 2), (7, -2), (-7, -2), (0, 5), (i32::MIN, 3), (i32::MAX, -1), (5, 7)] {
        let r = div(n, d);
        assert_eq!(r.quot as i64 * d as i64 + r.rem as i64, n as i64);
        assert!((r.rem as i64).abs() < (d as i64).abs());
    }
}

#[test]
fn strtol_reads_digit_runs_in_any_radix() {
    assert_eq!(strtol(b"-777x\0", 8), (-511, 4));
    assert_eq!(strtol(b"7fz\0", 16), (127, 2));
    assert_eq!(strtol(b"0g\0", 16), (0, 0));
    assert_eq!(strtol(b"05g\0", 16), (5, 2));
    assert_eq!(strtol(b"yz!\0", 36), (34 * 36 + 35, 2));
}
