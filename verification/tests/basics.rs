use lib::bstr::{bytes_eq, ends_with, starts_with, trim_bounds};
use lib::fmt::{decimal_bytes, hex_digits};
use lib::le::{get_u16_le, get_u32_le, get_u64_le, push_u64_le, write_u32_le};
use lib::num::{saturating_mul_u64, saturating_mul_usize};
use lib::text::{is_valid_utf8, lossy_bytes, string_from_bytes_lossy};
use lib::uaccess::{copyin, copyout, map_zeroed, validate_user_range, UserCopyError, UserMemory};

#[test]
fn decimal_and_hex_digits() {
    assert_eq!(decimal_bytes(0), b"0".to_vec());
    assert_eq!(decimal_bytes(1234567890), b"1234567890".to_vec());
    assert_eq!(decimal_bytes(u64::MAX), b"18446744073709551615".to_vec());
    assert_eq!(hex_digits(0xbeef, 4), b"beef".to_vec());
    assert_eq!(hex_digits(0x2a, 6), b"00002a".to_vec());
    assert_eq!(hex_digits(0x1234, 2), b"34".to_vec());
}

#[test]
fn little_endian_round_trip() {
    let mut v = Vec::new();
    push_u64_le(&mut v, 0x0102_0304_0506_0708);
    assert_eq!(v, vec![8, 7, 6, 5, 4, 3, 2, 1]);
    assert_eq!(get_u64_le(&v, 0), 0x0102_0304_0506_0708);
    assert_eq!(get_u32_le(&v, 4), 0x0102_0304);
    assert_eq!(get_u16_le(&v, 1), 0x0607);
    assert_eq!(write_u32_le(0xdead_beef), [0xef, 0xbe, 0xad, 0xde]);
}

#[test]
fn byte_string_helpers() {
    assert!(starts_with(b"/proc/version", b"/proc"));
    assert!(!starts_with(b"/pr", b"/proc"));
    assert!(ends_with(b"init.elf", b".elf"));
    assert!(bytes_eq(b"abc", b"abc"));
    assert!(!bytes_eq(b"abc", b"abd"));
    assert_eq!(trim_bounds(b"  hi \n"), (2, 4));
}

#[test]
fn saturating_products() {
    assert_eq!(saturating_mul_u64(1 << 40, 1 << 30), u64::MAX);
    assert_eq!(saturating_mul_u64(6, 7), 42);
    assert_eq!(saturating_mul_usize(usize::MAX, 2), usize::MAX);
}

#[test]
fn lossy_text_replaces_invalid_bytes() {
    assert_eq!(string_from_bytes_lossy(b"ok"), "ok");
    assert_eq!(string_from_bytes_lossy(&[0x66, 0xff, 0x67]), "f\u{fffd}g");
    assert_eq!(lossy_bytes(&[0xff]), "\u{fffd}".as_bytes().to_vec());
    assert!(is_valid_utf8("h\u{e9}".as_bytes()));
    assert!(!is_valid_utf8(&[0xc3]));
}

#[test]
fn user_range_errors() {
    assert_eq!(validate_user_range(0x1000, 0), Ok(()));
    assert_eq!(validate_user_range(0, 1), Err(UserCopyError::NullPointer));
    assert_eq!(validate_user_range(u64::MAX, 2), Err(UserCopyError::RangeOverflow));
    assert_eq!(validate_user_range(0x8000_0000_0000, 1), Err(UserCopyError::NonCanonical));
    assert_eq!(validate_user_range(0x1000, 0x10_0001), Err(UserCopyError::TooLarge));
    assert_eq!(UserCopyError::TooLarge.as_errno(), 34);
    assert_eq!(UserCopyError::NullPointer.as_errno(), 14);
}

#[test]
fn user_memory_copies() {
    let mut mem = UserMemory { base: 0x1000, bytes: vec![0u8; 16] };
    assert_eq!(copyout(&mut mem, b"abc", 0x1004), Ok(()));
    let mut out = [0u8; 3];
    assert_eq!(copyin(&mem, 0x1004, &mut out), Ok(()));
    assert_eq!(&out, b"abc");
    assert_eq!(copyout(&mut mem, b"abc", 0x100f), Err(UserCopyError::Unmapped));
    let mut far = [0u8; 1];
    assert_eq!(copyin(&mem, 0x0800, &mut far), Err(UserCopyError::Unmapped));
}

#[test]
fn mapping_zero_pages() {
    let mut mem = UserMemory { base: 0x10000, bytes: vec![7u8; 10] };
    assert_eq!(map_zeroed(&mut mem, 100), Some(0x10000 + 4096));
    assert_eq!(mem.bytes.len(), 4096 + 100);
    assert!(mem.bytes[10..].iter().all(|b| *b == 0));
    assert_eq!(mem.bytes[9], 7);
}
