use rusty_libc::memory::{bcmp, memcmp, memcpy, memset};

#[test]
fn memcpy_copies_prefix_and_keeps_rest() {
    let mut dest = [0u8; 6];
    let src = [1u8, 2, 3, 4];
    memcpy(&mut dest, &src, 3);
    assert_eq!(dest, [1, 2, 3, 0, 0, 0]);
}

#[test]
fn memcpy_of_zero_bytes_changes_nothing() {
    let mut dest = [9u8; 3];
    memcpy(&mut dest, &[], 0);
    assert_eq!(dest, [9, 9, 9]);
}

#[test]
fn memcpy_long_copy() {
    let mut dest = [0u8; 10];
    let src: Vec<u8> = (1..=10).collect();
    memcpy(&mut dest, &src, 8);
    assert_eq!(&dest[..8], &src[..8]);
    assert_eq!(&dest[8..], &[0, 0]);
}

#[test]
fn memset_fills_with_low_byte() {
    let mut s = [7u8; 5];
    memset(&mut s, 0x141, 3);
    assert_eq!(s, [0x41, 0x41, 0x41, 7, 7]);
}

#[test]
fn memset_negative_value_truncates() {
    let mut s = [0u8; 9];
    memset(&mut s, -1, 9);
    assert_eq!(s, [0xFF; 9]);
}

#[test]
fn memcmp_equal_regions_give_zero() {
    assert_eq!(memcmp(&[1, 2, 3], &[1, 2, 3], 3), 0);
    assert_eq!(memcmp(&[], &[], 0), 0);
}

#[test]
fn memcmp_compares_unsigned_bytes() {
    assert_eq!(memcmp(&[1, 200], &[1, 100], 2), 100);
    assert_eq!(memcmp(&[1, 100], &[1, 200], 2), -100);
    assert_eq!(memcmp(&[0], &[255], 1), -255);
}

#[test]
fn memcmp_looks_at_first_n_bytes_only() {
    assert_eq!(memcmp(&[1, 2, 3], &[1, 2, 4], 2), 0);
    assert_eq!(memcmp(&[1, 9], &[2], 5), -1);
}

#[test]
fn bcmp_agrees_with_memcmp() {
    let a = [3u8, 4, 5];
    let b = [3u8, 4, 6];
    assert_eq!(bcmp(&a, &b, 3), memcmp(&a, &b, 3));
    assert_eq!(bcmp(&a, &a, 3), 0);
}

#[test]
fn memcmp_is_antisymmetric_on_examples() {
    let a = [10u8, 20, 30];
    let b = [10u8, 25, 0];
    assert_eq!(memcmp(&a, &b, 3), -memcmp(&b, &a, 3));
}

#[test]
fn copy_then_compare_gives_zero() {
    let mut dest = [0u8; 12];
    let src: Vec<u8> = (100..112).collect();
    memcpy(&mut dest, &src, 12);
    assert_eq!(memcmp(&dest, &src, 12), 0);
}
