use rusty_libc::printf::{printf, printf_accepts, printf_result, PrintfArg, PRINTF_BUFFER_SIZE};

#[test]
fn plain_text_is_copied() {
    assert_eq!(printf(b"hello, world\n", &[]), b"hello, world\n".to_vec());
}

#[test]
fn empty_format_gives_nothing() {
    assert_eq!(printf(b"", &[]), Vec::<u8>::new());
}

#[test]
fn string_conversion_inserts_argument() {
    assert_eq!(printf(b"<%s>", &[PrintfArg::Str(b"abc")]), b"<abc>".to_vec());
    assert_eq!(printf(b"%s", &[PrintfArg::Str(b"")]), Vec::<u8>::new());
}

#[test]
fn integer_conversions_print_decimal() {
    assert_eq!(printf(b"%d", &[PrintfArg::Int(0)]), b"0".to_vec());
    assert_eq!(printf(b"n=%d!", &[PrintfArg::Int(12345)]), b"n=12345!".to_vec());
    assert_eq!(printf(b"%i", &[PrintfArg::Int(7)]), b"7".to_vec());
    assert_eq!(printf(b"%d", &[PrintfArg::Int(i32::MAX)]), b"2147483647".to_vec());
    assert_eq!(printf(b"%d%d", &[PrintfArg::Int(10), PrintfArg::Int(200)]), b"10200".to_vec());
}

#[test]
fn negative_integers_get_a_minus_sign() {
    assert_eq!(printf(b"%d", &[PrintfArg::Int(-42)]), b"-42".to_vec());
    assert_eq!(printf(b"%i", &[PrintfArg::Int(-7)]), b"-7".to_vec());
    assert_eq!(printf(b"%d", &[PrintfArg::Int(i32::MIN)]), b"-2147483648".to_vec());
}

#[test]
fn percent_escapes() {
    assert_eq!(printf(b"100%%", &[]), b"100%".to_vec());
    assert_eq!(printf(b"50%", &[]), b"50%".to_vec());
    assert_eq!(printf(b"%x%q", &[]), b"%x%q".to_vec());
}

#[test]
fn extra_arguments_are_ignored() {
    assert_eq!(printf(b"%s", &[PrintfArg::Str(b"a"), PrintfArg::Int(3)]), b"a".to_vec());
}

#[test]
fn bytes_are_copied_unchanged() {
    assert_eq!(printf("\u{e9}".as_bytes(), &[]), vec![0xC3, 0xA9]);
    assert_eq!(printf(b"%s", &[PrintfArg::Str("\u{e9}".as_bytes())]), vec![0xC3, 0xA9]);
    assert_eq!(printf(b"%s", &[PrintfArg::Str(&[0xFF, 0x80])]), vec![0xFF, 0x80]);
}

#[test]
fn output_is_cut_at_buffer_size() {
    let long = "x".repeat(200);
    let out = printf(long.as_bytes(), &[]);
    assert_eq!(out.len(), PRINTF_BUFFER_SIZE);
    assert_eq!(PRINTF_BUFFER_SIZE, 128);
    let out = printf(b"%s-%d", &[PrintfArg::Str(long.as_bytes()), PrintfArg::Int(5)]);
    assert_eq!(out, "x".repeat(128).into_bytes());
}

#[test]
fn unknown_conversion_at_last_slot_keeps_percent_only() {
    let mut format = "y".repeat(127);
    format.push_str("%q");
    let out = printf(format.as_bytes(), &[]);
    assert_eq!(out.len(), 128);
    assert_eq!(out[127], b'%');
}

#[test]
fn digits_are_cut_at_buffer_size() {
    let format = format!("{}%d", "z".repeat(125));
    let out = printf(format.as_bytes(), &[PrintfArg::Int(98765)]);
    assert_eq!(&out[125..], b"987");
    let out = printf(format.as_bytes(), &[PrintfArg::Int(-98765)]);
    assert_eq!(&out[125..], b"-98");
}

#[test]
fn printf_result_is_count_or_eof() {
    assert_eq!(printf_result(Ok(5)), 5);
    assert_eq!(printf_result(Ok(2)), 2);
    assert_eq!(printf_result(Err(2)), -1);
}

#[test]
fn printf_accepts_matching_arguments() {
    assert!(printf_accepts(b"%s and %d", &[PrintfArg::Str(b"a"), PrintfArg::Int(1)]));
    assert!(printf_accepts(b"no conversions %% %q", &[]));
    assert!(printf_accepts(b"trailing %", &[]));
    assert!(printf_accepts(b"%i", &[PrintfArg::Int(-4)]));
    assert!(!printf_accepts(b"%d", &[]));
    assert!(!printf_accepts(b"%d", &[PrintfArg::Str(b"x")]));
    assert!(!printf_accepts(b"%s", &[PrintfArg::Int(1)]));
}
