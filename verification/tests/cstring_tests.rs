use rusty_libc::cstring::{c_str_to_str, strcmp, strlen, strncmp, tolower, toupper};

fn c(s: &str) -> Vec<i8> {
    let mut v: Vec<i8> = s.bytes().map(|b| b as i8).collect();
    v.push(0);
    v
}

#[test]
fn strlen_counts_bytes_before_nul() {
    assert_eq!(strlen(&c("hello")), 5);
}

#[test]
fn strlen_of_empty_string_is_zero() {
    assert_eq!(strlen(&c("")), 0);
}

#[test]
fn strlen_stops_at_first_nul() {
    let s: [i8; 6] = [104, 105, 0, 106, 0, 7];
    assert_eq!(strlen(&s), 2);
}

#[test]
fn strcmp_equal_strings_give_zero() {
    assert_eq!(strcmp(&c("abc"), &c("abc")), 0);
    assert_eq!(strcmp(&c(""), &c("")), 0);
}

#[test]
fn strcmp_gives_difference_of_first_differing_bytes() {
    assert_eq!(strcmp(&c("abc"), &c("abd")), -1);
    assert_eq!(strcmp(&c("abd"), &c("abc")), 1);
    assert_eq!(strcmp(&c("a"), &c("z")), 97 - 122);
}

#[test]
fn strcmp_prefix_compares_with_nul() {
    assert_eq!(strcmp(&c("ab"), &c("abc")), -99);
    assert_eq!(strcmp(&c("abc"), &c("ab")), 99);
}

#[test]
fn strcmp_ignores_bytes_after_nul() {
    let a: [i8; 4] = [65, 0, 1, 2];
    let b: [i8; 4] = [65, 0, 9, 9];
    assert_eq!(strcmp(&a, &b), 0);
}

#[test]
fn strcmp_reads_only_up_to_the_stop() {
    let a: [i8; 2] = [120, 0];
    let b: [i8; 1] = [121];
    assert_eq!(strcmp(&a, &b), -1);
}

#[test]
fn strcmp_compares_bytes_as_unsigned_char() {
    // 0xC3 is -61 as a c_char and 195 as an unsigned char
    let a: [i8; 2] = [-61, 0];
    let b: [i8; 2] = [32, 0];
    assert_eq!(strcmp(&a, &b), 163);
    assert_eq!(strcmp(&b, &a), -163);
    let min: [i8; 2] = [-128, 0];
    assert_eq!(strcmp(&[0], &min), -128);
}

#[test]
fn strncmp_compares_bytes_as_unsigned_char() {
    let a: [i8; 2] = [-1, 0];
    let b: [i8; 2] = [1, 0];
    assert_eq!(strncmp(&a, &b, 1), 254);
}

#[test]
fn strcmp_orders_lexicographically() {
    assert!(strcmp(&c("apple"), &c("banana")) < 0);
    assert!(strcmp(&c("banana"), &c("apple")) > 0);
    assert!(strcmp(&c("app"), &c("apple")) < 0);
    let high: [i8; 2] = [-2, 0];
    assert!(strcmp(&high, &c("z")) > 0);
}

#[test]
fn strncmp_reads_only_first_n_bytes() {
    assert_eq!(strncmp(&c("abcX"), &c("abcY"), 3), strncmp(&c("abcQ"), &c("abcZ"), 3));
}

#[test]
fn strcmp_is_antisymmetric_on_examples() {
    let pairs = [("apple", "apricot"), ("", "x"), ("same", "same"), ("b", "a")];
    for (x, y) in pairs {
        assert_eq!(strcmp(&c(x), &c(y)), -strcmp(&c(y), &c(x)));
    }
}

#[test]
fn strcmp_zero_exactly_for_equal_contents() {
    assert_eq!(strcmp(&c("text"), &c("text")), 0);
    assert_ne!(strcmp(&c("text"), &c("texts")), 0);
    assert_ne!(strcmp(&c("tex"), &c("text")), 0);
}

#[test]
fn strncmp_with_zero_bound_is_zero() {
    assert_eq!(strncmp(&c("a"), &c("b"), 0), 0);
    let empty: [i8; 0] = [];
    assert_eq!(strncmp(&empty, &empty, 0), 0);
}

#[test]
fn strncmp_stops_at_bound() {
    assert_eq!(strncmp(&c("abcx"), &c("abcy"), 3), 0);
    assert_eq!(strncmp(&c("abcx"), &c("abcy"), 4), -1);
}

#[test]
fn strncmp_stops_at_nul_before_bound() {
    assert_eq!(strncmp(&c("ab"), &c("ab"), 10), 0);
    assert_eq!(strncmp(&c("ab"), &c("abc"), 10), -99);
}

#[test]
fn strncmp_accepts_unterminated_arrays_within_bound() {
    let a: [i8; 3] = [1, 2, 3];
    let b: [i8; 3] = [1, 2, 4];
    assert_eq!(strncmp(&a, &b, 2), 0);
    assert_eq!(strncmp(&a, &b, 3), -1);
}

#[test]
fn strncmp_with_large_bound_matches_strcmp() {
    for (x, y) in [("kiwi", "kiwis"), ("pear", "peach"), ("fig", "fig")] {
        assert_eq!(strncmp(&c(x), &c(y), 100), strcmp(&c(x), &c(y)));
    }
}

#[test]
fn toupper_maps_only_lower_case_letters() {
    assert_eq!(toupper('a' as i32), 'A' as i32);
    assert_eq!(toupper('z' as i32), 'Z' as i32);
    assert_eq!(toupper('m' as i32), 'M' as i32);
    assert_eq!(toupper('`' as i32), '`' as i32);
    assert_eq!(toupper('{' as i32), '{' as i32);
    assert_eq!(toupper('A' as i32), 'A' as i32);
    assert_eq!(toupper(-1), -1);
    assert_eq!(toupper(233), 233);
}

#[test]
fn tolower_maps_only_upper_case_letters() {
    assert_eq!(tolower('A' as i32), 'a' as i32);
    assert_eq!(tolower('Z' as i32), 'z' as i32);
    assert_eq!(tolower('@' as i32), '@' as i32);
    assert_eq!(tolower('[' as i32), '[' as i32);
    assert_eq!(tolower('q' as i32), 'q' as i32);
    assert_eq!(tolower(-1), -1);
}

#[test]
fn case_conversions_round_trip() {
    for ch in 0..256 {
        let up = toupper(ch);
        let low = tolower(ch);
        assert_eq!(toupper(up), up);
        assert_eq!(tolower(low), low);
        if (97..=122).contains(&ch) {
            assert_eq!(tolower(up), ch);
        }
        if (65..=90).contains(&ch) {
            assert_eq!(toupper(low), ch);
        }
    }
}

#[test]
fn c_str_to_str_of_null_is_empty() {
    assert_eq!(c_str_to_str(None), Vec::<u8>::new());
}

#[test]
fn c_str_to_str_takes_bytes_before_nul() {
    assert_eq!(c_str_to_str(Some(&c("hi"))), b"hi".to_vec());
    let s: [i8; 4] = [-61, -87, 0, 65];
    assert_eq!(c_str_to_str(Some(&s)), vec![0xC3u8, 0xA9]);
}
