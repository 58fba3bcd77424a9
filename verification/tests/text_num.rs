use writeonce::clock::{secs_or_zero, usec_from, usec_or_zero};
use writeonce::num::{decimal_string, parse_u32_str, parse_u64_str};
use writeonce::text::{chars_of, join_path_str, trim_str, vec_lex_lt, ws_tokens_vec};

#[test]
fn decimal_text_reads_back() {
    for n in [0u64, 7, 10, 4242, u32::MAX as u64, u64::MAX] {
        let s = decimal_string(n);
        assert_eq!(s, n.to_string());
        assert_eq!(parse_u64_str(&s), Some(n));
    }
}

#[test]
fn numbers_parse_as_std_does() {
    assert_eq!(parse_u32_str("42"), Some(42));
    assert_eq!(parse_u32_str("+7"), Some(7));
    assert_eq!(parse_u32_str("4294967295"), Some(u32::MAX));
    assert_eq!(parse_u32_str("4294967296"), None);
    assert_eq!(parse_u32_str(""), None);
    assert_eq!(parse_u32_str(" 1"), None);
    assert_eq!(parse_u32_str("-1"), None);
    assert_eq!(parse_u64_str("18446744073709551615"), Some(u64::MAX));
    assert_eq!(parse_u64_str("18446744073709551616"), None);
}

#[test]
fn text_helpers() {
    assert_eq!(trim_str(" \t a b \n"), "a b");
    assert_eq!(join_path_str("/mnt/root", "boot/efi"), "/mnt/root/boot/efi");
    assert_eq!(join_path_str("/mnt/root/", "etc"), "/mnt/root/etc");
    assert_eq!(join_path_str("/mnt/root", "/abs"), "/abs");
    assert_eq!(join_path_str("", "rel"), "rel");
    let toks: Vec<String> = ws_tokens_vec(&chars_of("  a  bc\td ")).iter().map(|t| t.iter().collect()).collect();
    assert_eq!(toks, vec!["a", "bc", "d"]);
    assert!(vec_lex_lt(&chars_of("abc"), &chars_of("abd")));
    assert!(vec_lex_lt(&chars_of("ab"), &chars_of("abc")));
    assert!(!vec_lex_lt(&chars_of("b"), &chars_of("abc")));
    assert!(!vec_lex_lt(&chars_of("same"), &chars_of("same")));
}

#[test]
fn microseconds_of_a_reading() {
    assert_eq!(usec_from(2, 999_999_999), 2_999_999);
    assert_eq!(usec_from(1_700_000_000, 1_500), 1_700_000_000_000_001);
    let d = std::time::Duration::new(u64::MAX, 999_999_999);
    assert_eq!(usec_from(u64::MAX, 999_999_999), d.as_micros() as u64);
}

#[test]
fn clock_readings_before_the_epoch_count_as_zero() {
    assert_eq!(secs_or_zero(None), 0);
    assert_eq!(secs_or_zero(Some((1_700_000_000, 999))), 1_700_000_000);
    assert_eq!(usec_or_zero(None), 0);
    assert_eq!(usec_or_zero(Some((2, 999_999_999))), 2_999_999);
}
