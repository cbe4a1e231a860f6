//! Numbers, lists and queries as text.
use plex_player::arith::{minus_i64, ms_for_bits, plus_i64, times_i64, times_u64};
use plex_player::plex::query::{Param, QueryBuilder};
use plex_player::text::{
    begins_with, contains_text, decimal_i64, join, push_decimal_u64, push_encoded,
    push_last_digits, same, split,
};

#[test]
fn numbers_in_decimal() {
    assert_eq!(decimal_i64(0), "0");
    assert_eq!(decimal_i64(-120), "-120");
    assert_eq!(decimal_i64(i64::MAX), "9223372036854775807");
    assert_eq!(decimal_i64(i64::MIN), "-9223372036854775808");
    let mut out = String::from("n=");
    push_decimal_u64(&mut out, u64::MAX);
    assert_eq!(out, "n=18446744073709551615");
    let mut digits = String::new();
    push_last_digits(&mut digits, 12_034, 3);
    push_last_digits(&mut digits, 7, 4);
    push_last_digits(&mut digits, 7, 0);
    assert_eq!(digits, "0340007");
}

#[test]
fn arithmetic_stops_at_the_ends_of_the_machine() {
    assert_eq!(plus_i64(i64::MAX, 1), i64::MAX);
    assert_eq!(plus_i64(i64::MIN, -1), i64::MIN);
    assert_eq!(plus_i64(-2, 5), 3);
    assert_eq!(minus_i64(i64::MIN, 1), i64::MIN);
    assert_eq!(minus_i64(0, i64::MIN), i64::MAX);
    assert_eq!(times_i64(i64::MAX, 2), i64::MAX);
    assert_eq!(times_i64(i64::MIN, 2), i64::MIN);
    assert_eq!(times_i64(-3, 4), -12);
    assert_eq!(times_u64(u64::MAX, 2), u64::MAX);
    assert_eq!(times_u64(6, 7), 42);
    assert_eq!(ms_for_bits(83_886_080, 19_725), 4_252);
    assert_eq!(ms_for_bits(9, 0), 9);
    assert_eq!(ms_for_bits(u64::MAX, 1), i64::MAX);
}

#[test]
fn splitting_undoes_joining() {
    let parts: Vec<String> = ["aac", "", "ac3"].iter().map(|s| s.to_string()).collect();
    assert_eq!(join(&parts, ','), "aac,,ac3");
    assert_eq!(split("aac,,ac3", ','), parts);
    assert_eq!(split("", ','), vec![String::new()]);
    assert_eq!(join(&Vec::new(), ','), "");
    assert!(contains_text(&parts, "ac3"));
    assert!(contains_text(&parts, ""));
    assert!(!contains_text(&parts, "ac"));
}

#[test]
fn texts_are_compared_by_character() {
    assert!(same("é", "é") && same("", ""));
    assert!(!same("a", "b") && !same("a", "ab"));
    assert!(begins_with("dca-ma", "dca-") && begins_with("dca-", "dca-") && begins_with("x", ""));
    assert!(!begins_with("dca", "dca-") && !begins_with("xdca-", "dca-"));
}

#[test]
fn encoded_text_stays_in_its_parameter() {
    let mut out = String::new();
    push_encoded(&mut out, "AZaz09-._~");
    assert_eq!(out, "AZaz09-._~");
    let mut hard = String::new();
    push_encoded(&mut hard, "a&b=c?d#e f%/+é€");
    assert_eq!(hard, "a%26b%3Dc%3Fd%23e%20f%25%2F%2B%C3%A9%E2%82%AC");
}

#[test]
fn a_query_holds_its_parameters() {
    let extra = vec![Param {
        key: "k".to_string(),
        value: "v&w".to_string(),
    }];
    let q = QueryBuilder::new("/p")
        .with_str("a", "1&b=2")
        .with_int("n", -4)
        .with_opt_int("zero", 0)
        .with_opt_int("neg", -1)
        .with_opt_int("pos", 3)
        .with_all(&extra);
    assert_eq!(q.query(), "a=1%26b%3D2&n=-4&pos=3&k=v%26w");
    assert_eq!(q.build(), "/p?a=1%26b%3D2&n=-4&pos=3&k=v%26w");
    assert_eq!(q.query().split('&').count(), 4);
    assert_eq!(QueryBuilder::new("/p").build(), "/p");
    assert_eq!(QueryBuilder::new("/p").query(), "");
}
