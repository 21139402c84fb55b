//! Tests of the shared text utilities: trimming, tokenizing and decimal
//! parsing.

use prm::cursor::Cursor;
use prm::spot::{Spot, SpotParseError};
use prm::text::{parse_i32, parse_u32, parse_u8, parse_usize, split_tokens, strip_quotes, trim};

#[test]
fn trim_removes_both_ends() {
    assert_eq!(trim("  a b \t"), "a b");
    assert_eq!(trim(""), "");
    assert_eq!(trim(" \t "), "");
    assert_eq!(trim("x"), "x");
}

#[test]
fn split_tokens_on_runs_of_whitespace() {
    assert_eq!(split_tokens("a  b\t c"), vec!["a", "b", "c"]);
    assert_eq!(split_tokens("  "), Vec::<String>::new());
    assert_eq!(split_tokens("one"), vec!["one"]);
}

#[test]
fn strip_quotes_removes_quote_runs_at_the_ends() {
    assert_eq!(strip_quotes("\"name\""), "name");
    assert_eq!(strip_quotes("name"), "name");
    assert_eq!(strip_quotes("\"\"ab\""), "ab");
    assert_eq!(strip_quotes("\"\""), "");
    assert_eq!(strip_quotes("a\"b"), "a\"b");
}

#[test]
fn unsigned_parsing_matches_decimal_numerals() {
    assert_eq!(parse_u32("0"), Some(0));
    assert_eq!(parse_u32("007"), Some(7));
    assert_eq!(parse_u32("+41"), Some(41));
    assert_eq!(parse_u32("4294967295"), Some(u32::MAX));
    assert_eq!(parse_u32("4294967296"), None);
    assert_eq!(parse_u32(""), None);
    assert_eq!(parse_u32("+"), None);
    assert_eq!(parse_u32("-1"), None);
    assert_eq!(parse_u32("1 2"), None);
    assert_eq!(parse_u32("12x"), None);
    assert_eq!(parse_u8("255"), Some(255));
    assert_eq!(parse_u8("256"), None);
    assert_eq!(parse_usize("17"), Some(17));
}

#[test]
fn signed_parsing_handles_signs_and_limits() {
    assert_eq!(parse_i32("-0"), Some(0));
    assert_eq!(parse_i32("-17"), Some(-17));
    assert_eq!(parse_i32("+17"), Some(17));
    assert_eq!(parse_i32("2147483647"), Some(i32::MAX));
    assert_eq!(parse_i32("2147483648"), None);
    assert_eq!(parse_i32("-2147483648"), Some(i32::MIN));
    assert_eq!(parse_i32("-2147483649"), None);
    assert_eq!(parse_i32("-"), None);
    assert_eq!(parse_i32("--1"), None);
}

#[test]
fn spot_block_on_an_exhausted_cursor_reports_the_missing_header() {
    let lines: Vec<String> = Vec::new();
    let mut cur = Cursor::new(&lines);
    assert_eq!(Spot::from_prmrow_iter(&mut cur).unwrap_err(), SpotParseError::ExpectedEscaveTitleLine);
}
