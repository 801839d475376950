use rust_options::market::crumb_accepted;
use rust_options::text::{contains_str, is_whitespace_char, lowercase_is, split_and_trim, trim};
use rust_options::vol::{stats_shape_matches, NUM_FEATURES, WINDOW_SIZE};
use rust_options::web::{split_symbols, successful_answers, QuotesQuery};

#[test]
fn whitespace_matches_std() {
    for code in 0u32..0x3100 {
        if let Some(c) = char::from_u32(code) {
            assert_eq!(is_whitespace_char(c), c.is_whitespace(), "{:x}", code);
        }
    }
}

#[test]
fn trim_matches_std() {
    for s in ["", "  ", " a ", "\tAAPL\n", "MS FT", "\u{3000}x\u{2028}", "x"] {
        assert_eq!(trim(s), s.trim());
    }
}

#[test]
fn split_symbols_trims_each() {
    assert_eq!(split_symbols("AAPL, MSFT ,GOOGL"), vec!["AAPL", "MSFT", "GOOGL"]);
    assert_eq!(split_symbols("SPY"), vec!["SPY"]);
    assert_eq!(split_symbols(""), vec![""]);
    assert_eq!(split_symbols("A,,B,"), vec!["A", "", "B", ""]);
    let q = QuotesQuery { symbols: " SPY , QQQ".to_string() };
    assert_eq!(q.symbol_list(), vec!["SPY", "QQQ"]);
}

#[test]
fn split_matches_std() {
    for s in ["a,b", ",", " x , y ,z ", "\t,\n"] {
        let ours = split_and_trim(s, ',');
        let theirs: Vec<&str> = s.split(',').map(|p| p.trim()).collect();
        assert_eq!(ours, theirs);
    }
}

#[test]
fn lowercase_comparison() {
    assert!(lowercase_is("CaLl", "call"));
    assert!(!lowercase_is("calls", "call"));
    assert!(!lowercase_is("", "call"));
    assert!(lowercase_is("", ""));
}

#[test]
fn substring_search() {
    assert!(contains_str("abc", ""));
    assert!(contains_str("abc", "bc"));
    assert!(!contains_str("abc", "cb"));
    assert!(!contains_str("ab", "abc"));
    assert!(contains_str("xx<!DOCTYPE html>", "<!DOCTYPE"));
}

#[test]
fn crumbs() {
    assert!(crumb_accepted("aBcD3fGh.1x"));
    assert!(!crumb_accepted(""));
    assert!(!crumb_accepted("<!DOCTYPE html><html></html>"));
    assert!(!crumb_accepted("\n<!DOCTYPE html>"));
    assert!(crumb_accepted("<!doctype html>"));
}

#[test]
fn norm_stats_shape() {
    assert_eq!(WINDOW_SIZE, 30);
    assert_eq!(NUM_FEATURES, 5);
    assert!(stats_shape_matches(30, 5));
    assert!(!stats_shape_matches(5, 30));
    assert!(!stats_shape_matches(30, 6));
    assert!(!stats_shape_matches(29, 5));
}

#[test]
fn only_successful_answers_are_kept_in_order() {
    let outcomes: Vec<Result<Result<u32, String>, ()>> = vec![
        Ok(Ok(1)),
        Ok(Err("not found".to_string())),
        Err(()),
        Ok(Ok(4)),
        Ok(Ok(5)),
    ];
    assert_eq!(successful_answers(outcomes), vec![1, 4, 5]);
    let none: Vec<Result<Result<u32, String>, ()>> = vec![Err(()), Ok(Err("x".to_string()))];
    assert!(successful_answers(none).is_empty());
    let empty: Vec<Result<Result<u32, String>, ()>> = Vec::new();
    assert!(successful_answers(empty).is_empty());
}
