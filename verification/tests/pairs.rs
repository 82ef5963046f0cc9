use req::error::InputError;
use req::pairs::{has_no_empty_segment, key_path, parse_pair, parse_pairs, separators};
use req::split_pair;

#[test]
fn split_pair_splits_at_the_first_separator() {
    assert_eq!(split_pair("key=value", &['=', ':']), Some(("key", "value")));
    assert_eq!(split_pair("key:value", &['=', ':']), Some(("key", "value")));
    assert_eq!(split_pair("a=b:c", &['=', ':']), Some(("a", "b:c")));
    assert_eq!(split_pair("a:b=c", &['=', ':']), Some(("a", "b=c")));
    assert_eq!(split_pair("a==b", &['=', ':']), Some(("a", "=b")));
}

#[test]
fn split_pair_without_separator_is_none() {
    assert_eq!(split_pair("novalue", &['=', ':']), None);
    assert_eq!(split_pair("", &['=', ':']), None);
    assert_eq!(split_pair("a=b", &[]), None);
    assert_eq!(split_pair("a=b", &[':']), None);
}

#[test]
fn split_pair_allows_empty_parts() {
    assert_eq!(split_pair("=v", &['=', ':']), Some(("", "v")));
    assert_eq!(split_pair("k=", &['=', ':']), Some(("k", "")));
    assert_eq!(split_pair("=", &['=', ':']), Some(("", "")));
}

#[test]
fn split_pair_counts_characters_not_bytes() {
    assert_eq!(split_pair("clé=valeur", &['=', ':']), Some(("clé", "valeur")));
    assert_eq!(split_pair("日本:語=x", &['=', ':']), Some(("日本", "語=x")));
    assert_eq!(split_pair("a→b", &['→']), Some(("a", "b")));
}

#[test]
fn separators_are_equals_and_colon() {
    assert_eq!(separators(), vec!['=', ':']);
}

#[test]
fn parse_pair_owns_both_parts() {
    assert_eq!(
        parse_pair("apiKey=foo bar"),
        Ok(("apiKey".to_string(), "foo bar".to_string()))
    );
    assert_eq!(
        parse_pair("plain"),
        Err(InputError::MalformedPair("plain".to_string()))
    );
}

#[test]
fn parse_pairs_keeps_order_and_duplicates() {
    let raws = vec!["a=1".to_string(), "b:2".to_string(), "a=3".to_string()];
    assert_eq!(
        parse_pairs(&raws),
        Ok(vec![
            ("a".to_string(), "1".to_string()),
            ("b".to_string(), "2".to_string()),
            ("a".to_string(), "3".to_string()),
        ])
    );
    assert_eq!(parse_pairs(&Vec::new()), Ok(Vec::new()));
}

#[test]
fn parse_pairs_reports_the_first_malformed_argument() {
    let raws = vec!["a=1".to_string(), "bad".to_string(), "worse".to_string()];
    assert_eq!(
        parse_pairs(&raws),
        Err(InputError::MalformedPair("bad".to_string()))
    );
}

#[test]
fn key_path_splits_on_dots() {
    assert_eq!(key_path("a.b.c"), vec!["a", "b", "c"]);
    assert_eq!(key_path("single"), vec!["single"]);
    assert_eq!(key_path(""), vec![""]);
    assert_eq!(key_path("a..b"), vec!["a", "", "b"]);
    assert_eq!(key_path(".a."), vec!["", "a", ""]);
}

#[test]
fn empty_segments_are_detected() {
    assert!(has_no_empty_segment(&vec!["a".to_string(), "b".to_string()]));
    assert!(!has_no_empty_segment(&vec!["a".to_string(), "".to_string()]));
    assert!(!has_no_empty_segment(&vec!["".to_string()]));
    assert!(has_no_empty_segment(&Vec::new()));
}
