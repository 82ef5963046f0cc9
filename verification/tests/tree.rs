use req::error::InputError;
use req::tree::{build_map, infer_leaf, insert_leaf, leaf_from_parse};
use serde_json::{Number, Value};

fn object(entries: Vec<(&str, Value)>) -> Value {
    let mut map = serde_json::Map::new();
    for (key, value) in entries {
        map.insert(key.to_string(), value);
    }
    Value::Object(map)
}

fn text(s: &str) -> Value {
    Value::String(s.to_string())
}

#[test]
fn test_build_map() {
    let v = vec![
        "credential.username=test@gmail.com",
        "credential.password=foo",
    ];
    let result = build_map(&v).unwrap();
    assert_eq!(result["credential"]["username"], "test@gmail.com");
    assert_eq!(result["credential"]["password"], "foo");
}

#[test]
fn test_build_map_bool() {
    let v = vec!["a=true", "b=abc123", "c={", "d=5", "e=-5.5"];
    let result = build_map(&v).unwrap();
    assert_eq!(result["a"], true);
    assert_eq!(result["b"], "abc123");
    assert_eq!(result["c"], "{");
    assert_eq!(result["d"], 5);
    assert_eq!(result["e"], -5.5);
}

#[test]
fn build_map_gives_exactly_the_nested_object() {
    let v = vec![
        "credential.username=test@gmail.com",
        "credential.password=foo",
    ];
    let expected = object(vec![(
        "credential",
        object(vec![
            ("username", text("test@gmail.com")),
            ("password", text("foo")),
        ]),
    )]);
    assert_eq!(build_map(&v), Ok(expected));
}

#[test]
fn build_map_of_nothing_is_the_empty_object() {
    let v: Vec<&str> = Vec::new();
    assert_eq!(build_map(&v), Ok(Value::Object(serde_json::Map::new())));
}

#[test]
fn unique_keys_land_at_their_paths() {
    let v = vec!["a.b.c=1", "a.b.d=two", "a.e=false", "f:null"];
    let result = build_map(&v).unwrap();
    assert_eq!(result["a"]["b"]["c"], Value::Number(Number::from(1)));
    assert_eq!(result["a"]["b"]["d"], text("two"));
    assert_eq!(result["a"]["e"], Value::Bool(false));
    assert_eq!(result["f"], Value::Null);
    assert_eq!(result.as_object().unwrap().len(), 2);
    assert_eq!(result["a"].as_object().unwrap().len(), 2);
    assert_eq!(result["a"]["b"].as_object().unwrap().len(), 2);
}

#[test]
fn last_write_wins() {
    let v = vec!["a.b=1", "x=0", "a.b=2"];
    let result = build_map(&v).unwrap();
    assert_eq!(result["a"]["b"], 2);
    assert_eq!(result["x"], 0);
    assert_eq!(result["a"].as_object().unwrap().len(), 1);
}

#[test]
fn a_later_shorter_path_replaces_the_object() {
    let v = vec!["a.b=1", "a=2"];
    let result = build_map(&v).unwrap();
    assert_eq!(result, object(vec![("a", Value::Number(Number::from(2)))]));
}

#[test]
fn descending_into_a_scalar_is_a_conflict() {
    let v = vec!["a=1", "a.b=2"];
    assert_eq!(
        build_map(&v),
        Err(InputError::ConflictingKeyPath("a.b=2".to_string()))
    );
    let deep = vec!["a.b=x", "c=1", "a.b.c.d=2"];
    assert_eq!(
        build_map(&deep),
        Err(InputError::ConflictingKeyPath("a.b.c.d=2".to_string()))
    );
}

#[test]
fn a_pair_without_separator_is_malformed() {
    let v = vec!["a=1", "oops", "b"];
    assert_eq!(
        build_map(&v),
        Err(InputError::MalformedPair("oops".to_string()))
    );
}

#[test]
fn an_empty_key_segment_is_malformed() {
    assert_eq!(
        build_map(&vec!["a..b=1"]),
        Err(InputError::MalformedPair("a..b=1".to_string()))
    );
    assert_eq!(
        build_map(&vec!["=1"]),
        Err(InputError::MalformedPair("=1".to_string()))
    );
    assert_eq!(
        build_map(&vec!["a.=1"]),
        Err(InputError::MalformedPair("a.=1".to_string()))
    );
}

#[test]
fn the_first_failure_is_reported() {
    let v = vec!["a=1", "a.b=2", "nosep"];
    assert_eq!(
        build_map(&v),
        Err(InputError::ConflictingKeyPath("a.b=2".to_string()))
    );
}

#[test]
fn the_pair_splits_at_the_first_separator_of_either_kind() {
    let result = build_map(&vec!["a=b:c", "d:e=f", "g=h=i"]).unwrap();
    assert_eq!(result["a"], "b:c");
    assert_eq!(result["d"], "e=f");
    assert_eq!(result["g"], "h=i");
}

#[test]
fn dots_in_values_are_not_paths() {
    let result = build_map(&vec!["host=example.com"]).unwrap();
    assert_eq!(result, object(vec![("host", text("example.com"))]));
}

#[test]
fn infer_leaf_reads_scalars() {
    assert_eq!(infer_leaf("true"), Value::Bool(true));
    assert_eq!(infer_leaf("false"), Value::Bool(false));
    assert_eq!(infer_leaf("null"), Value::Null);
    assert_eq!(infer_leaf("5"), Value::Number(Number::from(5)));
    assert_eq!(infer_leaf("-5.5"), Value::Number(Number::from_f64(-5.5).unwrap()));
    assert_eq!(infer_leaf("\"quoted\""), text("quoted"));
    assert_eq!(infer_leaf(" 7 "), Value::Number(Number::from(7)));
}

#[test]
fn infer_leaf_falls_back_to_the_text() {
    assert_eq!(infer_leaf("abc123"), text("abc123"));
    assert_eq!(infer_leaf("{"), text("{"));
    assert_eq!(infer_leaf(""), text(""));
    assert_eq!(infer_leaf("True"), text("True"));
    assert_eq!(infer_leaf("1 2"), text("1 2"));
    assert_eq!(infer_leaf("test@gmail.com"), text("test@gmail.com"));
}

#[test]
fn infer_leaf_keeps_arrays_and_objects_as_text() {
    assert_eq!(infer_leaf("[1,2]"), text("[1,2]"));
    assert_eq!(infer_leaf("{}"), text("{}"));
    assert_eq!(infer_leaf("{\"a\":1}"), text("{\"a\":1}"));
    let result = build_map(&vec!["a={\"b\":1}"]).unwrap();
    assert_eq!(result["a"], text("{\"b\":1}"));
}

#[test]
fn inferring_again_from_an_unquoted_result_changes_nothing() {
    for raw in ["true", "5", "-5.5", "abc123", "{", "null"] {
        let first = infer_leaf(raw);
        let printed = match &first {
            Value::String(s) => s.clone(),
            other => other.to_string(),
        };
        assert_eq!(infer_leaf(&printed), first);
    }
}

#[test]
fn leaf_from_parse_decides_on_the_parsed_value() {
    assert_eq!(leaf_from_parse("x", None), text("x"));
    assert_eq!(leaf_from_parse("x", Some(Value::Bool(true))), Value::Bool(true));
    assert_eq!(leaf_from_parse("x", Some(Value::Null)), Value::Null);
    assert_eq!(leaf_from_parse("x", Some(text("y"))), text("y"));
    assert_eq!(leaf_from_parse("x", Some(Value::Array(vec![]))), text("x"));
    assert_eq!(
        leaf_from_parse("x", Some(Value::Object(serde_json::Map::new()))),
        text("x")
    );
}

#[test]
fn insert_leaf_creates_the_objects_on_the_way() {
    let mut tree = serde_json::Map::new();
    let path = vec!["a".to_string(), "b".to_string(), "c".to_string()];
    assert!(insert_leaf(&mut tree, &path, Value::Bool(true)));
    assert_eq!(
        Value::Object(tree),
        object(vec![(
            "a",
            object(vec![("b", object(vec![("c", Value::Bool(true))]))])
        )])
    );
}

#[test]
fn insert_leaf_keeps_siblings() {
    let mut tree = serde_json::Map::new();
    assert!(insert_leaf(
        &mut tree,
        &vec!["a".to_string(), "x".to_string()],
        text("1")
    ));
    assert!(insert_leaf(
        &mut tree,
        &vec!["a".to_string(), "y".to_string()],
        text("2")
    ));
    assert_eq!(
        Value::Object(tree),
        object(vec![("a", object(vec![("x", text("1")), ("y", text("2"))]))])
    );
}

#[test]
fn insert_leaf_refuses_a_blocked_or_empty_path_and_changes_nothing() {
    let mut tree = serde_json::Map::new();
    tree.insert("a".to_string(), text("scalar"));
    let before = tree.clone();
    assert!(!insert_leaf(
        &mut tree,
        &vec!["a".to_string(), "b".to_string()],
        Value::Null
    ));
    assert_eq!(tree, before);
    assert!(!insert_leaf(&mut tree, &Vec::new(), Value::Null));
    assert_eq!(tree, before);
}

#[test]
fn inferring_again_from_the_json_text_of_a_leaf_changes_nothing() {
    for raw in [
        "true", "false", "null", "5", "-5.5", "0", "1e3", "abc123", "{", "\"quoted\"", "",
        "[1,2]", "a b", "\"5\"",
    ] {
        let first_arg = format!("k={}", raw);
        let first = build_map(&[first_arg.as_str()]).unwrap();
        let leaf = first["k"].clone();
        let printed = serde_json::to_string(&leaf).unwrap();
        let again_arg = format!("k={}", printed);
        let again = build_map(&[again_arg.as_str()]).unwrap();
        assert_eq!(again["k"], leaf);
        assert_eq!(again.as_object().unwrap().len(), 1);
    }
}

#[test]
fn one_pair_binds_one_key() {
    let result = build_map(&["k=5"]).unwrap();
    assert_eq!(result, object(vec![("k", Value::Number(Number::from(5)))]));
}
