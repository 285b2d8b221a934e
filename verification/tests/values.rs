use provider_failover::json::{from_value, parse, Json};
use provider_failover::sampler_config::put_header;
use provider_failover::string_map::StringMap;
use provider_failover::text::{
    decimal, eq_ignore_ascii_case, joined, trim, without_last_char,
};

#[test]
fn json_is_read_and_written() {
    let text = r#"{"z":[1,-2,2.5,true,null],"a":{"k":"v"}}"#;
    let json = parse(text).unwrap();
    assert_eq!(json.to_text(), text);
    assert_eq!(json.get("z").unwrap().as_array().unwrap().len(), 5);
    assert_eq!(json.get("z").unwrap().as_array().unwrap()[0].as_u64(), Some(1));
    assert_eq!(json.get("z").unwrap().as_array().unwrap()[1].as_u64(), None);
    assert_eq!(json.get("a").unwrap().get("k").unwrap().as_str(), Some("v"));
    assert!(json.get("q").is_none());
    assert!(json.is_object() && !json.get("z").unwrap().is_object());
    assert!(parse("{").is_none());
    assert_eq!(json.copy().to_text(), text);
}

#[test]
fn json_values_convert_both_ways() {
    let value = serde_json::from_str::<serde_json::Value>(r#"[18446744073709551615,-1,0.1]"#);
    let value = value.unwrap();
    assert_eq!(from_value(value.clone()).to_value(), value);
}

#[test]
fn the_last_of_two_fields_with_a_name_counts() {
    let twice = Json::Object(vec![
        ("a".to_string(), Json::Text("1".to_string())),
        ("b".to_string(), Json::Null),
        ("a".to_string(), Json::Text("2".to_string())),
    ]);
    assert_eq!(twice.get("a").unwrap().as_str(), Some("2"));
    assert_eq!(twice.to_text(), r#"{"a":"2","b":null}"#);
}

#[test]
fn text_is_trimmed_like_std() {
    for s in ["", " a b ", "\u{3000}x\u{85}", "\u{200b}y", "\t\n\u{b}\u{c}\r z", "\u{1680}\u{2028}"] {
        assert_eq!(trim(s), s.trim());
    }
}

#[test]
fn case_is_folded_for_ascii_only() {
    assert!(eq_ignore_ascii_case("GroK-1", "gROk-1"));
    assert!(!eq_ignore_ascii_case("\u{c4}", "\u{e4}"));
    assert!(!eq_ignore_ascii_case("a", "ab"));
    assert!(!eq_ignore_ascii_case("@", "`"));
}

#[test]
fn small_text_operations() {
    assert_eq!(joined("a\u{e9}", "b"), "a\u{e9}b");
    assert_eq!(without_last_char("a\u{e9}"), "a");
    assert_eq!(without_last_char(""), "");
    for n in [0, 9, 10, 305, u64::MAX] {
        assert_eq!(decimal(n), n.to_string());
    }
}

#[test]
fn string_maps_replace_and_remove() {
    let mut map = StringMap::new();
    assert_eq!(map.insert("a".to_string(), 1), None);
    assert_eq!(map.insert("b".to_string(), 2), None);
    assert_eq!(map.insert("a".to_string(), 3), Some(1));
    assert_eq!((map.len(), map.get("a"), map.get("c")), (2, Some(&3), None));
    assert_eq!(map.remove("a"), Some(3));
    assert_eq!(map.remove("a"), None);
    assert_eq!(map.take_values(), [2]);
    assert_eq!(map.len(), 0);
}

#[test]
fn a_header_keeps_its_place() {
    let mut headers = vec![("a".to_string(), "1".to_string()), ("b".to_string(), "2".to_string())];
    put_header(&mut headers, "a", "3");
    put_header(&mut headers, "c", "4");
    let shown: Vec<(&str, &str)> =
        headers.iter().map(|(k, v)| (k.as_str(), v.as_str())).collect();
    assert_eq!(shown, [("a", "3"), ("b", "2"), ("c", "4")]);
}
