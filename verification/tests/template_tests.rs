use monitor_host::{apply_vars, StrMap, JsonValue, get_json_path_str};
use monitor_host::json::json_text;

fn vars_of(pairs: &[(&str, &str)]) -> StrMap {
    let mut m = StrMap::new();
    for (k, v) in pairs {
        m.insert(k.to_string(), v.to_string());
    }
    m
}

#[test]
fn substitutes_bound_and_keeps_missing() {
    let m = vars_of(&[("k", "v")]);
    assert_eq!(apply_vars("{{k}}-{{missing}}", &m), "v-{{missing}}");
}

#[test]
fn substitutes_multiple_occurrences() {
    let m = vars_of(&[("a", "1"), ("b", "2")]);
    assert_eq!(apply_vars("{{a}}+{{b}}={{a}}{{b}}", &m), "1+2=12");
}

#[test]
fn plain_text_is_unchanged() {
    let m = vars_of(&[("k", "v")]);
    assert_eq!(apply_vars("no placeholders here", &m), "no placeholders here");
}

#[test]
fn empty_input_gives_empty_output() {
    let m = StrMap::new();
    assert_eq!(apply_vars("", &m), "");
}

#[test]
fn unterminated_placeholder_is_kept() {
    let m = vars_of(&[("k", "v")]);
    assert_eq!(apply_vars("{{k", &m), "{{k");
}

#[test]
fn nested_braces_still_find_inner_placeholder() {
    let m = vars_of(&[("k", "v")]);
    assert_eq!(apply_vars("{{a{{k}}", &m), "{{av");
}

#[test]
fn substituted_value_is_not_rescanned() {
    let m = vars_of(&[("k", "{{k}}")]);
    assert_eq!(apply_vars("{{k}}", &m), "{{k}}");
}

#[test]
fn map_insert_replaces_binding() {
    let mut m = StrMap::new();
    m.insert("k".to_string(), "a".to_string());
    m.insert("k".to_string(), "b".to_string());
    assert_eq!(m.len(), 1);
    assert_eq!(m.get("k").unwrap(), "b");
}

fn sample_json() -> JsonValue {
    JsonValue::Obj(vec![
        (
            "a".to_string(),
            JsonValue::Obj(vec![
                ("b".to_string(), JsonValue::Str("deep".to_string())),
                ("n".to_string(), JsonValue::Num("42".to_string())),
                ("t".to_string(), JsonValue::Bool(true)),
                ("z".to_string(), JsonValue::Null),
            ]),
        ),
        ("top".to_string(), JsonValue::Str("level".to_string())),
    ])
}

#[test]
fn json_path_reads_nested_string() {
    let v = sample_json();
    assert_eq!(get_json_path_str(&v, "a.b").unwrap(), "deep");
}

#[test]
fn json_path_stringifies_number_and_bool() {
    let v = sample_json();
    assert_eq!(get_json_path_str(&v, "a.n").unwrap(), "42");
    assert_eq!(get_json_path_str(&v, "a.t").unwrap(), "true");
}

#[test]
fn json_path_misses_and_non_scalars_give_none() {
    let v = sample_json();
    assert!(get_json_path_str(&v, "a.nope").is_none());
    assert!(get_json_path_str(&v, "a").is_none());
    assert!(get_json_path_str(&v, "a.z").is_none());
}

#[test]
fn json_text_renders_values() {
    assert_eq!(json_text(&JsonValue::Null), "null");
    assert_eq!(json_text(&JsonValue::Bool(false)), "false");
    assert_eq!(json_text(&JsonValue::Num("3.5".to_string())), "3.5");
    assert_eq!(json_text(&JsonValue::Str("a\"b".to_string())), "\"a\\\"b\"");
    let arr = JsonValue::Arr(vec![
        JsonValue::Num("1".to_string()),
        JsonValue::Str("x".to_string()),
    ]);
    assert_eq!(json_text(&arr), "[1,\"x\"]");
    let obj = JsonValue::Obj(vec![
        ("a".to_string(), JsonValue::Num("1".to_string())),
        ("b".to_string(), JsonValue::Null),
    ]);
    assert_eq!(json_text(&obj), "{\"a\":1,\"b\":null}");
}

#[test]
fn dec_str_renders_numbers() {
    assert_eq!(monitor_host::strutil::u64_dec_str(0), "0");
    assert_eq!(monitor_host::strutil::u64_dec_str(12345), "12345");
    assert_eq!(monitor_host::strutil::u64_dec_str(10), "10");
}

#[test]
fn str_contains_finds_substrings() {
    assert!(monitor_host::strutil::str_contains("verify-email", "verify"));
    assert!(!monitor_host::strutil::str_contains("verif", "verify"));
    assert!(monitor_host::strutil::str_contains("abc", ""));
}
