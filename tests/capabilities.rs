use webdriver_client::json::{merge_json, merge_json_mut, JsonValue};
use webdriver_client::messages::NewSessionCmd;

fn s(v: &str) -> JsonValue {
    JsonValue::String(v.to_string())
}

fn object(entries: Vec<(&str, JsonValue)>) -> JsonValue {
    JsonValue::Object(entries.into_iter().map(|(k, v)| (k.to_string(), v)).collect())
}

#[test]
fn capability_extend() {
    let mut session = NewSessionCmd::default();
    session.always_match("cap", Some(object(vec![("a", JsonValue::Bool(true))])));
    assert_eq!(session.get_always_match("cap").unwrap(), object(vec![("a", JsonValue::Bool(true))]));

    session.extend_always_match("cap", object(vec![("b", JsonValue::Bool(false))]));
    assert_eq!(
        session.get_always_match("cap").unwrap(),
        object(vec![("a", JsonValue::Bool(true)), ("b", JsonValue::Bool(false))])
    );

    session.extend_always_match("cap", object(vec![("a", JsonValue::Bool(false))]));
    assert_eq!(
        session.get_always_match("cap").unwrap(),
        object(vec![("a", JsonValue::Bool(false)), ("b", JsonValue::Bool(false))])
    );
}

#[test]
fn capability_extend_replaces_non_obj() {
    let mut session = NewSessionCmd::default();
    session.always_match("cap", Some(s("value")));
    assert_eq!(session.get_always_match("cap").unwrap(), s("value"));

    session.extend_always_match("cap", object(vec![("a", JsonValue::Bool(false))]));
    assert_eq!(session.get_always_match("cap").unwrap(), object(vec![("a", JsonValue::Bool(false))]));
}

#[test]
fn capability_extend_replaces_obj_with_non_obj() {
    let mut session = NewSessionCmd::default();
    session
        .always_match("cap", Some(object(vec![("value", JsonValue::Bool(true))])))
        .extend_always_match("cap", s("new"));
    assert_eq!(session.get_always_match("cap").unwrap(), s("new"));
}

#[test]
fn always_match_replaces_and_removes() {
    let mut session = NewSessionCmd::default();
    session.always_match("cap", Some(object(vec![("a", JsonValue::Bool(true))])));
    session.always_match("cap", Some(object(vec![("b", JsonValue::Bool(true))])));
    assert_eq!(session.get_always_match("cap").unwrap(), object(vec![("b", JsonValue::Bool(true))]));
    session.always_match("cap", None);
    assert_eq!(session.get_always_match("cap"), None);
    assert_eq!(
        session.get_always_match("goog:chromeOptions").unwrap(),
        object(vec![("w3c", JsonValue::Bool(true))])
    );
}

#[test]
fn reset_always_match_empties_capabilities() {
    let mut session = NewSessionCmd::default();
    session.reset_always_match();
    assert_eq!(session.get_always_match("goog:chromeOptions"), None);
    assert_eq!(
        session.to_json(),
        object(vec![("capabilities", object(vec![("alwaysMatch", object(vec![]))]))])
    );
}

#[test]
fn default_session_asks_for_w3c() {
    let session = NewSessionCmd::default();
    assert_eq!(
        session.to_json(),
        object(vec![(
            "capabilities",
            object(vec![(
                "alwaysMatch",
                object(vec![("goog:chromeOptions", object(vec![("w3c", JsonValue::Bool(true))]))])
            )])
        )])
    );
}

#[test]
fn merge_recurses_into_shared_objects() {
    let a = object(vec![("cap", object(vec![("a", JsonValue::Bool(true))]))]);
    let b = object(vec![("cap", object(vec![("b", JsonValue::Bool(false))]))]);
    assert_eq!(
        merge_json(&a, &b),
        object(vec![("cap", object(vec![("a", JsonValue::Bool(true)), ("b", JsonValue::Bool(false))]))])
    );
}

#[test]
fn merge_non_object_wins() {
    let a = object(vec![("cap", object(vec![("a", JsonValue::Bool(true))]))]);
    let b = object(vec![("cap", s("x"))]);
    assert_eq!(merge_json(&a, &b), object(vec![("cap", s("x"))]));
}

#[test]
fn merge_documented_example() {
    let a = object(vec![
        ("a", s("only in a")),
        ("overwritten", s("value in a")),
        ("child_object", object(vec![("x", s("value in a"))])),
        ("array", JsonValue::Array(vec![s("value 1 in a"), s("value 2 in a")])),
        ("different_types", JsonValue::Number("5".to_string())),
    ]);
    let b = object(vec![
        ("b", s("only in b")),
        ("overwritten", s("value in b")),
        ("child_object", object(vec![("x", s("value in b"))])),
        ("array", JsonValue::Array(vec![s("value in b")])),
        ("different_types", JsonValue::Bool(true)),
    ]);
    let merged = merge_json(&a, &b);
    assert_eq!(
        merged,
        object(vec![
            ("a", s("only in a")),
            ("overwritten", s("value in b")),
            ("child_object", object(vec![("x", s("value in b"))])),
            ("array", JsonValue::Array(vec![s("value in b")])),
            ("different_types", JsonValue::Bool(true)),
            ("b", s("only in b")),
        ])
    );
    // The inputs are left as they were.
    assert_eq!(a, object(vec![
        ("a", s("only in a")),
        ("overwritten", s("value in a")),
        ("child_object", object(vec![("x", s("value in a"))])),
        ("array", JsonValue::Array(vec![s("value 1 in a"), s("value 2 in a")])),
        ("different_types", JsonValue::Number("5".to_string())),
    ]));
}

#[test]
fn merge_in_place_matches_merge() {
    let mut a = object(vec![("k", object(vec![("x", JsonValue::Null)])), ("z", JsonValue::Null)]);
    let b = object(vec![("k", object(vec![("y", JsonValue::Bool(true))]))]);
    let expected = merge_json(&a, &b);
    merge_json_mut(&mut a, &b);
    assert_eq!(a, expected);
    assert_eq!(
        a,
        object(vec![
            ("k", object(vec![("x", JsonValue::Null), ("y", JsonValue::Bool(true))])),
            ("z", JsonValue::Null)
        ])
    );
}

#[test]
fn merge_into_non_object_takes_b() {
    let a = JsonValue::Array(vec![JsonValue::Null]);
    let b = object(vec![("k", JsonValue::Null)]);
    assert_eq!(merge_json(&a, &b), b);
    assert_eq!(merge_json(&b, &JsonValue::Null), JsonValue::Null);
}

#[test]
fn merge_with_empty_object_keeps_a() {
    let a = object(vec![("k", s("v"))]);
    assert_eq!(merge_json(&a, &object(vec![])), a);
}

#[test]
fn merge_of_well_formed_values_keeps_keys_unique() {
    let a = object(vec![("k", object(vec![("x", JsonValue::Null)])), ("j", JsonValue::Null)]);
    let b = object(vec![("k", object(vec![("x", JsonValue::Bool(true))])), ("n", JsonValue::Null)]);
    let m = merge_json(&a, &b);
    assert_eq!(
        m,
        object(vec![
            ("k", object(vec![("x", JsonValue::Bool(true))])),
            ("j", JsonValue::Null),
            ("n", JsonValue::Null)
        ])
    );
}
