use saoirse::json::{clone_json, JsonValue};

fn sample() -> JsonValue {
    JsonValue::Obj(vec![
        ("x".to_string(), JsonValue::Int(1)),
        (
            "nested".to_string(),
            JsonValue::Obj(vec![("inner".to_string(), JsonValue::Bool(false))]),
        ),
        ("list".to_string(), JsonValue::Arr(vec![JsonValue::Null, JsonValue::Int(-3)])),
    ])
}

#[test]
fn field_lookup_on_objects() {
    let v = sample();
    assert_eq!(v.get("x"), Some(&JsonValue::Int(1)));
    assert_eq!(
        v.get("list"),
        Some(&JsonValue::Arr(vec![JsonValue::Null, JsonValue::Int(-3)]))
    );
    assert_eq!(v.get("missing"), None);
}

#[test]
fn field_lookup_takes_first_binding() {
    let v = JsonValue::Obj(vec![
        ("k".to_string(), JsonValue::Int(1)),
        ("k".to_string(), JsonValue::Int(2)),
    ]);
    assert_eq!(v.get("k"), Some(&JsonValue::Int(1)));
}

#[test]
fn field_lookup_misses_on_non_objects() {
    assert_eq!(JsonValue::Null.get("x"), None);
    assert_eq!(JsonValue::Int(7).get("7"), None);
    assert_eq!(JsonValue::Arr(vec![JsonValue::Int(0)]).get("0"), None);
}

#[test]
fn deep_clone_equals_original() {
    let v = sample();
    let c = clone_json(&v);
    assert_eq!(c, v);
    let c2 = v.clone();
    assert_eq!(c2, v);
}
