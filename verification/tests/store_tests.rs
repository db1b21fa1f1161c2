use mathstore::json::JsonValue;
use mathstore::keys::{decimal_string, make_key};
use mathstore::store::{store_reply, Store};

fn obj(fields: Vec<(&str, JsonValue)>) -> JsonValue {
    JsonValue::Obj(
        fields
            .into_iter()
            .map(|(k, v)| (String::from(k), v))
            .collect(),
    )
}

#[test]
fn decimal_rendering_exact() {
    assert_eq!(decimal_string(0), "0");
    assert_eq!(decimal_string(7), "7");
    assert_eq!(decimal_string(10), "10");
    assert_eq!(decimal_string(123456789), "123456789");
    assert_eq!(decimal_string(u64::MAX), "18446744073709551615");
}

#[test]
fn keys_have_expected_form() {
    assert_eq!(make_key(1), "entry_1");
    assert_eq!(make_key(2), "entry_2");
    assert_eq!(make_key(10), "entry_10");
    assert_eq!(make_key(305), "entry_305");
}

#[test]
fn sequential_inserts_issue_distinct_keys() {
    let mut store = Store::new();
    let n = 25;
    let mut keys: Vec<String> = Vec::new();
    for i in 0..n {
        let key = store.insert(JsonValue::UInt(i));
        keys.push(key);
    }
    for i in 0..n as usize {
        assert_eq!(keys[i], format!("entry_{}", i + 1));
        for j in 0..i {
            assert_ne!(keys[j], keys[i]);
        }
    }
}

#[test]
fn keys_do_not_depend_on_payload() {
    let mut store = Store::new();
    let k1 = store.insert(JsonValue::Null);
    let k2 = store.insert(JsonValue::Null);
    assert_eq!(k1, "entry_1");
    assert_eq!(k2, "entry_2");
}

#[test]
fn snapshot_of_empty_store_is_empty() {
    let store = Store::new();
    assert_eq!(store.len(), 0);
    assert!(store.snapshot().is_empty());
}

#[test]
fn two_inserts_then_snapshot() {
    let p1 = obj(vec![("x", JsonValue::UInt(1))]);
    let p2 = obj(vec![("y", JsonValue::UInt(2))]);
    let mut store = Store::new();
    let k1 = store.insert(p1.deep_clone());
    let k2 = store.insert(p2.deep_clone());
    assert_eq!(k1, "entry_1");
    assert_eq!(k2, "entry_2");
    assert_ne!(k1, k2);
    let snap = store.snapshot();
    assert_eq!(snap.len(), 2);
    assert_eq!(snap[0].0, "entry_1");
    assert_eq!(snap[0].1, p1);
    assert_eq!(snap[1].0, "entry_2");
    assert_eq!(snap[1].1, p2);
}

#[test]
fn snapshot_is_independent_of_later_inserts() {
    let mut store = Store::new();
    store.insert(JsonValue::Bool(true));
    let early = store.snapshot();
    store.insert(JsonValue::Bool(false));
    assert_eq!(early.len(), 1);
    assert_eq!(store.snapshot().len(), 2);
}

#[test]
fn nested_payload_round_trips_through_snapshot() {
    let payload = obj(vec![
        ("name", JsonValue::Str(String::from("widget"))),
        (
            "sizes",
            JsonValue::Arr(vec![
                JsonValue::UInt(1),
                JsonValue::Int(-2),
                JsonValue::FloatBits(2.5f64.to_bits()),
            ]),
        ),
        ("extra", obj(vec![("flag", JsonValue::Bool(false)), ("none", JsonValue::Null)])),
    ]);
    let mut store = Store::new();
    store.insert(payload.deep_clone());
    let snap = store.snapshot();
    assert_eq!(snap.len(), 1);
    assert_eq!(snap[0].1, payload);
}

#[test]
fn store_reply_has_expected_text() {
    let mut store = Store::new();
    let key = store.insert(JsonValue::UInt(5));
    assert_eq!(store_reply(key.as_str()), "Data stored with key: entry_1");
}

#[test]
fn deep_clone_preserves_structure() {
    let payload = obj(vec![
        ("a", JsonValue::Arr(vec![JsonValue::Str(String::from("s")), JsonValue::Null])),
        ("b", JsonValue::UInt(9)),
    ]);
    let copy = payload.deep_clone();
    assert_eq!(copy, payload);
}
