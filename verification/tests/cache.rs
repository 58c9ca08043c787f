use jsserve::cache::{Cache, SubsetFault};
use serde_json::Value;

fn text(s: &str) -> Value {
    Value::String(s.to_string())
}

fn object(pairs: &[(&str, Value)]) -> Value {
    let mut m = serde_json::Map::new();
    for (k, v) in pairs {
        m.insert(k.to_string(), v.clone());
    }
    Value::Object(m)
}

fn menu() -> Cache {
    let mut cache = Cache::new();
    cache.store(object(&[
        ("soup", Value::from(4)),
        ("bread", text("rye")),
        ("none", Value::Null),
    ]));
    cache
}

#[test]
fn new_cache_holds_null() {
    assert_eq!(Cache::new().op_get_cache_value(), Value::Null);
}

#[test]
fn what_was_stored_is_read() {
    let mut cache = menu();
    assert_eq!(
        cache.op_get_cache_value(),
        object(&[("soup", Value::from(4)), ("bread", text("rye")), ("none", Value::Null)])
    );
    cache.store(text("closed"));
    assert_eq!(cache.op_get_cache_value(), text("closed"));
    assert_eq!(cache.op_get_cache_value(), text("closed"));
}

#[test]
fn a_key_names_its_entry() {
    let cache = menu();
    assert_eq!(cache.subset_fault(&text("soup")), None);
    assert_eq!(cache.op_get_cache_subset_value(text("soup")), Value::from(4));
    assert_eq!(cache.op_get_cache_subset_value(text("bread")), text("rye"));
}

#[test]
fn a_missing_key_names_null() {
    let cache = menu();
    assert_eq!(cache.subset_fault(&text("wine")), None);
    assert_eq!(cache.op_get_cache_subset_value(text("wine")), Value::Null);
    assert_eq!(cache.op_get_cache_subset_value(text("none")), Value::Null);
}

#[test]
fn an_array_of_keys_names_an_object() {
    let cache = menu();
    let keys = Value::Array(vec![text("bread"), text("wine"), text("bread")]);
    assert_eq!(cache.subset_fault(&keys), None);
    assert_eq!(
        cache.op_get_cache_subset_value(keys),
        object(&[("bread", text("rye")), ("wine", Value::Null)])
    );
}

#[test]
fn an_empty_array_names_an_empty_object() {
    let keys = Value::Array(vec![]);
    assert_eq!(menu().subset_fault(&keys), None);
    assert_eq!(menu().op_get_cache_subset_value(keys), object(&[]));
}

#[test]
fn every_key_names_the_whole_document() {
    let cache = menu();
    let keys = Value::Array(vec![text("none"), text("soup"), text("bread")]);
    assert_eq!(cache.op_get_cache_subset_value(keys), cache.op_get_cache_value());
}

#[test]
fn order_and_repetition_of_keys_make_no_difference() {
    let cache = menu();
    let once = Value::Array(vec![text("soup"), text("bread")]);
    let often = Value::Array(vec![text("bread"), text("soup"), text("bread"), text("soup")]);
    assert_eq!(
        cache.op_get_cache_subset_value(once),
        cache.op_get_cache_subset_value(often)
    );
}

#[test]
fn a_key_that_is_no_text_is_invalid() {
    let keys = Value::Array(vec![text("soup"), Value::from(1)]);
    let fault = menu().subset_fault(&keys);
    assert_eq!(fault, Some(SubsetFault::InvalidKey));
    assert_eq!(fault.unwrap().message(), "invalid key");
}

#[test]
fn other_subsets_are_unknown() {
    for subset in [Value::Null, Value::Bool(true), Value::from(2), object(&[])] {
        let fault = menu().subset_fault(&subset);
        assert_eq!(fault, Some(SubsetFault::UnknownSubset));
        assert_eq!(fault.unwrap().message(), "unknown subset");
    }
}

#[test]
fn only_objects_have_subsets() {
    let mut cache = Cache::new();
    assert_eq!(cache.subset_fault(&text("soup")), Some(SubsetFault::UnknownSubset));
    cache.store(Value::Array(vec![text("soup")]));
    assert_eq!(cache.subset_fault(&text("soup")), Some(SubsetFault::UnknownSubset));
    let keys = Value::Array(vec![Value::from(1)]);
    assert_eq!(cache.subset_fault(&keys), Some(SubsetFault::UnknownSubset));
}

#[test]
fn what_is_read_lists_its_entries_as_stored() {
    let inner = object(&[("y", Value::from(1)), ("x", Value::from(2))]);
    let stored = object(&[("b", inner.clone()), ("a", text("last"))]);
    let mut cache = Cache::new();
    cache.store(stored.clone());
    assert_eq!(cache.op_get_cache_value().to_string(), stored.to_string());
    assert_eq!(cache.op_get_cache_subset_value(text("b")).to_string(), inner.to_string());
    let part = cache.op_get_cache_subset_value(Value::Array(vec![text("b")]));
    assert_eq!(part["b"].to_string(), inner.to_string());
    assert_eq!(stored.to_string(), "{\"b\":{\"y\":1,\"x\":2},\"a\":\"last\"}");
}

#[test]
fn a_subset_lists_its_keys_as_first_named() {
    let cache = menu();
    let keys = Value::Array(vec![text("soup"), text("zero"), text("bread"), text("soup")]);
    assert_eq!(cache.subset_fault(&keys), None);
    assert_eq!(
        cache.op_get_cache_subset_value(keys).to_string(),
        "{\"soup\":4,\"zero\":null,\"bread\":\"rye\"}"
    );
}
