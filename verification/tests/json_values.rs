use javascriptcore::{JSContext, JSString, JSValue};

#[test]
fn parses_each_primitive_kind() {
    let mut ctx = JSContext::default();
    assert!(JSValue::new_from_json(&mut ctx, "null").expect("null").is_null());
    let mut ctx = JSContext::default();
    assert!(JSValue::new_from_json(&mut ctx, "true").expect("true").is_boolean());
    let mut ctx = JSContext::default();
    assert!(JSValue::new_from_json(&mut ctx, "false").expect("false").is_boolean());
    let mut ctx = JSContext::default();
    assert!(JSValue::new_from_json(&mut ctx, "-42").expect("number").is_number());
    let mut ctx = JSContext::default();
    assert!(JSValue::new_from_json(&mut ctx, "\"abc\"").expect("string").is_string());
}

#[test]
fn rejects_malformed_text() {
    let mut ctx = JSContext::default();
    assert!(JSValue::new_from_json(&mut ctx, "").is_none());
    assert!(JSValue::new_from_json(&mut ctx, "{").is_none());
    assert!(JSValue::new_from_json(&mut ctx, "tru").is_none());
    assert!(JSValue::new_from_json(&mut ctx, "[1,]").is_none());
    assert!(JSValue::new_from_json(&mut ctx, "{\"a\" 1}").is_none());
    assert!(JSValue::new_from_json(&mut ctx, "123 456").is_none());
    assert!(JSValue::new_from_json(&mut ctx, "1.5").is_none());
    assert!(JSValue::new_from_json(&mut ctx, "\"a\\n\"").is_none());
    assert!(JSValue::new_from_json(&mut ctx, "9223372036854775808").is_none());
}

#[test]
fn accepts_number_range_edges() {
    let mut ctx = JSContext::default();
    assert!(
        JSValue::new_from_json(&mut ctx, "9223372036854775807").expect("max").is_number()
    );
    let mut ctx = JSContext::default();
    assert!(JSValue::new_from_json(&mut ctx, "0").expect("zero").is_number());
}

#[test]
fn tolerates_surrounding_whitespace() {
    let mut ctx = JSContext::default();
    let v = JSValue::new_from_json(&mut ctx, " \t{ \"a\" :\n1 }\r ").expect("value");
    let o = v.as_object().expect("object");
    assert!(o.has_property("a"));
    assert!(o.get_property("a").is_number());
}

#[test]
fn nested_values_are_reachable() {
    let mut ctx = JSContext::default();
    let v = JSValue::new_from_json(&mut ctx, "{\"a\": {\"b\": [7]}}").expect("value");
    let o = v.as_object().expect("object");
    let inner = o.get_property("a");
    assert!(inner.is_object());
    let inner_o = inner.as_object().expect("inner object");
    let arr = inner_o.get_property("b");
    let arr_o = arr.as_object().expect("array object");
    assert!(arr_o.get_property_at_index(0).is_number());
    assert!(arr_o.get_property_at_index(1).is_undefined());
}

#[test]
fn repeated_member_names_are_rejected() {
    let mut ctx = JSContext::default();
    assert!(JSValue::new_from_json(&mut ctx, "{\"a\": 1, \"b\": 2, \"a\": true}").is_none());
    let v = JSValue::new_from_json(&mut ctx, "{\"a\": 1, \"b\": 2}").expect("value");
    let o = v.as_object().expect("object");
    let mut it = o.property_names();
    assert_eq!(it.size_hint(), (2, Some(2)));
    assert_eq!(it.next().expect("a"), JSString::from_text("a"));
    assert_eq!(it.next().expect("b"), JSString::from_text("b"));
    assert!(it.next().is_none());
}

#[test]
fn leading_zeros_are_rejected() {
    let mut ctx = JSContext::default();
    assert!(JSValue::new_from_json(&mut ctx, "0123").is_none());
    assert!(JSValue::new_from_json(&mut ctx, "-01").is_none());
    let v = JSValue::new_from_json(&mut ctx, "-0").expect("value");
    assert!(v.is_number());
}

#[test]
fn index_access_agrees_with_decimal_name() {
    let mut ctx = JSContext::default();
    let v = JSValue::new_from_json(&mut ctx, "[3, true, \"abc\"]").expect("value");
    let o = v.as_object().expect("object");
    assert!(o.get_property("1").is_boolean());
    assert!(o.has_property("2"));
    assert!(!o.has_property("3"));
    assert!(o.get_property_at_index(1).is_boolean());
}

#[test]
fn object_handle_delegates_to_its_value() {
    let mut ctx = JSContext::default();
    let v = JSValue::new_from_json(&mut ctx, "{\"id\": 123}").expect("value");
    let o = v.as_object().expect("object");
    assert_eq!(o.is_object(), v.is_object());
    assert_eq!(o.is_number(), v.is_number());
    assert_eq!(o.is_undefined(), v.is_undefined());
    assert_eq!(o.is_null(), v.is_null());
    assert_eq!(o.is_boolean(), v.is_boolean());
    assert_eq!(o.is_string(), v.is_string());
    assert!(o.as_value().is_object());
}

#[test]
fn string_handles_compare_by_content() {
    let a = JSString::from_text("id");
    let b = JSString::from_text("id");
    let c = JSString::from_text("other");
    assert_eq!(a, b);
    assert_ne!(a, c);
    assert_eq!(a.len(), 2);
    assert_eq!(a.clone(), b);
    assert_eq!(a.chars_vec(), vec!['i', 'd']);
}

#[test]
fn non_objects_refuse_refinement() {
    let mut ctx = JSContext::default();
    let v = JSValue::new_from_json(&mut ctx, "123").expect("value");
    assert!(v.as_object().is_none());
    assert!(v.is_number());
    assert!(!v.is_object());
}
