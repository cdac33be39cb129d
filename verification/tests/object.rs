use javascriptcore::{JSContext, JSString, JSValue};

#[test]
fn can_has_property() {
    let mut ctx = JSContext::default();
    let v = JSValue::new_from_json(&mut ctx, "{\"id\": 123}").expect("value");
    let o = v.as_object().expect("object");
    assert!(o.has_property("id"));
    assert!(o.has_property("no-such-value") == false);
}

#[test]
fn can_get_property() {
    let mut ctx = JSContext::default();
    let v = JSValue::new_from_json(&mut ctx, "{\"id\": 123}").expect("value");
    let o = v.as_object().expect("object");
    assert!(o.get_property("id").is_number());
    assert!(o.get_property("no-such-value").is_undefined());
}

#[test]
fn can_get_property_at_index() {
    let mut ctx = JSContext::default();
    let v = JSValue::new_from_json(&mut ctx, "[3, true, \"abc\"]").expect("value");
    let o = v.as_object().expect("object");
    assert!(o.get_property_at_index(0).is_number());
    assert!(o.get_property_at_index(1).is_boolean());
    assert!(o.get_property_at_index(2).is_string());
    assert!(o.get_property_at_index(5).is_undefined());
}

#[test]
fn can_get_property_names() {
    let mut ctx = JSContext::default();
    let v = JSValue::new_from_json(&mut ctx, "{\"id\": 123}").expect("value");
    let o = v.as_object().expect("object");
    let mut it = o.property_names();
    let mut names: Vec<JSString> = Vec::new();
    while let Some(name) = it.next() {
        names.push(name);
    }
    assert_eq!(names.len(), 1);
    assert_eq!(names[0], JSString::from_text("id"));
}

#[test]
fn can_use_as_jsvalue_via_deref() {
    let mut ctx = JSContext::default();
    let v = JSValue::new_from_json(&mut ctx, "{\"id\": 123}").expect("value");
    let o = v.as_object().expect("object");
    assert!(v.is_object());
    assert!(o.is_object());
}
