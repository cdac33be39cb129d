use javascriptcore::{JSContext, JSString, JSValue};

#[test]
fn terminal_state_is_idempotent() {
    let mut ctx = JSContext::default();
    let v = JSValue::new_from_json(&mut ctx, "{\"id\": 123}").expect("value");
    let o = v.as_object().expect("object");
    let mut it = o.property_names();
    assert!(it.next().is_some());
    assert!(it.next().is_none());
    assert!(it.next().is_none());
    assert!(it.next().is_none());
}

#[test]
fn size_hint_is_exact_at_every_step() {
    let mut ctx = JSContext::default();
    let v = JSValue::new_from_json(&mut ctx, "[3, true, \"abc\"]").expect("value");
    let o = v.as_object().expect("object");
    let mut it = o.property_names();
    let mut expected: usize = 3;
    loop {
        assert_eq!(it.size_hint(), (expected, Some(expected)));
        match it.next() {
            Some(_) => {
                expected -= 1;
            }
            None => {
                assert_eq!(expected, 0);
                break;
            }
        }
    }
    assert_eq!(it.size_hint(), (0, Some(0)));
}

#[test]
fn array_property_names_are_decimal_indices() {
    let mut ctx = JSContext::default();
    let v = JSValue::new_from_json(&mut ctx, "[3, true, \"abc\"]").expect("value");
    let o = v.as_object().expect("object");
    let mut it = o.property_names();
    assert_eq!(it.next().expect("first"), JSString::from_text("0"));
    assert_eq!(it.next().expect("second"), JSString::from_text("1"));
    assert_eq!(it.next().expect("third"), JSString::from_text("2"));
    assert!(it.next().is_none());
}

#[test]
fn empty_object_enumerates_nothing() {
    let mut ctx = JSContext::default();
    let v = JSValue::new_from_json(&mut ctx, "{}").expect("value");
    let o = v.as_object().expect("object");
    let mut it = o.property_names();
    assert_eq!(it.size_hint(), (0, Some(0)));
    assert!(it.next().is_none());
}

#[test]
fn fresh_cursor_owns_a_snapshot() {
    let mut ctx = JSContext::default();
    let v = JSValue::new_from_json(&mut ctx, "{\"a\": 1, \"b\": 2}").expect("value");
    let o = v.as_object().expect("object");
    let mut first = o.property_names();
    let mut second = o.property_names();
    assert_eq!(first.next().expect("a"), JSString::from_text("a"));
    assert_eq!(first.next().expect("b"), JSString::from_text("b"));
    assert!(first.next().is_none());
    assert_eq!(second.size_hint(), (2, Some(2)));
    assert_eq!(second.next().expect("a"), JSString::from_text("a"));
}
