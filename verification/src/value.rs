use vstd::prelude::*;
use crate::context::{JSContext, JsCell};
use crate::json;
use crate::object::JSObject;

verus! {

/// A value handle: a raw engine reference (a handle into the context's
/// heap) coupled with a non-owning borrow of the context that produced
/// it.  Immutable once constructed; the borrow keeps every use of the
/// handle within the context's lifetime.
#[derive(Clone, Copy)]
pub struct JSValue<'c> {
    pub ctx: &'c JSContext,
    pub raw: usize,
}

impl<'c> JSValue<'c> {
    /// Validity of the handle: its context is well formed and the raw
    /// reference points into the context's heap.
    pub open spec fn wf(self) -> bool {
        self.ctx.wf() && self.raw < self.ctx.heap@.len()
    }

    /// The cell this handle points at.
    pub open spec fn cell(self) -> JsCell {
        self.ctx.heap@[self.raw as int]
    }

    pub open spec fn spec_is_undefined(self) -> bool {
        self.cell() is Undefined
    }

    pub open spec fn spec_is_null(self) -> bool {
        self.cell() is Null
    }

    pub open spec fn spec_is_boolean(self) -> bool {
        self.cell() is Boolean
    }

    pub open spec fn spec_is_number(self) -> bool {
        self.cell() is Number
    }

    pub open spec fn spec_is_string(self) -> bool {
        self.cell() is Text
    }

    pub open spec fn spec_is_object(self) -> bool {
        self.cell() is Object
    }

    /// Builds a value in the context from a piece of JSON text: the
    /// engine's parse-and-allocate entry point.  It succeeds exactly on
    /// the texts that `spec_parse_text` accepts (objects without
    /// repeated member names, strings without escape sequences, and
    /// integer numbers in the signed 64-bit range, with arrays stored as
    /// objects keyed by decimal index names), and the returned handle
    /// then stores exactly the value tree the text denotes.  The
    /// context's heap only grows, so handles already given out stay
    /// valid.
    pub fn new_from_json<'a>(ctx: &'a mut JSContext, json_text: &str) -> (r: Option<JSValue<'a>>)
        requires
            old(ctx).wf(),
        ensures
            final(ctx).wf(),
            old(ctx).heap@.len() <= final(ctx).heap@.len(),
            forall|k: int|
                0 <= k < old(ctx).heap@.len() ==> final(ctx).heap@[k] == old(ctx).heap@[k],
            r is Some <==> json::spec_parse_text(json_text@) is Some,
            r is Some ==> r.unwrap().wf() && r.unwrap().ctx == *final(ctx),
            r is Some ==> crate::model::heap_models(
                final(ctx).heap@,
                r.unwrap().raw as int,
                json::spec_parse_text(json_text@).unwrap(),
            ),
    {
        let parsed = json::parse_text(ctx, json_text);
        match parsed {
            Some(h) => Some(JSValue { ctx: &*ctx, raw: h }),
            None => None,
        }
    }

    /// Whether the value is the undefined value.
    pub fn is_undefined(&self) -> (r: bool)
        requires
            self.wf(),
        ensures
            r == self.spec_is_undefined(),
    {
        match &self.ctx.heap[self.raw] {
            JsCell::Undefined => true,
            _ => false,
        }
    }

    /// Whether the value is the null value.
    pub fn is_null(&self) -> (r: bool)
        requires
            self.wf(),
        ensures
            r == self.spec_is_null(),
    {
        match &self.ctx.heap[self.raw] {
            JsCell::Null => true,
            _ => false,
        }
    }

    /// Whether the value is a boolean.
    pub fn is_boolean(&self) -> (r: bool)
        requires
            self.wf(),
        ensures
            r == self.spec_is_boolean(),
    {
        match &self.ctx.heap[self.raw] {
            JsCell::Boolean(_) => true,
            _ => false,
        }
    }

    /// Whether the value is a number.
    pub fn is_number(&self) -> (r: bool)
        requires
            self.wf(),
        ensures
            r == self.spec_is_number(),
    {
        match &self.ctx.heap[self.raw] {
            JsCell::Number(_) => true,
            _ => false,
        }
    }

    /// Whether the value is a string.
    pub fn is_string(&self) -> (r: bool)
        requires
            self.wf(),
        ensures
            r == self.spec_is_string(),
    {
        match &self.ctx.heap[self.raw] {
            JsCell::Text(_) => true,
            _ => false,
        }
    }

    /// Whether the value is an object.
    pub fn is_object(&self) -> (r: bool)
        requires
            self.wf(),
        ensures
            r == self.spec_is_object(),
    {
        match &self.ctx.heap[self.raw] {
            JsCell::Object(_) => true,
            _ => false,
        }
    }

    /// Refines the value into an object handle.  Every object is a value;
    /// the object handle embeds this value handle and delegates to it.
    pub fn as_object(&self) -> (r: Option<JSObject<'c>>)
        requires
            self.wf(),
        ensures
            self.spec_is_object() ==> r == Some((JSObject { value: *self })),
            !self.spec_is_object() ==> r is None,
    {
        if self.is_object() {
            Some(JSObject { value: *self })
        } else {
            None
        }
    }
}

} // verus!
