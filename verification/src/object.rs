use vstd::prelude::*;
use vstd::pervasive::unreached;
use crate::context::{
    JsCell, JsProp, cell_wf, lemma_lookup_found, lemma_lookup_none, spec_lookup, spec_prop_names,
};
use crate::decimal::{decimal_chars, spec_decimal};
use crate::iter::JSObjectPropertyNameIter;
use crate::text::{JSString, chars_eq, str_chars};
use crate::value::JSValue;

verus! {

/// An object handle: a refinement of a value handle.  Every object is a
/// value, so the object handle embeds the value handle and delegates
/// every value-level operation to it, while adding the
/// property-oriented operations.
#[derive(Clone, Copy)]
pub struct JSObject<'c> {
    pub value: JSValue<'c>,
}

/// The handle bound to `name` among `props`, found by scanning in order.
pub fn lookup_prop(props: &Vec<JsProp>, name: &Vec<char>) -> (r: Option<usize>)
    ensures
        r == spec_lookup(props@, name@),
{
    proof {
        assert(props@.skip(0) =~= props@);
    }
    let mut i: usize = 0;
    while i < props.len()
        invariant
            i <= props@.len(),
            spec_lookup(props@, name@) == spec_lookup(props@.skip(i as int), name@),
        decreases props@.len() - i,
    {
        proof {
            assert(props@.skip(i as int)[0] == props@[i as int]);
            assert(props@.skip(i as int).drop_first() =~= props@.skip(i as int + 1));
        }
        if chars_eq(&props[i].name.text, name) {
            return Some(props[i].value);
        }
        i = i + 1;
    }
    proof {
        assert(props@.skip(props@.len() as int) =~= Seq::<JsProp>::empty());
    }
    None
}

impl<'c> JSObject<'c> {
    /// Validity of the object handle: the embedded value handle is valid
    /// and points at an object cell.
    pub open spec fn wf(self) -> bool {
        self.value.wf() && self.value.spec_is_object()
    }

    /// The object's own enumerable properties, in insertion order.
    pub open spec fn props(self) -> Seq<JsProp> {
        match self.value.cell() {
            JsCell::Object(props) => props@,
            _ => Seq::empty(),
        }
    }

    /// Tests whether the object has a property of the given name: true
    /// exactly when some own property carries the name.  Modeled objects
    /// have no prototype chain, so resolution is over the object's own
    /// properties alone.
    pub fn has_property(&self, name: &str) -> (r: bool)
        requires
            self.wf(),
        ensures
            r == (spec_lookup(self.props(), name@) is Some),
            r <==> exists|m: int|
                0 <= m < self.props().len() && (#[trigger] self.props()[m]).name@ == name@,
    {
        let name_chars = str_chars(name);
        let found = match &self.value.ctx.heap[self.value.raw] {
            JsCell::Object(props) => lookup_prop(props, &name_chars),
            _ => unreached(),
        };
        proof {
            if found is Some {
                lemma_lookup_found(self.props(), name_chars@);
            } else {
                lemma_lookup_none(self.props(), name_chars@);
            }
        }
        found.is_some()
    }

    /// Gets a property of the object by name.  Yields the value bound to
    /// the name, or the context's undefined value when the object has no
    /// property of that name.
    pub fn get_property(&self, name: &str) -> (r: JSValue<'c>)
        requires
            self.wf(),
        ensures
            r.wf(),
            r.ctx == self.value.ctx,
            spec_lookup(self.props(), name@) is Some ==> r.raw == spec_lookup(
                self.props(),
                name@,
            ).unwrap(),
            spec_lookup(self.props(), name@) is None ==> r.raw == 0 && r.spec_is_undefined(),
    {
        let name_chars = str_chars(name);
        self.get_property_by_chars(&name_chars)
    }

    /// Gets a property of the object by numeric index: the engine's
    /// indexed-access path.  Equivalent to a name lookup with the
    /// index's canonical decimal text; an engine array stores its
    /// elements under exactly those names.
    pub fn get_property_at_index(&self, index: u32) -> (r: JSValue<'c>)
        requires
            self.wf(),
        ensures
            r.wf(),
            r.ctx == self.value.ctx,
            spec_lookup(self.props(), spec_decimal(index as nat)) is Some ==> r.raw == spec_lookup(
                self.props(),
                spec_decimal(index as nat),
            ).unwrap(),
            spec_lookup(self.props(), spec_decimal(index as nat)) is None ==> r.raw == 0
                && r.spec_is_undefined(),
    {
        let name_chars = decimal_chars(index);
        self.get_property_by_chars(&name_chars)
    }

    /// The shared lookup behind both property getters.
    fn get_property_by_chars(&self, name_chars: &Vec<char>) -> (r: JSValue<'c>)
        requires
            self.wf(),
        ensures
            r.wf(),
            r.ctx == self.value.ctx,
            spec_lookup(self.props(), name_chars@) is Some ==> r.raw == spec_lookup(
                self.props(),
                name_chars@,
            ).unwrap(),
            spec_lookup(self.props(), name_chars@) is None ==> r.raw == 0 && r.spec_is_undefined(),
    {
        let found = match &self.value.ctx.heap[self.value.raw] {
            JsCell::Object(props) => lookup_prop(props, name_chars),
            _ => unreached(),
        };
        match found {
            Some(h) => {
                proof {
                    lemma_lookup_found(self.props(), name_chars@);
                    assert(cell_wf(
                        self.value.ctx.heap@[self.value.raw as int],
                        self.value.ctx.heap@.len(),
                    ));
                }
                JSValue { ctx: self.value.ctx, raw: h }
            },
            None => JSValue { ctx: self.value.ctx, raw: 0 },
        }
    }

    /// Allocates a fresh array of the object's own enumerable property
    /// names, as the engine observes them at call time, and hands its
    /// sole ownership to a new cursor.  Later changes to the object are
    /// not reflected in the cursor.
    pub fn property_names(&self) -> (it: JSObjectPropertyNameIter)
        requires
            self.wf(),
        ensures
            it.wf(),
            it.idx == 0,
            it.names_view() == spec_prop_names(self.props()),
            it.spec_remaining() == self.props().len(),
    {
        let names = match &self.value.ctx.heap[self.value.raw] {
            JsCell::Object(props) => {
                let mut acc: Vec<JSString> = Vec::new();
                let mut i: usize = 0;
                while i < props.len()
                    invariant
                        i <= props@.len(),
                        acc@.len() == i,
                        forall|k: int| 0 <= k < i ==> (#[trigger] acc@[k])@ == props@[k].name@,
                    decreases props@.len() - i,
                {
                    let name = props[i].name.clone();
                    acc.push(name);
                    i = i + 1;
                }
                acc
            },
            _ => unreached(),
        };
        let it = JSObjectPropertyNameIter::new(names);
        proof {
            assert(it.names_view() =~= spec_prop_names(self.props()));
        }
        it
    }

    /// Delegation: the embedded value handle, for any code that works
    /// generically on values.
    pub fn as_value(&self) -> (r: &JSValue<'c>)
        ensures
            *r == self.value,
    {
        &self.value
    }

    /// Delegation: forwards to the embedded value handle.
    pub fn is_undefined(&self) -> (r: bool)
        requires
            self.value.wf(),
        ensures
            r == self.value.spec_is_undefined(),
    {
        self.value.is_undefined()
    }

    /// Delegation: forwards to the embedded value handle.
    pub fn is_null(&self) -> (r: bool)
        requires
            self.value.wf(),
        ensures
            r == self.value.spec_is_null(),
    {
        self.value.is_null()
    }

    /// Delegation: forwards to the embedded value handle.
    pub fn is_boolean(&self) -> (r: bool)
        requires
            self.value.wf(),
        ensures
            r == self.value.spec_is_boolean(),
    {
        self.value.is_boolean()
    }

    /// Delegation: forwards to the embedded value handle.
    pub fn is_number(&self) -> (r: bool)
        requires
            self.value.wf(),
        ensures
            r == self.value.spec_is_number(),
    {
        self.value.is_number()
    }

    /// Delegation: forwards to the embedded value handle.
    pub fn is_string(&self) -> (r: bool)
        requires
            self.value.wf(),
        ensures
            r == self.value.spec_is_string(),
    {
        self.value.is_string()
    }

    /// Delegation: forwards to the embedded value handle.
    pub fn is_object(&self) -> (r: bool)
        requires
            self.value.wf(),
        ensures
            r == self.value.spec_is_object(),
    {
        self.value.is_object()
    }

    /// Law: delegation is transparent.  An object handle derived from a
    /// value answers every type predicate exactly as the value does; in
    /// particular the two agree that they are an object.
    pub proof fn lemma_delegation(v: JSValue<'c>, o: JSObject<'c>)
        requires
            o.value == v,
        ensures
            o.value.spec_is_undefined() == v.spec_is_undefined(),
            o.value.spec_is_null() == v.spec_is_null(),
            o.value.spec_is_boolean() == v.spec_is_boolean(),
            o.value.spec_is_number() == v.spec_is_number(),
            o.value.spec_is_string() == v.spec_is_string(),
            o.value.spec_is_object() == v.spec_is_object(),
            v.wf() && v.spec_is_object() ==> o.wf(),
    {
    }
}

} // verus!
