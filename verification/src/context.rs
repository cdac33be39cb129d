use vstd::prelude::*;
use crate::text::JSString;

verus! {

/// One property of an engine object: the property's name and the handle
/// of the value it is bound to.
pub struct JsProp {
    pub name: JSString,
    pub value: usize,
}

/// What one engine-owned cell holds.  A cell is what a raw value handle
/// points at; an object cell stores its own enumerable properties in
/// insertion order.  An engine array is an object whose property names
/// are the canonical decimal texts of its element indices.
pub enum JsCell {
    Undefined,
    Null,
    Boolean(bool),
    Number(i64),
    Text(JSString),
    Object(Vec<JsProp>),
}

/// One engine execution environment.  It owns every value created within
/// it; a handle is an index into `heap`.  Cell 0 is the shared undefined
/// value, so that absent properties can always be answered.
pub struct JSContext {
    pub heap: Vec<JsCell>,
}

/// The property names of an object cell, in order, as text.
pub open spec fn spec_prop_names(props: Seq<JsProp>) -> Seq<Seq<char>> {
    props.map_values(|p: JsProp| p.name@)
}

/// The handle bound to `name` among `props`: the first property of that
/// name, or nothing when no property has the name.
pub open spec fn spec_lookup(props: Seq<JsProp>, name: Seq<char>) -> Option<usize>
    decreases props.len(),
{
    if props.len() == 0 {
        None
    } else if props[0].name@ == name {
        Some(props[0].value)
    } else {
        spec_lookup(props.drop_first(), name)
    }
}

/// A successful lookup names a property of the list: some property
/// carries the looked-up name and the returned handle.
pub proof fn lemma_lookup_found(props: Seq<JsProp>, name: Seq<char>)
    requires
        spec_lookup(props, name) is Some,
    ensures
        exists|i: int|
            0 <= i < props.len() && (#[trigger] props[i]).name@ == name && props[i].value
                == spec_lookup(props, name).unwrap(),
    decreases props.len(),
{
    if props.len() > 0 {
        if props[0].name@ == name {
            assert(props[0].name@ == name && props[0].value == spec_lookup(props, name).unwrap());
        } else {
            lemma_lookup_found(props.drop_first(), name);
            let i = choose|i: int|
                0 <= i < props.drop_first().len() && (#[trigger] props.drop_first()[i]).name@
                    == name && props.drop_first()[i].value == spec_lookup(
                    props.drop_first(),
                    name,
                ).unwrap();
            assert(props.drop_first()[i] == props[i + 1]);
            assert(props[i + 1].name@ == name && props[i + 1].value == spec_lookup(
                props,
                name,
            ).unwrap());
        }
    }
}

/// A failed lookup means no property of the list carries the name.
pub proof fn lemma_lookup_none(props: Seq<JsProp>, name: Seq<char>)
    requires
        spec_lookup(props, name) is None,
    ensures
        forall|i: int| 0 <= i < props.len() ==> (#[trigger] props[i]).name@ != name,
    decreases props.len(),
{
    if props.len() > 0 {
        lemma_lookup_none(props.drop_first(), name);
        assert forall|i: int| 0 <= i < props.len() implies (#[trigger] props[i]).name@ != name by {
            if i > 0 {
                assert(props.drop_first()[i - 1] == props[i]);
            }
        }
    }
}

/// Whether a cell is well formed against a heap of `n` cells: every
/// handle it stores points into the heap, and its property names are
/// pairwise distinct.
pub open spec fn cell_wf(c: JsCell, n: nat) -> bool {
    match c {
        JsCell::Object(props) => (forall|i: int|
            0 <= i < props@.len() ==> (#[trigger] props@[i]).value < n) && (forall|i: int, j: int|
            0 <= i < j < props@.len() ==> (#[trigger] props@[i].name@) != (#[trigger] props@[j].name@)),
        _ => true,
    }
}

/// A cell well formed against a heap stays well formed when the heap grows.
pub proof fn lemma_cell_wf_grow(c: JsCell, n: nat, m: nat)
    requires
        cell_wf(c, n),
        n <= m,
    ensures
        cell_wf(c, m),
{
}

/// Well-formedness of a heap: the undefined cell sits at handle 0, and
/// every cell is well formed against the heap.
pub open spec fn heap_ok(heap: Seq<JsCell>) -> bool {
    &&& heap.len() >= 1
    &&& heap[0] is Undefined
    &&& forall|k: int| 0 <= k < heap.len() ==> cell_wf(#[trigger] heap[k], heap.len())
}

impl JSContext {
    /// Well-formedness of a context: its heap is well formed.
    pub open spec fn wf(self) -> bool {
        heap_ok(self.heap@)
    }
}

/// Appends one well-formed cell to a well-formed heap and returns its
/// handle; every cell already in the heap keeps its place.
pub fn alloc_cell(heap: &mut Vec<JsCell>, c: JsCell) -> (h: usize)
    requires
        heap_ok(old(heap)@),
        cell_wf(c, old(heap)@.len()),
    ensures
        heap_ok(final(heap)@),
        final(heap)@.len() == old(heap)@.len() + 1,
        forall|k: int| 0 <= k < old(heap)@.len() ==> final(heap)@[k] == old(heap)@[k],
        h == old(heap)@.len(),
        final(heap)@[h as int] == c,
{
    let h = heap.len();
    heap.push(c);
    proof {
        assert forall|k: int| 0 <= k < heap@.len() implies cell_wf(
            #[trigger] heap@[k],
            heap@.len(),
        ) by {
            lemma_cell_wf_grow(heap@[k], old(heap)@.len(), heap@.len());
        }
    }
    h
}

impl Default for JSContext {
    /// A fresh context: its heap holds only the undefined cell.
    fn default() -> (r: JSContext)
        ensures
            r.wf(),
            r.heap@.len() == 1,
    {
        let mut heap: Vec<JsCell> = Vec::new();
        heap.push(JsCell::Undefined);
        JSContext { heap }
    }
}

} // verus!
