use vstd::prelude::*;
use crate::context::JsCell;

verus! {

/// A JSON value as a mathematical tree: what a piece of accepted JSON
/// text denotes, independent of where the engine stores it.  An array
/// denotes an object whose member names are the canonical decimal texts
/// of its element indices.
pub enum JsonVal {
    Null,
    Boolean(bool),
    Number(i64),
    Text(Seq<char>),
    Object(Seq<JsonMember>),
}

/// One member of a JSON object value: a name and the value bound to it.
pub struct JsonMember {
    pub name: Seq<char>,
    pub value: JsonVal,
}

/// Whether the cell at handle `h` stores exactly the value tree `v`:
/// the cell has the tree's kind and payload, and for an object, its
/// properties carry the members' names in order, each property handle
/// storing the member's value in turn.
pub open spec fn heap_models(heap: Seq<JsCell>, h: int, v: JsonVal) -> bool
    decreases v,
{
    &&& 0 <= h < heap.len()
    &&& match v {
        JsonVal::Null => heap[h] is Null,
        JsonVal::Boolean(b) => heap[h] == JsCell::Boolean(b),
        JsonVal::Number(n) => heap[h] == JsCell::Number(n),
        JsonVal::Text(t) => match heap[h] {
            JsCell::Text(js) => js@ == t,
            _ => false,
        },
        JsonVal::Object(members) => match heap[h] {
            JsCell::Object(props) => {
                &&& props@.len() == members.len()
                &&& forall|m: int|
                    0 <= m < members.len() ==> (#[trigger] props@[m].name@) == members[m].name
                &&& forall|m: int|
                    0 <= m < members.len() ==> heap_models(
                        heap,
                        props@[m].value as int,
                        #[trigger] members[m].value,
                    )
            },
            _ => false,
        },
    }
}

/// A cell keeps modelling its value tree when the heap grows without
/// touching the cells already present.
pub proof fn lemma_heap_models_grow(h1: Seq<JsCell>, h2: Seq<JsCell>, h: int, v: JsonVal)
    requires
        heap_models(h1, h, v),
        h1.len() <= h2.len(),
        forall|k: int| 0 <= k < h1.len() ==> h2[k] == h1[k],
    ensures
        heap_models(h2, h, v),
    decreases v,
{
    match v {
        JsonVal::Object(members) => {
            match h1[h] {
                JsCell::Object(props) => {
                    assert forall|m: int| 0 <= m < members.len() implies heap_models(
                        h2,
                        props@[m].value as int,
                        #[trigger] members[m].value,
                    ) by {
                        lemma_heap_models_grow(h1, h2, props@[m].value as int, members[m].value);
                    }
                },
                _ => {},
            }
        },
        _ => {},
    }
}

} // verus!
