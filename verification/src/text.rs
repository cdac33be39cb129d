use vstd::prelude::*;
use vstd::string::StrSliceExecFns;

verus! {

/// An immutable string handle: the text of a property name or of a string
/// value.  Equality is content equality of the text, never handle identity.
#[derive(Debug)]
pub struct JSString {
    pub text: Vec<char>,
}

impl View for JSString {
    type V = Seq<char>;

    open spec fn view(&self) -> Seq<char> {
        self.text@
    }
}

impl JSString {
    /// Builds a string handle holding the given text.
    pub fn from_text(s: &str) -> (r: JSString)
        ensures
            r@ == s@,
    {
        JSString { text: str_chars(s) }
    }

    /// Builds a string handle directly from a character buffer.
    pub fn from_chars(text: Vec<char>) -> (r: JSString)
        ensures
            r@ == text@,
    {
        JSString { text }
    }

    /// The number of characters of the text.
    pub fn len(&self) -> (n: usize)
        ensures
            n == self@.len(),
    {
        self.text.len()
    }

    /// The text as a fresh character buffer.
    pub fn chars_vec(&self) -> (r: Vec<char>)
        ensures
            r@ == self@,
    {
        copy_chars(&self.text)
    }
}

impl Clone for JSString {
    fn clone(&self) -> (r: JSString)
        ensures
            r@ == self@,
    {
        JSString { text: copy_chars(&self.text) }
    }
}

impl PartialEq for JSString {
    fn eq(&self, other: &JSString) -> (r: bool) {
        chars_eq(&self.text, &other.text)
    }
}

impl Eq for JSString {

}

impl vstd::std_specs::cmp::PartialEqSpecImpl for JSString {
    open spec fn obeys_eq_spec() -> bool {
        true
    }

    open spec fn eq_spec(&self, other: &JSString) -> bool {
        self@ == other@
    }
}

/// The characters of a string slice, in order, as a vector.
pub fn str_chars(s: &str) -> (r: Vec<char>)
    ensures
        r@ == s@,
{
    let n = s.unicode_len();
    let mut v: Vec<char> = Vec::new();
    let mut i: usize = 0;
    while i < n
        invariant
            n == s@.len(),
            i <= n,
            v@ =~= s@.subrange(0, i as int),
        decreases n - i,
    {
        let c = s.get_char(i);
        v.push(c);
        proof {
            assert(v@ =~= s@.subrange(0, i + 1));
        }
        i = i + 1;
    }
    proof {
        assert(v@ =~= s@);
    }
    v
}

/// A fresh copy of a character buffer.
pub fn copy_chars(a: &Vec<char>) -> (r: Vec<char>)
    ensures
        r@ == a@,
{
    let mut v: Vec<char> = Vec::new();
    let mut i: usize = 0;
    while i < a.len()
        invariant
            i <= a@.len(),
            v@ =~= a@.subrange(0, i as int),
        decreases a@.len() - i,
    {
        v.push(a[i]);
        proof {
            assert(v@ =~= a@.subrange(0, i + 1));
        }
        i = i + 1;
    }
    proof {
        assert(v@ =~= a@);
    }
    v
}

/// Whether two character buffers hold the same characters.
pub fn chars_eq(a: &Vec<char>, b: &Vec<char>) -> (r: bool)
    ensures
        r == (a@ == b@),
{
    if a.len() != b.len() {
        return false;
    }
    let mut i: usize = 0;
    while i < a.len()
        invariant
            a@.len() == b@.len(),
            i <= a@.len(),
            forall|k: int| 0 <= k < i ==> a@[k] == b@[k],
        decreases a@.len() - i,
    {
        if a[i] != b[i] {
            return false;
        }
        i = i + 1;
    }
    proof {
        assert(a@ =~= b@);
    }
    true
}

} // verus!
