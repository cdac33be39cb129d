use vstd::prelude::*;
use crate::text::JSString;

verus! {

/// A single-pass, non-restartable cursor over an engine-allocated array
/// of property names.  The cursor is the sole owner of the backing
/// array, which is released exactly once, when the cursor is dropped;
/// the cursor type is deliberately not duplicable, so the array can
/// never be released twice.
pub struct JSObjectPropertyNameIter {
    pub names: Vec<JSString>,
    pub idx: usize,
}

impl JSObjectPropertyNameIter {
    /// The names of the backing array, in order, as text.
    pub open spec fn names_view(self) -> Seq<Seq<char>> {
        self.names@.map_values(|s: JSString| s@)
    }

    /// Cursor validity: the cursor index never leaves `0 ..= count`, and
    /// the count is that of a real array, so it fits the machine.
    pub open spec fn wf(self) -> bool {
        self.idx <= self.names@.len() && self.names@.len() <= usize::MAX
    }

    /// The exact number of names the cursor has not produced yet.
    pub open spec fn spec_remaining(self) -> int {
        self.names@.len() - self.idx
    }

    /// One step of the cursor: before exhaustion it produces the name
    /// under the index and advances; at the terminal state it yields
    /// nothing and stays put.
    pub open spec fn spec_step(self) -> (JSObjectPropertyNameIter, Option<Seq<char>>) {
        if self.idx < self.names@.len() {
            (
                (JSObjectPropertyNameIter { names: self.names, idx: (self.idx + 1) as usize }),
                Some(self.names_view()[self.idx as int]),
            )
        } else {
            (self, None)
        }
    }

    /// How many names the cursor still produces before it reaches the
    /// terminal state.
    pub open spec fn spec_productions(self) -> nat
        decreases self.spec_remaining(),
    {
        if self.spec_remaining() <= 0 || !self.wf() {
            0
        } else {
            1 + self.spec_step().0.spec_productions()
        }
    }

    /// Takes ownership of a freshly allocated name array and starts the
    /// cursor at its beginning.
    pub fn new(names: Vec<JSString>) -> (it: JSObjectPropertyNameIter)
        ensures
            it.names@ == names@,
            it.idx == 0,
            it.wf(),
    {
        proof {
            broadcast use vstd::std_specs::vec::axiom_spec_len;

            assert(names.len() == names@.len());
        }
        JSObjectPropertyNameIter { names, idx: 0 }
    }

    /// Produces the next property name, or nothing once every name has
    /// been produced.  The backing array itself never changes, and a
    /// step taken at the terminal state leaves the cursor exactly as it
    /// was, so exhaustion is idempotent.
    pub fn next(&mut self) -> (r: Option<JSString>)
        requires
            old(self).wf(),
        ensures
            final(self).wf(),
            final(self).names@ == old(self).names@,
            *final(self) == old(self).spec_step().0,
            r is Some <==> old(self).spec_step().1 is Some,
            r is Some ==> r.unwrap()@ == old(self).spec_step().1.unwrap(),
    {
        if self.idx < self.names.len() {
            let name = self.names[self.idx].clone();
            self.idx = self.idx + 1;
            Some(name)
        } else {
            None
        }
    }

    /// The size estimate: the exact count of names still to come, as
    /// both the lower and the upper bound.
    pub fn size_hint(&self) -> (r: (usize, Option<usize>))
        requires
            self.wf(),
        ensures
            r.0 == self.spec_remaining(),
            r.1 == Some(r.0),
    {
        let n = self.names.len() - self.idx;
        (n, Some(n))
    }

    /// Law: the terminal state is idempotent.  Once the cursor has
    /// produced every name, a step yields nothing and leaves the cursor
    /// unchanged, so every later step yields nothing as well.
    pub proof fn lemma_terminal_idempotent(self)
        requires
            self.wf(),
            self.spec_remaining() == 0,
        ensures
            self.spec_step().0 == self,
            self.spec_step().1 is None,
    {
    }

    /// Law: a step taken before exhaustion produces exactly the name
    /// under the cursor and lowers the exact remaining count by one.
    pub proof fn lemma_step_produces(self)
        requires
            self.wf(),
            self.spec_remaining() > 0,
        ensures
            self.spec_step().0.wf(),
            self.spec_step().0.names@ == self.names@,
            self.spec_step().1 == Some(self.names_view()[self.idx as int]),
            self.spec_step().0.spec_remaining() == self.spec_remaining() - 1,
    {
    }

    /// Law: the reported exact remaining count equals the number of
    /// names the cursor still produces before reaching the terminal
    /// state.
    pub proof fn lemma_size_estimate_counts(self)
        requires
            self.wf(),
        ensures
            self.spec_productions() == self.spec_remaining(),
        decreases self.spec_remaining(),
    {
        if self.spec_remaining() > 0 {
            self.lemma_step_produces();
            self.spec_step().0.lemma_size_estimate_counts();
        }
    }
}

} // verus!
