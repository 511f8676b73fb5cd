//! Issued assertions, kept for queries over the back channel.

use crate::saml::response::{Assertion, AssertionView};
use crate::text::same;
use vstd::prelude::*;

verus! {

/// Pluggable store of issued assertions.
pub trait AssertionStore: Send + Sync {
    /// The assertions that were stored, in order. It is for contracts only:
    /// ordinary Rust code that implements the trait leaves it out.
    open spec fn stored(&self) -> Seq<AssertionView> {
        Seq::empty()
    }

    /// Store an assertion.
    fn store_assertion(&mut self, assertion: Assertion)
        ensures
            final(self).stored() == old(self).stored().push(assertion@),
    ;
}

/// What a list of assertions says.
pub open spec fn assertion_views(v: Seq<Assertion>) -> Seq<AssertionView> {
    Seq::new(v.len(), |i: int| v[i]@)
}

/// In-memory assertion store.
#[derive(Debug)]
pub struct InMemoryAssertionStore {
    assertions: Vec<Assertion>,
}

impl InMemoryAssertionStore {
    /// An empty store.
    pub fn new() -> (result: Self)
        ensures
            result.stored() == Seq::<AssertionView>::empty(),
    {
        let result = InMemoryAssertionStore { assertions: Vec::new() };
        assert(result.stored() == Seq::<AssertionView>::empty());
        result
    }

    /// The first stored assertion with an identifier.
    pub fn get(&self, id: &str) -> (result: Option<&Assertion>)
        ensures
            match result {
                Some(a) => exists|i: int|
                    {
                        &&& 0 <= i < self.stored().len()
                        &&& #[trigger] self.stored()[i] == a@
                        &&& a@.id == id@
                        &&& forall|k: int| 0 <= k < i ==> (#[trigger] self.stored()[k]).id != id@
                    },
                None => forall|k: int|
                    0 <= k < self.stored().len() ==> (#[trigger] self.stored()[k]).id != id@,
            },
    {
        let mut i: usize = 0;
        while i < self.assertions.len()
            invariant
                i <= self.assertions@.len(),
                self.stored() == assertion_views(self.assertions@),
                forall|k: int| 0 <= k < i ==> (#[trigger] self.stored()[k]).id != id@,
            decreases self.assertions@.len() - i,
        {
            assert(self.stored()[i as int] == self.assertions@[i as int]@);
            if same(self.assertions[i].id.as_str(), id) {
                return Some(&self.assertions[i]);
            }
            i += 1;
        }
        None
    }
}

impl AssertionStore for InMemoryAssertionStore {
    closed spec fn stored(&self) -> Seq<AssertionView> {
        assertion_views(self.assertions@)
    }

    fn store_assertion(&mut self, assertion: Assertion) {
        let ghost before = self.stored();
        let ghost shown = assertion@;
        self.assertions.push(assertion);
        assert(self.stored() == before.push(shown));
    }
}

} // verus!
