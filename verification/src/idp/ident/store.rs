//! The key/value backend of the identity database.

use crate::text::{as_opt_str, opt_str, opt_text, same_opt};
use vstd::hash_map::StringHashMap;
use vstd::prelude::*;

verus! {

/// What a store holds: texts by key.
pub type Contents = Map<Seq<char>, Seq<char>>;

/// The value held under a key, if any.
pub open spec fn lookup(m: Contents, key: Seq<char>) -> Option<Seq<char>> {
    if m.contains_key(key) {
        Some(m[key])
    } else {
        None
    }
}

/// Pluggable key/value backend for the identity database.
///
/// Implement this over Redis, SQL and the like for multi-instance
/// deployments. Each method takes effect as a whole: nothing another process
/// does falls inside it.
pub trait IdentityStore: Send + Sync {
    /// What the store holds. It speaks of the methods below in contracts only:
    /// ordinary Rust code that implements the trait leaves it out.
    open spec fn contents(&self) -> Contents {
        Map::empty()
    }

    /// Fetch a value. A store holds finitely many keys.
    fn get(&self, key: &str) -> (result: Option<String>)
        ensures
            opt_text(result) == lookup(self.contents(), key@),
            self.contents().dom().finite(),
    ;

    /// Store a value.
    fn set(&mut self, key: &str, value: String)
        ensures
            final(self).contents() == old(self).contents().insert(key@, value@),
    ;

    /// Remove a value.
    fn remove(&mut self, key: &str)
        ensures
            final(self).contents() == old(self).contents().remove(key@),
    ;

    /// Atomically replace `key`'s value with `new`, but only if its current
    /// value equals `expected` (`None` means "key must be absent"). Returns
    /// whether the swap happened.
    ///
    /// Every writer of a user's list of NameIDs goes through this, so that two
    /// writers cannot both act on the same old list. The provided
    /// implementation reads, then writes, which is enough for a store that
    /// nothing else has access to. A store over a backend that several
    /// processes share has to replace it by one atomic operation of the backend
    /// itself.
    fn compare_and_swap(&mut self, key: &str, expected: Option<&str>, new: &str) -> (swapped: bool)
        ensures
            swapped == (lookup(old(self).contents(), key@) == opt_str(expected)),
            final(self).contents() == if swapped {
                old(self).contents().insert(key@, new@)
            } else {
                old(self).contents()
            },
    {
        let current = self.get(key);
        if !same_opt(as_opt_str(&current), expected) {
            return false;
        }
        self.set(key, new.to_owned());
        true
    }
}

/// The texts of a map from texts to strings.
pub open spec fn map_texts(m: Map<Seq<char>, String>) -> Contents {
    m.map_values(|s: String| s@)
}

/// In-memory identity store, for single-instance deployments and tests.
pub struct InMemoryIdentityStore {
    map: StringHashMap<String>,
}

impl InMemoryIdentityStore {
    #[verifier::type_invariant]
    spec fn well_formed(self) -> bool {
        self.map@.dom().finite()
    }

    /// Create an empty store.
    pub fn new() -> (result: Self)
        ensures
            result.contents() == Map::<Seq<char>, Seq<char>>::empty(),
    {
        let result = InMemoryIdentityStore { map: StringHashMap::new() };
        assert(result.contents() == Map::<Seq<char>, Seq<char>>::empty());
        result
    }

    /// Take the map out, leaving the store empty.
    fn take(&mut self) -> (map: StringHashMap<String>)
        ensures
            map_texts(map@) == old(self).contents(),
            map@.dom().finite(),
    {
        let mut taken = InMemoryIdentityStore::new();
        core::mem::swap(self, &mut taken);
        proof {
            use_type_invariant(&taken);
        }
        let InMemoryIdentityStore { map } = taken;
        map
    }
}

impl Default for InMemoryIdentityStore {
    fn default() -> (result: Self)
        ensures
            result.contents() == Map::<Seq<char>, Seq<char>>::empty(),
    {
        Self::new()
    }
}

impl IdentityStore for InMemoryIdentityStore {
    closed spec fn contents(&self) -> Contents {
        map_texts(self.map@)
    }

    fn get(&self, key: &str) -> (result: Option<String>) {
        proof {
            use_type_invariant(self);
        }
        assert(self.contents().dom() == self.map@.dom());
        match self.map.get(key) {
            Some(v) => Some(v.clone()),
            None => None,
        }
    }

    fn set(&mut self, key: &str, value: String) {
        let mut map = self.take();
        map.insert(key.to_owned(), value);
        *self = InMemoryIdentityStore { map };
        assert(self.contents() == old(self).contents().insert(key@, value@));
    }

    fn remove(&mut self, key: &str) {
        let mut map = self.take();
        map.remove(key);
        *self = InMemoryIdentityStore { map };
        assert(self.contents() == old(self).contents().remove(key@));
    }

    fn compare_and_swap(
        &mut self,
        key: &str,
        expected: Option<&str>,
        new: &str,
    ) -> (swapped: bool) {
        let current = self.get(key);
        if !same_opt(crate::text::as_opt_str(&current), expected) {
            return false;
        }
        self.set(key, new.to_owned());
        true
    }
}

} // verus!
