//! The variable store: numbers by name.

use vstd::prelude::*;
use vstd::hash_map::StringHashMap;
use crate::number::Number;

verus! {

/// A store of numeric variables, kept in a hash map from names to numbers.
/// Its value is that map.
pub struct Environment {
    map: StringHashMap<Number>,
}

impl View for Environment {
    type V = Map<Seq<char>, Number>;

    closed spec fn view(&self) -> Map<Seq<char>, Number> {
        self.map@
    }
}

impl Environment {
    /// The empty store.
    pub fn new() -> (r: Environment)
        ensures
            r@ == Map::<Seq<char>, Number>::empty(),
    {
        Environment { map: StringHashMap::new() }
    }

    /// The number stored under a name, if any.
    pub fn get(&self, name: &str) -> (r: Option<Number>)
        ensures
            r == if self@.contains_key(name@) {
                Some(self@[name@])
            } else {
                None
            },
    {
        match self.map.get(name) {
            Some(n) => Some(*n),
            None => None,
        }
    }

    /// Stores a number under a name, in place of what was there.
    pub fn insert(&mut self, name: String, value: Number)
        ensures
            final(self)@ == old(self)@.insert(name@, value),
    {
        self.map.insert(name, value);
    }
}

} // verus!
