//! The table of the global variables: a hash map from names to values.
//!
//! The map is a `std::collections::HashMap` that hashes its keys with the
//! hasher of the `rustc-hash` crate.  What the map holds is known here only
//! through the three functions below that call it, and is named `bindings`.
use vstd::prelude::*;
use super::value::Value;
use rustc_hash::{FxBuildHasher, FxHashMap};

verus! {

/// The builder of hashers of `rustc-hash`, which the map is made with.
#[verifier::external_type_specification]
#[verifier::external_body]
pub struct ExFxBuildHasher(FxBuildHasher);

/// What a map holds: the value bound to each name, a name being the
/// characters of a key.
pub uninterp spec fn bindings(map: FxHashMap<String, Value>) -> Map<Seq<char>, Value>;

/// The map that binds no name.
pub open spec fn unbound() -> Map<Seq<char>, Value> {
    Map::empty()
}

/// Makes a map with `HashMap::default`, which is empty.
#[verifier::external_body]
fn map_new() -> (r: FxHashMap<String, Value>)
    ensures
        bindings(r) == unbound(),
{
    FxHashMap::default()
}

/// Binds a key with `HashMap::insert`: the map then holds the value under
/// the key and all else as before, and the result is the value that the key
/// was bound to before, if it was bound.
#[verifier::external_body]
fn map_insert(map: &mut FxHashMap<String, Value>, key: String, value: Value) -> (r: Option<Value>)
    ensures
        bindings(*final(map)) == bindings(*old(map)).insert(key@, value),
        r == if bindings(*old(map)).contains_key(key@) {
            Some(bindings(*old(map))[key@])
        } else {
            None
        },
{
    map.insert(key, value)
}

/// Looks a key up with `HashMap::get`: the result is the value that the key
/// is bound to, if it is bound.
#[verifier::external_body]
fn map_get<'a>(map: &'a FxHashMap<String, Value>, key: &String) -> (r: Option<&'a Value>)
    ensures
        r.is_some() == bindings(*map).contains_key(key@),
        r matches Some(value) ==> *value == bindings(*map)[key@],
{
    map.get(key)
}

/// The global variables.
#[derive(Debug)]
pub struct Table {
    identifer: FxHashMap<String, Value>,
}

impl View for Table {
    type V = Map<Seq<char>, Value>;

    closed spec fn view(&self) -> Map<Seq<char>, Value> {
        bindings(self.identifer)
    }
}

impl Table {
    /// A table that binds no name.
    pub fn new() -> (r: Self)
        ensures
            r@ == unbound(),
    {
        Table { identifer: map_new() }
    }

    /// Binds `key` to `value` and returns the value it was bound to before,
    /// if any.
    pub fn insert(&mut self, key: String, value: Value) -> (r: Option<Value>)
        ensures
            final(self)@ == old(self)@.insert(key@, value),
            r == if old(self)@.contains_key(key@) {
                Some(old(self)@[key@])
            } else {
                None
            },
    {
        map_insert(&mut self.identifer, key, value)
    }

    /// The value bound to `key`, if any.
    pub fn find(&self, key: &String) -> (r: Option<&Value>)
        ensures
            r.is_some() == self@.contains_key(key@),
            r matches Some(value) ==> *value == self@[key@],
    {
        map_get(&self.identifer, key)
    }
}

} // verus!
