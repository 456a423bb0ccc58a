//! Registration keys: the identity under which a value is registered and resolved.
use std::any::TypeId;
use vstd::prelude::*;

verus! {

/// `TypeId` is carried through the registry as an opaque identity.
#[verifier::external_type_specification]
#[verifier::external_body]
pub struct ExTypeId(TypeId);

/// `<TypeId as PartialEq>::eq`: `TypeId` compares by the identity it wraps, so two
/// ids compare equal exactly when they are the same value.
#[verifier::external_body]
fn type_ids_equal(a: &TypeId, b: &TypeId) -> (r: bool)
    ensures
        r == (*a == *b),
{
    a == b
}

/// The abstract value of a key: the type and, for a named registration, the name.
pub type KeyView = (TypeId, Option<Seq<char>>);

/// The view of an optional owned name.
pub open spec fn name_view(name: Option<String>) -> Option<Seq<char>> {
    match name {
        Some(n) => Some(n@),
        None => None,
    }
}

/// The view of an optional borrowed name.
pub open spec fn name_ref_view(name: Option<&str>) -> Option<Seq<char>> {
    match name {
        Some(n) => Some(n@),
        None => None,
    }
}

/// A type together with an optional name. Two registrations of the same type under
/// different names (or one named and one unnamed) are different keys.
#[derive(Debug)]
pub struct Key {
    type_id: TypeId,
    name: Option<String>,
}

impl View for Key {
    type V = KeyView;

    open spec fn view(&self) -> KeyView {
        (self.spec_type_id(), name_view(self.spec_name()))
    }
}

impl Key {
    pub closed spec fn spec_type_id(&self) -> TypeId {
        self.type_id
    }

    pub closed spec fn spec_name(&self) -> Option<String> {
        self.name
    }

    /// Builds the key of type `type_id`, named `name` when one is given.
    pub fn new(type_id: TypeId, name: Option<&str>) -> (k: Key)
        ensures
            k@ == (type_id, name_ref_view(name)),
    {
        let name = match name {
            Some(n) => Some(n.to_string()),
            None => None,
        };
        Key { type_id, name }
    }

    /// The type part of the key.
    pub fn type_id(&self) -> (t: TypeId)
        ensures
            t == self@.0,
    {
        self.type_id
    }

    /// A fresh copy of the name part of the key.
    pub fn name(&self) -> (n: Option<String>)
        ensures
            name_view(n) == self@.1,
    {
        match &self.name {
            Some(n) => Some(n.clone()),
            None => None,
        }
    }

    /// Whether two keys denote the same registration slot.
    pub fn same(&self, other: &Key) -> (r: bool)
        ensures
            r == (self@ == other@),
    {
        if !type_ids_equal(&self.type_id, &other.type_id) {
            return false;
        }
        match (&self.name, &other.name) {
            (Some(a), Some(b)) => *a == *b,
            (None, None) => true,
            _ => false,
        }
    }

    /// A copy of this key.
    pub fn duplicate(&self) -> (k: Key)
        ensures
            k@ == self@,
    {
        Key { type_id: self.type_id, name: self.name() }
    }
}

impl Clone for Key {
    fn clone(&self) -> (k: Self)
        ensures
            k@ == self@,
    {
        self.duplicate()
    }
}

impl PartialEq for Key {
    fn eq(&self, other: &Self) -> (r: bool) {
        self.same(other)
    }
}

impl Eq for Key {
}

impl vstd::std_specs::cmp::PartialEqSpecImpl for Key {
    open spec fn obeys_eq_spec() -> bool {
        true
    }

    open spec fn eq_spec(&self, other: &Key) -> bool {
        self@ == other@
    }
}

} // verus!
