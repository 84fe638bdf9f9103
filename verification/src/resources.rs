//! What the solver shares between its passes: gravity, the candidate pairs of
//! the broad phase, and the contacts that the position passes record for the
//! velocity passes.

use vstd::prelude::*;
use crate::fixed::Fixed;
use crate::vec2::{vec2_of, Vec2};

verus! {

/// The acceleration that every dynamic body is under.
#[derive(Debug, Clone, Copy, PartialEq, Eq, Structural)]
pub struct Gravity(pub Vec2);

impl Default for Gravity {
    /// 9.81 downward.
    fn default() -> (gravity: Gravity)
        ensures
            gravity.0 == vec2_of(0, -9_810_000_000),
    {
        Gravity(Vec2::new(Fixed::from_raw(0), Fixed::from_raw(-9_810_000_000)))
    }
}

/// Contacts between two dynamic bodies: the two bodies and the normal from
/// the first toward the second.
#[derive(Debug)]
pub struct Contacts(pub Vec<(u64, u64, Vec2)>);

impl Default for Contacts {
    /// The empty list.
    fn default() -> (contacts: Contacts)
        ensures
            contacts.0@ == Seq::<(u64, u64, Vec2)>::empty(),
    {
        Contacts(Vec::new())
    }
}

impl Contacts {
    pub fn new() -> (contacts: Contacts)
        ensures
            contacts.0@ == Seq::<(u64, u64, Vec2)>::empty(),
    {
        Contacts(Vec::new())
    }
}

/// Contacts of a dynamic body with a static one: the dynamic body, the static
/// body and the normal from the first toward the second.
#[derive(Debug)]
pub struct StaticContacts(pub Vec<(u64, u64, Vec2)>);

impl Default for StaticContacts {
    /// The empty list.
    fn default() -> (contacts: StaticContacts)
        ensures
            contacts.0@ == Seq::<(u64, u64, Vec2)>::empty(),
    {
        StaticContacts(Vec::new())
    }
}

impl StaticContacts {
    pub fn new() -> (contacts: StaticContacts)
        ensures
            contacts.0@ == Seq::<(u64, u64, Vec2)>::empty(),
    {
        StaticContacts(Vec::new())
    }
}

/// The pairs of bodies whose bounding boxes overlap.
#[derive(Debug)]
pub struct CollisionPairs(pub Vec<(u64, u64)>);

impl Default for CollisionPairs {
    /// The empty list.
    fn default() -> (pairs: CollisionPairs)
        ensures
            pairs.0@ == Seq::<(u64, u64)>::empty(),
    {
        CollisionPairs(Vec::new())
    }
}

impl CollisionPairs {
    pub fn new() -> (pairs: CollisionPairs)
        ensures
            pairs.0@ == Seq::<(u64, u64)>::empty(),
    {
        CollisionPairs(Vec::new())
    }
}

} // verus!
