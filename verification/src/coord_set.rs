//! Sets of chunk coordinates.

use vstd::prelude::*;
use bevy_platform::collections::HashSet;
use crate::position::ChunkPosition;

verus! {

#[verifier::external_type_specification]
#[verifier::external_body]
#[verifier::reject_recursive_types(T)]
#[verifier::reject_recursive_types(S)]
pub struct ExHashSet<T, S>(HashSet<T, S>);

/// The members of a hash set of coordinates, as a mathematical set. The
/// member `(x, y, z)` stands for the chunk coordinate with those components.
pub uninterp spec fn coord_set(s: HashSet<(i32, i32, i32)>) -> Set<ChunkPosition>;

/// True when `s` has exactly `n` members.
pub open spec fn has_members(s: Set<ChunkPosition>, n: usize) -> bool {
    s.finite() && s.len() == n
}

/// `HashSet::new` of `bevy_platform`: a set without members.
#[verifier::external_body]
fn set_new() -> (s: HashSet<(i32, i32, i32)>)
    ensures
        coord_set(s) =~= Set::empty(),
{
    HashSet::new()
}

/// `HashSet::len` of `bevy_platform`: the number of members, of which a set
/// has finitely many.
#[verifier::external_body]
fn set_len(s: &HashSet<(i32, i32, i32)>) -> (n: usize)
    ensures
        has_members(coord_set(*s), n),
{
    s.len()
}

/// `HashSet::contains` of `bevy_platform`: whether the value is a member.
#[verifier::external_body]
fn set_contains(s: &HashSet<(i32, i32, i32)>, p: ChunkPosition) -> (r: bool)
    ensures
        r == coord_set(*s).contains(p),
{
    s.contains(&(p.x, p.y, p.z))
}

/// `HashSet::insert` of `bevy_platform`: afterwards the value is a member
/// and every other value is as before; says whether the value was no member
/// before.
#[verifier::external_body]
fn set_insert(s: &mut HashSet<(i32, i32, i32)>, p: ChunkPosition) -> (r: bool)
    ensures
        coord_set(*final(s)) == coord_set(*old(s)).insert(p),
        r == !coord_set(*old(s)).contains(p),
{
    s.insert((p.x, p.y, p.z))
}

/// `HashSet::remove` of `bevy_platform`: afterwards the value is no member
/// and every other value is as before; says whether the value was a member
/// before.
#[verifier::external_body]
fn set_remove(s: &mut HashSet<(i32, i32, i32)>, p: ChunkPosition) -> (r: bool)
    ensures
        coord_set(*final(s)) == coord_set(*old(s)).remove(p),
        r == coord_set(*old(s)).contains(p),
{
    s.remove(&(p.x, p.y, p.z))
}

/// `HashSet::clear` of `bevy_platform`: afterwards the set has no members.
#[verifier::external_body]
fn set_clear(s: &mut HashSet<(i32, i32, i32)>)
    ensures
        coord_set(*final(s)) =~= Set::empty(),
{
    s.clear()
}

/// A set of chunk coordinates.
pub struct CoordSet(pub HashSet<(i32, i32, i32)>);

impl CoordSet {
    /// The members.
    pub open spec fn view(&self) -> Set<ChunkPosition> {
        coord_set(self.0)
    }

    /// The set without members.
    #[must_use]
    pub fn new() -> (s: Self)
        ensures
            s@ == Set::<ChunkPosition>::empty(),
    {
        CoordSet(set_new())
    }

    /// The number of members.
    #[must_use]
    pub fn len(&self) -> (n: usize)
        ensures
            self@.finite(),
            n == self@.len(),
    {
        set_len(&self.0)
    }

    /// Whether `position` is a member.
    #[must_use]
    pub fn contains(&self, position: ChunkPosition) -> (r: bool)
        ensures
            r == self@.contains(position),
    {
        set_contains(&self.0, position)
    }

    /// Makes `position` a member. Says whether it was none before.
    pub fn insert(&mut self, position: ChunkPosition) -> (fresh: bool)
        ensures
            final(self)@ == old(self)@.insert(position),
            fresh == !old(self)@.contains(position),
    {
        set_insert(&mut self.0, position)
    }

    /// Takes `position` out. Says whether it was a member.
    pub fn remove(&mut self, position: ChunkPosition) -> (was_member: bool)
        ensures
            final(self)@ == old(self)@.remove(position),
            was_member == old(self)@.contains(position),
    {
        set_remove(&mut self.0, position)
    }

    /// Takes every member out.
    pub fn clear(&mut self)
        ensures
            final(self)@ == Set::<ChunkPosition>::empty(),
    {
        set_clear(&mut self.0)
    }
}

} // verus!
