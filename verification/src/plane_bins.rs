//! Binary planes of faces, binned by a key, in a hash map.

use vstd::prelude::*;
use bevy_platform::collections::HashMap;

verus! {

/// The planes held by a hash map, as a mathematical map from key to the
/// 32 rows of the plane. A key holds what the faces of its plane have in
/// common, and the layer along the face direction's axis in which they lie.
pub uninterp spec fn plane_map(m: HashMap<(u32, u32), [u32; 32]>) -> Map<(u32, u32), Seq<u32>>;

/// True when `entries` lists every entry of `m` exactly once.
pub open spec fn lists_map(entries: Seq<((u32, u32), [u32; 32])>, m: Map<(u32, u32), Seq<u32>>) -> bool {
    &&& forall|i: int, j: int|
        0 <= i < j < entries.len() ==> (#[trigger] entries[i]).0 != (#[trigger] entries[j]).0
    &&& forall|i: int|
        0 <= i < entries.len() ==> m.contains_key((#[trigger] entries[i]).0) && m[entries[i].0]
            == entries[i].1@
    &&& forall|key: (u32, u32)| #[trigger]
        m.contains_key(key) ==> exists|i: int| 0 <= i < entries.len() && (#[trigger] entries[i]).0 == key
}

/// `HashMap::new` of `bevy_platform`: a map without entries.
#[verifier::external_body]
fn planes_new() -> (m: HashMap<(u32, u32), [u32; 32]>)
    ensures
        plane_map(m) =~= Map::empty(),
{
    HashMap::new()
}

/// `HashMap::get` of `bevy_platform`: the value stored under the key, or
/// nothing where the map has no such key. The plane is handed out by copy.
#[verifier::external_body]
fn planes_get(m: &HashMap<(u32, u32), [u32; 32]>, key: (u32, u32)) -> (r: Option<[u32; 32]>)
    ensures
        r is Some <==> plane_map(*m).contains_key(key),
        r is Some ==> r->0@ == plane_map(*m)[key],
{
    m.get(&key).copied()
}

/// `HashMap::insert` of `bevy_platform`: afterwards the key holds the new
/// value and every other key is as before.
#[verifier::external_body]
fn planes_insert(m: &mut HashMap<(u32, u32), [u32; 32]>, key: (u32, u32), plane: [u32; 32])
    ensures
        plane_map(*final(m)) == plane_map(*old(m)).insert(key, plane@),
{
    m.insert(key, plane);
}

/// `HashMap::iter` of `bevy_platform`: visits every entry once, in an order
/// that is not specified. The entries are handed out by copy.
#[verifier::external_body]
fn planes_entries(m: &HashMap<(u32, u32), [u32; 32]>) -> (entries: Vec<((u32, u32), [u32; 32])>)
    ensures
        lists_map(entries@, plane_map(*m)),
{
    m.iter().map(|(key, plane)| (*key, *plane)).collect()
}

/// The plane under `key`, or the empty plane where `m` has none.
pub open spec fn plane_in(m: Map<(u32, u32), Seq<u32>>, key: (u32, u32)) -> Seq<u32> {
    if m.contains_key(key) {
        m[key]
    } else {
        Seq::new(32, |i: int| 0u32)
    }
}

/// The planes after bit `bit` of row `row` was set in the plane under `key`.
pub open spec fn with_face(m: Map<(u32, u32), Seq<u32>>, key: (u32, u32), row: int, bit: int) -> Map<
    (u32, u32),
    Seq<u32>,
> {
    m.insert(
        key,
        plane_in(m, key).update(row, plane_in(m, key)[row] | (1u32 << (bit as u32))),
    )
}

/// Binary planes by key. Planes come into being with their first face.
pub struct PlaneBins(pub HashMap<(u32, u32), [u32; 32]>);

impl PlaneBins {
    /// The planes, by key.
    pub open spec fn view(&self) -> Map<(u32, u32), Seq<u32>> {
        plane_map(self.0)
    }

    /// No planes.
    #[must_use]
    pub fn new() -> (bins: Self)
        ensures
            bins@ == Map::<(u32, u32), Seq<u32>>::empty(),
    {
        PlaneBins(planes_new())
    }

    /// The plane under `key`, if there is one.
    #[must_use]
    pub fn get(&self, key: (u32, u32)) -> (r: Option<[u32; 32]>)
        ensures
            r is Some <==> self@.contains_key(key),
            r is Some ==> r->0@ == self@[key],
    {
        planes_get(&self.0, key)
    }

    /// Sets bit `bit` of row `row` in the plane under `key`, which is made
    /// first where there is none.
    pub fn add_face(&mut self, key: (u32, u32), row: usize, bit: usize)
        requires
            row < 32,
            bit < 32,
            old(self)@.contains_key(key) ==> old(self)@[key].len() == 32,
        ensures
            final(self)@ == with_face(old(self)@, key, row as int, bit as int),
    {
        let mut plane: [u32; 32] = match planes_get(&self.0, key) {
            Some(plane) => plane,
            None => {
                let empty = [0u32; 32];
                proof {
                    assert(empty@ =~= plane_in(self@, key));
                }
                empty
            },
        };
        plane[row] = plane[row] | (1u32 << (bit as u32));
        planes_insert(&mut self.0, key, plane);
    }

    /// Every plane with its key, each once, in no particular order.
    #[must_use]
    pub fn entries(&self) -> (entries: Vec<((u32, u32), [u32; 32])>)
        ensures
            lists_map(entries@, self@),
    {
        planes_entries(&self.0)
    }
}

} // verus!
