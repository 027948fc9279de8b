//! Queues of chunk coordinates, ordered by distance to a viewer.

use vstd::prelude::*;
use crate::coord_set::CoordSet;
use crate::position::ChunkPosition;

verus! {

/// The entries of `s` at squared distance `d` from `viewer`, in their order.
pub open spec fn at_distance(s: Seq<ChunkPosition>, viewer: ChunkPosition, d: int) -> Seq<
    ChunkPosition,
> {
    s.filter(|p: ChunkPosition| p.distance_squared_spec(viewer) == d)
}

/// True when `after` is `before` sorted by distance from `viewer`, nearest
/// first: it has the same entries, as often, in ascending order of
/// distance, and entries at the same distance in the order they had.
pub open spec fn sorted_by_distance(
    before: Seq<ChunkPosition>,
    after: Seq<ChunkPosition>,
    viewer: ChunkPosition,
) -> bool {
    &&& after.to_multiset() == before.to_multiset()
    &&& forall|i: int, j: int|
        0 <= i < j < after.len() ==> (#[trigger] after[i]).distance_squared_spec(viewer) <= (
        #[trigger] after[j]).distance_squared_spec(viewer)
    &&& forall|d: int| #[trigger] at_distance(after, viewer, d) == at_distance(before, viewer, d)
}

/// `sort_by_key` of slices (std), with the squared distance to `viewer` as
/// the key: sorts in ascending order of the key and keeps the order of
/// entries with equal keys.
#[verifier::external_body]
fn sort_by_key_distance(queue: &mut Vec<ChunkPosition>, viewer: ChunkPosition)
    ensures
        sorted_by_distance(old(queue)@, final(queue)@, viewer),
{
    queue.sort_by_key(|p| p.distance_squared(viewer));
}

/// Sorts a queue by distance from `viewer`, nearest first.
pub fn sort_by_distance(queue: &mut Vec<ChunkPosition>, viewer: ChunkPosition)
    ensures
        sorted_by_distance(old(queue)@, final(queue)@, viewer),
{
    sort_by_key_distance(queue, viewer);
}

/// Of a queue sorted by distance, any front part holds the nearest entries:
/// none of them is further from the viewer than any entry behind them, and
/// front and rest together are the queue as it was before sorting.
pub proof fn lemma_front_is_nearest(
    before: Seq<ChunkPosition>,
    front: Seq<ChunkPosition>,
    rest: Seq<ChunkPosition>,
    viewer: ChunkPosition,
)
    requires
        sorted_by_distance(before, front + rest, viewer),
    ensures
        forall|i: int, j: int|
            0 <= i < front.len() && 0 <= j < rest.len() ==> (
            #[trigger] front[i]).distance_squared_spec(viewer) <= (
            #[trigger] rest[j]).distance_squared_spec(viewer),
        front.to_multiset().add(rest.to_multiset()) == before.to_multiset(),
        front.len() + rest.len() == before.len(),
{
    let sorted = front + rest;
    assert forall|i: int, j: int| 0 <= i < front.len() && 0 <= j < rest.len() implies (
    #[trigger] front[i]).distance_squared_spec(viewer) <= (
    #[trigger] rest[j]).distance_squared_spec(viewer) by {
        assert(sorted[i] == front[i]);
        assert(sorted[front.len() + j] == rest[j]);
    }
    vstd::seq_lib::lemma_multiset_commutative(front, rest);
    sorted.to_multiset_ensures();
    before.to_multiset_ensures();
}

/// The number of tasks to start: as many as are queued, but no more than
/// fit beside those in flight.
pub open spec fn admission_count(max_tasks: int, in_flight: int, queued: int) -> int {
    let free = if max_tasks > in_flight {
        max_tasks - in_flight
    } else {
        0
    };
    if free < queued {
        free
    } else {
        queued
    }
}

/// The number of tasks to start.
#[must_use]
pub fn tasks_left(max_tasks: usize, in_flight: usize, queued: usize) -> (n: usize)
    ensures
        n == admission_count(max_tasks as int, in_flight as int, queued as int),
        n <= queued,
{
    let free = if max_tasks > in_flight {
        max_tasks - in_flight
    } else {
        0
    };
    if free < queued {
        free
    } else {
        queued
    }
}

/// Takes the first `count` entries off a queue.
#[must_use]
pub fn take_front(queue: &mut Vec<ChunkPosition>, count: usize) -> (front: Vec<ChunkPosition>)
    requires
        count <= old(queue).len(),
    ensures
        front@ == old(queue)@.take(count as int),
        final(queue)@ == old(queue)@.skip(count as int),
{
    let mut rest = queue.split_off(count);
    core::mem::swap(queue, &mut rest);
    rest
}

/// Takes every entry off a queue.
#[must_use]
pub fn take_all(queue: &mut Vec<ChunkPosition>) -> (all: Vec<ChunkPosition>)
    ensures
        all@ == old(queue)@,
        final(queue)@.len() == 0,
{
    let mut taken: Vec<ChunkPosition> = Vec::new();
    core::mem::swap(queue, &mut taken);
    taken
}

/// The place of the first entry equal to `position`, if there is one.
#[must_use]
pub fn position_in(queue: &Vec<ChunkPosition>, position: ChunkPosition) -> (r: Option<usize>)
    ensures
        r is Some <==> queue@.contains(position),
        r is Some ==> r->0 < queue.len() && queue[r->0 as int] == position && forall|j: int|
            0 <= j < r->0 ==> queue[j] != position,
{
    let mut i: usize = 0;
    while i < queue.len()
        invariant
            i <= queue.len(),
            forall|j: int| 0 <= j < i ==> queue[j] != position,
        decreases queue.len() - i,
    {
        if queue[i] == position {
            return Some(i);
        }
        i += 1;
    }
    None
}

/// Whether `position` is queued.
#[must_use]
pub fn is_queued(queue: &Vec<ChunkPosition>, position: ChunkPosition) -> (r: bool)
    ensures
        r == queue@.contains(position),
{
    position_in(queue, position).is_some()
}

/// The queue without its first entry equal to `position`.
pub open spec fn without_first(queue: Seq<ChunkPosition>, position: ChunkPosition) -> Seq<
    ChunkPosition,
>
    decreases queue.len(),
{
    if queue.len() == 0 {
        queue
    } else if queue[0] == position {
        queue.skip(1)
    } else {
        seq![queue[0]] + without_first(queue.skip(1), position)
    }
}

/// Taking out the first entry equal to `position` is removing the entry at
/// the first place where `position` stands; a queue without such an entry
/// stays as it is.
pub proof fn lemma_without_first(queue: Seq<ChunkPosition>, position: ChunkPosition, i: int)
    requires
        0 <= i <= queue.len(),
        forall|j: int| 0 <= j < i ==> queue[j] != position,
        i < queue.len() ==> queue[i] == position,
    ensures
        without_first(queue, position) == (if i < queue.len() {
            queue.remove(i)
        } else {
            queue
        }),
    decreases queue.len(),
{
    if queue.len() == 0 {
    } else if i == 0 {
        assert(queue.skip(1) =~= queue.remove(0));
    } else {
        let rest = queue.skip(1);
        assert forall|j: int| 0 <= j < i - 1 implies rest[j] != position by {
            assert(rest[j] == queue[j + 1]);
        }
        lemma_without_first(rest, position, i - 1);
        if i < queue.len() {
            assert(seq![queue[0]] + rest.remove(i - 1) =~= queue.remove(i));
        } else {
            assert(seq![queue[0]] + rest =~= queue);
        }
    }
}

/// Takes the first entry equal to `position` off the queue, if there is one.
pub fn remove_first(queue: &mut Vec<ChunkPosition>, position: ChunkPosition)
    ensures
        final(queue)@ == without_first(old(queue)@, position),
{
    match position_in(queue, position) {
        Some(i) => {
            proof {
                lemma_without_first(queue@, position, i as int);
            }
            let _ = queue.remove(i);
        },
        None => {
            proof {
                lemma_without_first(queue@, position, queue.len() as int);
            }
        },
    }
}

/// The entries of `queue`, in their order, that are no members of `set`.
pub open spec fn outside(queue: Seq<ChunkPosition>, set: Set<ChunkPosition>) -> Seq<ChunkPosition> {
    queue.filter(|p: ChunkPosition| !set.contains(p))
}

/// Drops from the queue every entry that is a member of `set`.
pub fn retain_outside(queue: &mut Vec<ChunkPosition>, set: &CoordSet)
    ensures
        final(queue)@ == outside(old(queue)@, set@),
{
    let mut kept: Vec<ChunkPosition> = Vec::new();
    let mut i: usize = 0;
    let ghost pred = |p: ChunkPosition| !set@.contains(p);
    while i < queue.len()
        invariant
            i <= queue.len(),
            pred == (|p: ChunkPosition| !set@.contains(p)),
            kept@ == queue@.take(i as int).filter(pred),
        decreases queue.len() - i,
    {
        let p = queue[i];
        proof {
            assert(queue@.take(i + 1) =~= queue@.take(i as int).push(p));
            queue@.take(i as int).lemma_filter_push(p, pred);
        }
        if !set.contains(p) {
            kept.push(p);
        }
        i += 1;
    }
    proof {
        assert(queue@.take(queue.len() as int) =~= queue@);
    }
    *queue = kept;
}

} // verus!
