//! The bounded log of positions a particle keeps, held in a
//! `circular_queue::CircularQueue` of coordinate bit patterns.
use vstd::prelude::*;
use circular_queue::CircularQueue;
use crate::scalar::Scalar;
use crate::space::Vector;

verus! {

#[verifier::external_type_specification]
#[verifier::external_body]
#[verifier::reject_recursive_types(T)]
pub struct ExCircularQueue<T>(CircularQueue<T>);

/// The bytes one logged position takes: three 64-bit patterns.
pub const ENTRY_BYTES: usize = 24;

/// What a queue holds, from the oldest entry to the newest.
pub uninterp spec fn queue_entries(queue: CircularQueue<(u64, u64, u64)>) -> Seq<(u64, u64, u64)>;

/// The capacity a queue was made with.
pub uninterp spec fn queue_limit(queue: CircularQueue<(u64, u64, u64)>) -> nat;

/// The bit patterns of a vector's coordinates.
pub open spec fn entry_of(v: Vector) -> (u64, u64, u64) {
    (v.x.bits, v.y.bits, v.z.bits)
}

/// The vector whose coordinates have the given bit patterns.
pub open spec fn vector_of(entry: (u64, u64, u64)) -> Vector {
    Vector {
        x: Scalar { bits: entry.0 },
        y: Scalar { bits: entry.1 },
        z: Scalar { bits: entry.2 },
    }
}

/// The vectors that a run of entries stands for.
pub open spec fn vectors_of(entries: Seq<(u64, u64, u64)>) -> Seq<Vector> {
    Seq::new(entries.len(), |i: int| vector_of(entries[i]))
}

/// What a log of limit `limit` holds after `entry` is pushed onto `entries`:
/// the new entry comes last, and once the log is full the oldest entry
/// leaves. A log of limit zero stays empty.
pub open spec fn pushed<T>(entries: Seq<T>, limit: nat, entry: T) -> Seq<T> {
    if limit == 0 {
        entries
    } else if entries.len() < limit {
        entries.push(entry)
    } else {
        entries.drop_first().push(entry)
    }
}

/// Pushing the entry of a vector onto a log of entries pushes the vector
/// onto the log of vectors.
pub proof fn lemma_pushed_vectors(entries: Seq<(u64, u64, u64)>, limit: nat, v: Vector)
    ensures
        vectors_of(pushed(entries, limit, entry_of(v))) == pushed(vectors_of(entries), limit, v),
        vector_of(entry_of(v)) == v,
{
    assert(vectors_of(pushed(entries, limit, entry_of(v))) =~= pushed(
        vectors_of(entries),
        limit,
        v,
    ));
}

/// `CircularQueue::with_capacity`: an empty queue with the given capacity.
/// The call allocates room for `capacity` entries at once, and panics where
/// that is more than `isize::MAX` bytes.
#[verifier::external_body]
pub(crate) fn queue_with_capacity(capacity: usize) -> (queue: CircularQueue<(u64, u64, u64)>)
    requires
        capacity * ENTRY_BYTES <= isize::MAX,
    ensures
        queue_entries(queue) == Seq::<(u64, u64, u64)>::empty(),
        queue_limit(queue) == capacity,
{
    CircularQueue::with_capacity(capacity)
}

/// `CircularQueue::push`: appends `entry`; a queue that is full first drops
/// its oldest entry, and a queue of capacity zero takes nothing. The
/// capacity stays, and the queue never holds more than it.
#[verifier::external_body]
pub(crate) fn queue_push(queue: &mut CircularQueue<(u64, u64, u64)>, entry: (u64, u64, u64))
    ensures
        queue_limit(*final(queue)) == queue_limit(*old(queue)),
        queue_entries(*final(queue)).len() <= queue_limit(*final(queue)),
        queue_entries(*final(queue)) == pushed(
            queue_entries(*old(queue)),
            queue_limit(*old(queue)),
            entry,
        ),
{
    queue.push(entry);
}

/// `CircularQueue::iter`: the entries from the most recently pushed one to
/// the oldest.
#[verifier::external_body]
pub(crate) fn queue_newest_first(queue: &CircularQueue<(u64, u64, u64)>) -> (entries: Vec<
    (u64, u64, u64),
>)
    ensures
        entries@ == queue_entries(*queue).reverse(),
{
    queue.iter().copied().collect()
}

} // verus!
