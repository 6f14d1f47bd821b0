//! The boundary to the `ringbuffer` crate.
//!
//! Nothing in this file is proved. Each contract restates what the source
//! of `ringbuffer` shows for `AllocRingBuffer<u64>`; the rest of the crate
//! is verified against these contracts.

use ringbuffer::{AllocRingBuffer, RingBuffer, RingBufferExt, RingBufferWrite};
use vstd::arithmetic::power2::is_pow2;
use vstd::prelude::*;

verus! {

/// `ringbuffer::AllocRingBuffer`, a ring of fixed capacity on the heap.
/// Opaque: its state is spoken of through [`ring_items`],
/// [`ring_capacity`] and [`ring_pushes`] only.
#[verifier::external_type_specification]
#[verifier::external_body]
#[verifier::reject_recursive_types(T)]
pub struct ExAllocRingBuffer<T>(AllocRingBuffer<T>);

/// The values a ring holds, the one pushed longest ago first.
pub uninterp spec fn ring_items(ring: AllocRingBuffer<u64>) -> Seq<u64>;

/// The capacity a ring was made with.
pub uninterp spec fn ring_capacity(ring: AllocRingBuffer<u64>) -> nat;

/// The ring's write position: how many values have been pushed into it
/// since it was made. The crate keeps it in a `usize` that only grows.
pub uninterp spec fn ring_pushes(ring: AllocRingBuffer<u64>) -> nat;

/// Size of one stored handle, in bytes.
pub const HANDLE_BYTES: usize = 8;

/// `AllocRingBuffer::with_capacity`. It panics unless the capacity is a
/// power of two (zero is none), and its `Vec::with_capacity` panics when
/// the buffer would exceed `isize::MAX` bytes; both are left out. The new
/// ring is empty, has the capacity asked for, and both its positions are 0.
#[verifier::external_body]
pub(crate) fn ring_with_capacity(capacity: usize) -> (ring: AllocRingBuffer<u64>)
    requires
        is_pow2(capacity as int),
        capacity * HANDLE_BYTES <= isize::MAX,
    ensures
        ring_items(ring) == Seq::<u64>::empty(),
        ring_capacity(ring) == capacity,
        ring_pushes(ring) == 0,
{
    AllocRingBuffer::with_capacity(capacity)
}

/// `RingBuffer::len`: the write position minus the read position, which
/// is the number of values held.
#[verifier::external_body]
pub(crate) fn ring_len(ring: &AllocRingBuffer<u64>) -> (n: usize)
    ensures
        n == ring_items(*ring).len(),
{
    ring.len()
}

/// `RingBufferExt::get`. On an empty ring it gives `None`. Otherwise the
/// index is reduced modulo the length (so negative indices count from the
/// newest value backwards) and counted from the oldest value. The crate
/// adds the reduced index to its read position as an `isize`, which must
/// not overflow: the write position is kept within `isize::MAX`.
#[verifier::external_body]
pub(crate) fn ring_get(ring: &AllocRingBuffer<u64>, index: isize) -> (item: Option<u64>)
    requires
        is_pow2(ring_capacity(*ring) as int),
        ring_pushes(*ring) <= isize::MAX,
    ensures
        item == if ring_items(*ring).len() == 0 {
            None
        } else {
            Some(ring_items(*ring)[index as int % ring_items(*ring).len() as int])
        },
{
    ring.get(index).copied()
}

/// `RingBufferWrite::push`. On a full ring the oldest value is dropped
/// first; then the value is written behind the newest one. The capacity
/// stays and the write position grows by one, which must fit in `usize`.
#[verifier::external_body]
pub(crate) fn ring_push(ring: &mut AllocRingBuffer<u64>, value: u64)
    requires
        is_pow2(ring_capacity(*old(ring)) as int),
        ring_pushes(*old(ring)) < usize::MAX,
    ensures
        ring_capacity(*final(ring)) == ring_capacity(*old(ring)),
        ring_pushes(*final(ring)) == ring_pushes(*old(ring)) + 1,
        ring_items(*final(ring)) == if ring_items(*old(ring)).len() == ring_capacity(*old(ring)) {
            ring_items(*old(ring)).drop_first().push(value)
        } else {
            ring_items(*old(ring)).push(value)
        },
{
    ring.push(value)
}

} // verus!
