//! The pool itself: a ring of live particle handles, and the decisions of
//! the particle lifecycle.
//!
//! The pool creates and destroys nothing. Before each spawn it names the
//! handle that the engine has to destroy, if any; after the spawn it
//! records the new handle. The caller does the spawning and destroying.

use crate::laws::{lemma_one_spawn, lemma_spawns_compose};
use crate::model::{evicted, next_victim, retained, ParticleHandle};
use crate::ring::{
    ring_capacity, ring_get, ring_items, ring_len, ring_push, ring_pushes, ring_with_capacity,
    HANDLE_BYTES,
};
use ringbuffer::AllocRingBuffer;
use vstd::arithmetic::power2::is_pow2;
use vstd::prelude::*;

verus! {

/// A capacity that a pool can be made with: a power of two whose buffer
/// of handles fits in the address space.
pub open spec fn valid_capacity(capacity: usize) -> bool {
    is_pow2(capacity as int) && capacity * HANDLE_BYTES <= isize::MAX
}

/// Whether `n` is a power of two: one of 1, 2, 4, 8 and so on.
pub fn is_power_of_two(n: usize) -> (yes: bool)
    ensures
        yes == is_pow2(n as int),
{
    reveal(is_pow2);
    if n == 0 {
        return false;
    }
    let mut rest: usize = n;
    while rest % 2 == 0
        invariant
            rest > 0,
            is_pow2(rest as int) == is_pow2(n as int),
        decreases rest,
    {
        proof {
            reveal(is_pow2);
        }
        rest = rest / 2;
    }
    rest == 1
}

/// The live particles of a fountain, oldest first, never more than the
/// capacity that the pool was made with.
pub struct ParticlePool {
    ring: AllocRingBuffer<ParticleHandle>,
    capacity: usize,
    /// How many handles were pushed into `ring` since it was made.
    pushes: usize,
}

impl View for ParticlePool {
    type V = Seq<ParticleHandle>;

    /// The live handles in spawn order, the oldest first.
    closed spec fn view(&self) -> Seq<ParticleHandle> {
        ring_items(self.ring)
    }
}

impl ParticlePool {
    /// The invariant of a pool. `new` establishes it and every method
    /// keeps it.
    pub closed spec fn wf(&self) -> bool {
        &&& valid_capacity(self.capacity)
        &&& ring_capacity(self.ring) == self.capacity
        &&& ring_pushes(self.ring) == self.pushes
        &&& self.pushes <= isize::MAX
        &&& ring_items(self.ring).len() <= self.capacity
    }

    /// The capacity that the pool was made with.
    pub closed spec fn spec_capacity(&self) -> usize {
        self.capacity
    }

    /// The capacity invariant: a pool never holds more handles than its
    /// capacity, and its capacity is a valid one.
    pub proof fn lemma_within_capacity(&self)
        requires
            self.wf(),
        ensures
            self@.len() <= self.capacity(),
            valid_capacity(self.capacity()),
            self.capacity() > 0,
    {
        reveal(is_pow2);
    }

    /// An empty pool of the given capacity, or `None` if no pool can have
    /// that capacity.
    pub fn new(capacity: usize) -> (pool: Option<ParticlePool>)
        ensures
            pool is Some <==> valid_capacity(capacity),
            pool matches Some(p) ==> p.wf() && p.capacity() == capacity && p@ == Seq::<
                ParticleHandle,
            >::empty(),
    {
        if !is_power_of_two(capacity) || capacity > isize::MAX as usize / HANDLE_BYTES {
            return None;
        }
        Some(ParticlePool { ring: ring_with_capacity(capacity), capacity, pushes: 0 })
    }

    /// The capacity that the pool was made with.
    #[verifier::when_used_as_spec(spec_capacity)]
    pub fn capacity(&self) -> (capacity: usize)
        ensures
            capacity == self.spec_capacity(),
    {
        self.capacity
    }

    /// The number of live particles.
    pub fn len(&self) -> (count: usize)
        requires
            self.wf(),
        ensures
            count == self@.len(),
            count <= self.capacity(),
    {
        ring_len(&self.ring)
    }

    /// Whether no particle is live.
    pub fn is_empty(&self) -> (empty: bool)
        requires
            self.wf(),
        ensures
            empty == (self@.len() == 0),
    {
        ring_len(&self.ring) == 0
    }

    /// Whether as many particles are live as the capacity allows.
    pub fn is_full(&self) -> (full: bool)
        requires
            self.wf(),
        ensures
            full == (self@.len() == self.capacity()),
    {
        ring_len(&self.ring) == self.capacity
    }

    /// The live handles in spawn order, the oldest first.
    pub fn handles(&self) -> (live: Vec<ParticleHandle>)
        requires
            self.wf(),
        ensures
            live@ == self@,
    {
        let count = ring_len(&self.ring);
        let mut live: Vec<ParticleHandle> = Vec::new();
        let mut i: usize = 0;
        while i < count
            invariant
                self.wf(),
                count == self@.len(),
                i <= count,
                live@ == self@.take(i as int),
            decreases count - i,
        {
            // `i` is below the length, so the ring has an item there.
            let item = ring_get(&self.ring, i as isize);
            if let Some(handle) = item {
                live.push(handle);
            }
            proof {
                vstd::arithmetic::div_mod::lemma_small_mod(i as nat, count as nat);
            }
            i = i + 1;
        }
        live
    }

    /// The handle that the engine has to destroy before the next spawn:
    /// the oldest live one if the pool is full, none if there is room.
    pub fn next_eviction(&self) -> (victim: Option<ParticleHandle>)
        requires
            self.wf(),
        ensures
            victim == next_victim(self@, self.capacity() as nat),
    {
        if ring_len(&self.ring) == self.capacity {
            ring_get(&self.ring, 0)
        } else {
            None
        }
    }

    /// Takes in the handle of a particle that was just spawned. If the
    /// pool was full, the oldest handle leaves it: the one that
    /// `next_eviction` named before the spawn.
    pub fn record_spawn(&mut self, handle: ParticleHandle)
        requires
            old(self).wf(),
        ensures
            final(self).wf(),
            final(self).capacity() == old(self).capacity(),
            final(self)@ == retained(old(self)@.push(handle), old(self).capacity() as nat),
            final(self)@.len() <= final(self).capacity(),
    {
        proof {
            self.lemma_within_capacity();
        }
        // The ring counts its writes and never counts back. Before the
        // count leaves the range in which the ring's arithmetic is exact,
        // the handles move to a ring that counts from their number.
        if self.pushes == isize::MAX as usize {
            self.renew();
        }
        ring_push(&mut self.ring, handle);
        self.pushes = self.pushes + 1;
        proof {
            lemma_one_spawn(old(self)@, self.capacity as nat, handle);
        }
    }

    /// One tick of the fountain, for an engine that hands out handles
    /// ahead of the spawn: takes in the handles `fresh` in their order, and
    /// returns the handles that had to make room for them, in the order
    /// in which they have to be destroyed.
    pub fn tick(&mut self, fresh: &[ParticleHandle]) -> (destroyed: Vec<ParticleHandle>)
        requires
            old(self).wf(),
        ensures
            final(self).wf(),
            final(self).capacity() == old(self).capacity(),
            final(self)@ == retained(old(self)@ + fresh@, old(self).capacity() as nat),
            destroyed@ == evicted(old(self)@ + fresh@, old(self).capacity() as nat),
            final(self)@.len() <= final(self).capacity(),
    {
        let ghost before = self@;
        let ghost capacity = self.capacity as nat;
        let mut destroyed: Vec<ParticleHandle> = Vec::new();
        let mut i: usize = 0;
        while i < fresh.len()
            invariant
                self.wf(),
                self.capacity == capacity,
                i <= fresh.len(),
                self@ == retained(before + fresh@.take(i as int), capacity),
                destroyed@ == evicted(before + fresh@.take(i as int), capacity),
            decreases fresh.len() - i,
        {
            let ghost live = self@;
            let handle = fresh[i];
            if let Some(oldest) = self.next_eviction() {
                destroyed.push(oldest);
            }
            self.record_spawn(handle);
            proof {
                let spawned = before + fresh@.take(i as int);
                self.lemma_within_capacity();
                lemma_one_spawn(live, capacity, handle);
                lemma_spawns_compose(spawned, seq![handle], capacity);
            }
            i = i + 1;
        }
        destroyed
    }

    /// Moves the live handles into a new ring, whose write position starts
    /// over. The pool holds what it held.
    fn renew(&mut self)
        requires
            old(self).wf(),
        ensures
            final(self).wf(),
            final(self).capacity == old(self).capacity,
            final(self)@ == old(self)@,
            final(self).pushes <= final(self).capacity,
    {
        let count = ring_len(&self.ring);
        let mut ring = ring_with_capacity(self.capacity);
        let mut i: usize = 0;
        while i < count
            invariant
                self.wf(),
                count == self@.len(),
                i <= count,
                ring_capacity(ring) == self.capacity,
                ring_pushes(ring) == i,
                ring_items(ring) == self@.take(i as int),
            decreases count - i,
        {
            // `i` is below the length, so the ring has an item there.
            let item = ring_get(&self.ring, i as isize);
            if let Some(handle) = item {
                ring_push(&mut ring, handle);
            }
            proof {
                vstd::arithmetic::div_mod::lemma_small_mod(i as nat, count as nat);
            }
            i = i + 1;
        }
        self.ring = ring;
        self.pushes = count;
    }
}

} // verus!
