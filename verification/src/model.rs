//! The mathematical model of the pool: sequences of handles in spawn
//! order, and what a bounded lifecycle keeps and destroys of them.

use vstd::prelude::*;

verus! {

/// An opaque reference to one live particle of the engine. The pool never
/// looks inside it: it keeps it, and hands it back to be destroyed.
pub type ParticleHandle = u64;

/// Of the handles `spawned`, oldest first, those that are still live when
/// at most `capacity` may be: the newest `capacity` of them, in spawn order.
pub open spec fn retained(spawned: Seq<ParticleHandle>, capacity: nat) -> Seq<ParticleHandle> {
    if spawned.len() <= capacity {
        spawned
    } else {
        spawned.skip(spawned.len() - capacity)
    }
}

/// Of the handles `spawned`, oldest first, those that had to be destroyed
/// to keep at most `capacity` live: all but the newest `capacity`, in the
/// order in which they were destroyed.
pub open spec fn evicted(spawned: Seq<ParticleHandle>, capacity: nat) -> Seq<ParticleHandle> {
    if spawned.len() <= capacity {
        Seq::empty()
    } else {
        spawned.take(spawned.len() - capacity)
    }
}

/// The handle that must be destroyed before one more particle is spawned:
/// the oldest live one if the pool is full, none otherwise.
pub open spec fn next_victim(live: Seq<ParticleHandle>, capacity: nat) -> Option<ParticleHandle> {
    if live.len() > 0 && live.len() >= capacity {
        Some(live[0])
    } else {
        None
    }
}

/// The live handles after the ticks `ticks` on a pool that started empty.
/// Each tick is the sequence of handles that it spawned.
pub open spec fn live_after(ticks: Seq<Seq<ParticleHandle>>, capacity: nat) -> Seq<ParticleHandle>
    decreases ticks.len(),
{
    if ticks.len() == 0 {
        Seq::empty()
    } else {
        retained(live_after(ticks.drop_last(), capacity) + ticks.last(), capacity)
    }
}

/// The handles destroyed during the ticks `ticks` on a pool that started
/// empty, in the order of their destruction.
pub open spec fn destroyed_after(ticks: Seq<Seq<ParticleHandle>>, capacity: nat) -> Seq<
    ParticleHandle,
>
    decreases ticks.len(),
{
    if ticks.len() == 0 {
        Seq::empty()
    } else {
        destroyed_after(ticks.drop_last(), capacity) + evicted(
            live_after(ticks.drop_last(), capacity) + ticks.last(),
            capacity,
        )
    }
}

/// The least number of ticks of `spawn_count` spawns each that spawn
/// `capacity` particles: `capacity / spawn_count`, rounded up.
pub open spec fn ticks_to_fill(capacity: nat, spawn_count: nat) -> nat
    recommends
        spawn_count > 0,
{
    ((capacity + spawn_count - 1) / (spawn_count as int)) as nat
}

} // verus!
