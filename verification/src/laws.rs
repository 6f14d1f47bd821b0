//! The laws of the bounded lifecycle, proved over the model.
//!
//! The contracts of the pool speak of `retained`, `evicted` and
//! `next_victim`. A tick of the pool is one step of `live_after` and
//! `destroyed_after` (see `lemma_run_step`), so what is proved here of runs
//! of ticks holds of every sequence of calls on a pool.

use crate::model::{
    destroyed_after, evicted, live_after, next_victim, retained, ticks_to_fill, ParticleHandle,
};
use vstd::prelude::*;

verus! {

/// The number of handles retained is the number spawned, capped at the
/// capacity.
pub proof fn lemma_retained_len(spawned: Seq<ParticleHandle>, capacity: nat)
    ensures
        retained(spawned, capacity).len() == if spawned.len() <= capacity {
            spawned.len()
        } else {
            capacity
        },
        retained(spawned, capacity).len() <= capacity,
{
}

/// Every spawned handle is either destroyed or still live, never both and
/// never twice: the destroyed ones followed by the live ones are the
/// spawned ones in their order.
pub proof fn lemma_evicted_then_retained(spawned: Seq<ParticleHandle>, capacity: nat)
    ensures
        evicted(spawned, capacity) + retained(spawned, capacity) == spawned,
        evicted(spawned, capacity).len() + retained(spawned, capacity).len() == spawned.len(),
{
    assert(evicted(spawned, capacity) + retained(spawned, capacity) =~= spawned);
}

/// Spawning one particle destroys exactly the handle that `next_victim`
/// names, if it names one.
pub proof fn lemma_one_spawn(live: Seq<ParticleHandle>, capacity: nat, handle: ParticleHandle)
    requires
        live.len() <= capacity,
        capacity > 0,
    ensures
        evicted(live.push(handle), capacity) == match next_victim(live, capacity) {
            Some(oldest) => seq![oldest],
            None => Seq::empty(),
        },
        retained(live.push(handle), capacity) == match next_victim(live, capacity) {
            Some(_) => live.drop_first().push(handle),
            None => live.push(handle),
        },
{
    if live.len() == capacity {
        assert(evicted(live.push(handle), capacity) =~= seq![live[0]]);
        assert(retained(live.push(handle), capacity) =~= live.drop_first().push(handle));
    }
}

/// Destroying before spawning keeps the engine itself within the capacity:
/// once the handle that `next_victim` names is gone, fewer than `capacity`
/// particles are live, so the spawn that follows cannot exceed it.
pub proof fn lemma_room_for_one_spawn(live: Seq<ParticleHandle>, capacity: nat)
    requires
        live.len() <= capacity,
        capacity > 0,
    ensures
        match next_victim(live, capacity) {
            Some(oldest) => oldest == live[0] && live.drop_first().len() < capacity,
            None => live.len() < capacity,
        },
{
}

/// Spawning `first` and then `second` leaves live, and destroys, what
/// spawning both at once does.
pub proof fn lemma_spawns_compose(
    first: Seq<ParticleHandle>,
    second: Seq<ParticleHandle>,
    capacity: nat,
)
    ensures
        retained(retained(first, capacity) + second, capacity) == retained(
            first + second,
            capacity,
        ),
        evicted(first, capacity) + evicted(retained(first, capacity) + second, capacity)
            == evicted(first + second, capacity),
{
    let kept = retained(first, capacity);
    assert(retained(kept + second, capacity) =~= retained(first + second, capacity));
    assert(evicted(first, capacity) + evicted(kept + second, capacity) =~= evicted(
        first + second,
        capacity,
    ));
}

/// One more tick after a run: it works on what the run left live, and what
/// it destroys comes after what the run destroyed.
pub proof fn lemma_run_step(
    ticks: Seq<Seq<ParticleHandle>>,
    fresh: Seq<ParticleHandle>,
    capacity: nat,
)
    ensures
        live_after(ticks.push(fresh), capacity) == retained(
            live_after(ticks, capacity) + fresh,
            capacity,
        ),
        destroyed_after(ticks.push(fresh), capacity) == destroyed_after(ticks, capacity) + evicted(
            live_after(ticks, capacity) + fresh,
            capacity,
        ),
{
    assert(ticks.push(fresh).drop_last() =~= ticks);
}

/// A run of ticks leaves live, and destroys, what one tick would that
/// spawned all their handles in the same order.
pub proof fn lemma_run_as_one_tick(ticks: Seq<Seq<ParticleHandle>>, capacity: nat)
    ensures
        live_after(ticks, capacity) == retained(ticks.flatten(), capacity),
        destroyed_after(ticks, capacity) == evicted(ticks.flatten(), capacity),
    decreases ticks.len(),
{
    if ticks.len() == 0 {
        assert(ticks.flatten() =~= Seq::empty());
        assert(evicted(ticks.flatten(), capacity) =~= Seq::empty());
    } else {
        let before = ticks.drop_last();
        lemma_run_as_one_tick(before, capacity);
        assert(ticks =~= before.push(ticks.last()));
        before.lemma_flatten_push(ticks.last());
        lemma_spawns_compose(before.flatten(), ticks.last(), capacity);
    }
}

/// The capacity is never exceeded: after any run of ticks at most
/// `capacity` handles are live.
pub proof fn lemma_capacity_never_exceeded(ticks: Seq<Seq<ParticleHandle>>, capacity: nat)
    ensures
        live_after(ticks, capacity).len() <= capacity,
{
    if ticks.len() > 0 {
        lemma_retained_len(live_after(ticks.drop_last(), capacity) + ticks.last(), capacity);
    }
}

/// The number of handles spawned by ticks of `spawn_count` spawns each.
pub proof fn lemma_spawned_count(ticks: Seq<Seq<ParticleHandle>>, spawn_count: nat)
    requires
        forall|i: int| 0 <= i < ticks.len() ==> (#[trigger] ticks[i]).len() == spawn_count,
    ensures
        ticks.flatten().len() == ticks.len() * spawn_count,
    decreases ticks.len(),
{
    if ticks.len() == 0 {
        assert(ticks.flatten() =~= Seq::empty());
    } else {
        let before = ticks.drop_last();
        lemma_spawned_count(before, spawn_count);
        assert(ticks =~= before.push(ticks.last()));
        before.lemma_flatten_push(ticks.last());
        assert(ticks.len() * spawn_count == (ticks.len() - 1) * spawn_count + spawn_count)
            by (nonlinear_arith);
    }
}

/// First in, first out: when one particle more than the capacity has been
/// spawned into an empty pool, in any grouping into ticks, exactly the
/// first handle has been destroyed, once, and the others are live in
/// spawn order. If the engine gave each particle a handle of its own, the
/// first handle is no longer among the live ones.
pub proof fn lemma_fifo_eviction(ticks: Seq<Seq<ParticleHandle>>, capacity: nat)
    requires
        ticks.flatten().len() == capacity + 1,
    ensures
        destroyed_after(ticks, capacity) == seq![ticks.flatten()[0]],
        live_after(ticks, capacity) == ticks.flatten().drop_first(),
        ticks.flatten().no_duplicates() ==> !live_after(ticks, capacity).contains(
            ticks.flatten()[0],
        ),
{
    let spawned = ticks.flatten();
    lemma_run_as_one_tick(ticks, capacity);
    assert(evicted(spawned, capacity) =~= seq![spawned[0]]);
    assert(retained(spawned, capacity) =~= spawned.drop_first());
    if spawned.no_duplicates() && spawned.drop_first().contains(spawned[0]) {
        let rest = spawned.drop_first();
        let i = choose|i: int| 0 <= i < rest.len() && rest[i] == spawned[0];
        assert(spawned[i + 1] == spawned[0]);
    }
}

/// Warm-up: after `ticks.len()` ticks of `spawn_count` spawns each on a
/// pool that started empty, the live count is the number spawned, capped
/// at the capacity; and nothing is destroyed before the pool is full.
pub proof fn lemma_warm_up(ticks: Seq<Seq<ParticleHandle>>, spawn_count: nat, capacity: nat)
    requires
        forall|i: int| 0 <= i < ticks.len() ==> (#[trigger] ticks[i]).len() == spawn_count,
    ensures
        live_after(ticks, capacity).len() == if ticks.len() * spawn_count <= capacity {
            ticks.len() * spawn_count
        } else {
            capacity
        },
        ticks.len() * spawn_count <= capacity ==> destroyed_after(ticks, capacity).len() == 0,
        live_after(ticks, capacity).len() + destroyed_after(ticks, capacity).len() == ticks.len()
            * spawn_count,
{
    lemma_run_as_one_tick(ticks, capacity);
    lemma_spawned_count(ticks, spawn_count);
    lemma_retained_len(ticks.flatten(), capacity);
    lemma_evicted_then_retained(ticks.flatten(), capacity);
}

/// Steady state: from `ticks_to_fill(capacity, spawn_count)` ticks on, the
/// live count is the capacity.
pub proof fn lemma_steady_state(ticks: Seq<Seq<ParticleHandle>>, spawn_count: nat, capacity: nat)
    requires
        spawn_count > 0,
        forall|i: int| 0 <= i < ticks.len() ==> (#[trigger] ticks[i]).len() == spawn_count,
        ticks.len() >= ticks_to_fill(capacity, spawn_count),
    ensures
        live_after(ticks, capacity).len() == capacity,
{
    lemma_warm_up(ticks, spawn_count, capacity);
    lemma_ticks_to_fill(capacity, spawn_count, ticks.len());
}

/// `ticks_to_fill` is the least number of ticks that spawn at least
/// `capacity` particles.
pub proof fn lemma_ticks_to_fill(capacity: nat, spawn_count: nat, ticks: nat)
    requires
        spawn_count > 0,
    ensures
        ticks >= ticks_to_fill(capacity, spawn_count) <==> ticks * spawn_count >= capacity,
{
    let total = (capacity + spawn_count - 1) as int;
    let s = spawn_count as int;
    let q = total / s;
    assert(total == s * q + total % s && 0 <= total % s < s) by {
        vstd::arithmetic::div_mod::lemma_fundamental_div_mod(total, s);
        vstd::arithmetic::div_mod::lemma_mod_bound(total, s);
    }
    assert(q >= 0) by {
        vstd::arithmetic::div_mod::lemma_div_pos_is_pos(total, s);
    }
    if ticks >= q {
        assert(ticks * s >= q * s) by (nonlinear_arith)
            requires
                ticks >= q,
                s > 0,
        ;
        assert(s * q == q * s) by (nonlinear_arith);
    } else {
        assert(ticks * s <= (q - 1) * s) by (nonlinear_arith)
            requires
                ticks <= q - 1,
                s > 0,
        ;
        assert((q - 1) * s == s * q - s) by (nonlinear_arith);
    }
}

/// Once the pool is full it stays full, and every spawn costs exactly one
/// destruction.
pub proof fn lemma_full_stays_full(
    live: Seq<ParticleHandle>,
    fresh: Seq<ParticleHandle>,
    capacity: nat,
)
    requires
        live.len() == capacity,
    ensures
        retained(live + fresh, capacity).len() == capacity,
        evicted(live + fresh, capacity).len() == fresh.len(),
{
}

} // verus!
