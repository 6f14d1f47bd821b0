use particle_pool::pool::ParticlePool;

fn pool_of(capacity: usize) -> ParticlePool {
    ParticlePool::new(capacity).expect("a power of two is a valid capacity")
}

/// Handles as an engine would hand them out: all different, not in
/// numeric order of any use to the pool.
fn handle(n: u64) -> u64 {
    (n << 32) | (n.wrapping_mul(2654435761) & 0xffff_ffff)
}

#[test]
fn cold_start_evicts_nothing() {
    let mut pool = pool_of(256);
    assert!(pool.is_empty());
    assert_eq!(pool.len(), 0);
    assert_eq!(pool.next_eviction(), None);
    pool.record_spawn(handle(1));
    assert_eq!(pool.len(), 1);
    assert_eq!(pool.handles(), vec![handle(1)]);
    assert_eq!(pool.next_eviction(), None);
}

#[test]
fn fountain_of_256_one_spawn_per_tick() {
    let mut pool = pool_of(256);
    let mut created: u64 = 0;
    let mut destroyed: Vec<u64> = Vec::new();

    // The first tick: the pool is empty, one particle is created, none destroyed.
    if let Some(oldest) = pool.next_eviction() {
        destroyed.push(oldest);
    }
    created += 1;
    pool.record_spawn(handle(created));
    assert_eq!(pool.len(), 1);
    assert!(destroyed.is_empty());

    // Up to the 256th tick.
    while created < 256 {
        if let Some(oldest) = pool.next_eviction() {
            destroyed.push(oldest);
        }
        created += 1;
        pool.record_spawn(handle(created));
    }
    assert_eq!(pool.len(), 256);
    assert!(pool.is_full());
    assert!(destroyed.is_empty());

    // The 257th tick: the particle of the first tick goes, a new one comes.
    assert_eq!(pool.next_eviction(), Some(handle(1)));
    if let Some(oldest) = pool.next_eviction() {
        destroyed.push(oldest);
    }
    created += 1;
    pool.record_spawn(handle(created));
    assert_eq!(destroyed, vec![handle(1)]);
    assert_eq!(created, 257);
    assert_eq!(pool.len(), 256);
    assert_eq!(pool.next_eviction(), Some(handle(2)));
}

#[test]
fn first_in_first_out_at_512() {
    let mut pool = pool_of(512);
    let spawned: Vec<u64> = (1..=513).map(handle).collect();
    let mut destroyed: Vec<u64> = Vec::new();
    for h in &spawned {
        if let Some(oldest) = pool.next_eviction() {
            destroyed.push(oldest);
        }
        pool.record_spawn(*h);
    }
    assert_eq!(destroyed, vec![spawned[0]]);
    let live = pool.handles();
    assert_eq!(live.len(), 512);
    assert_eq!(live, spawned[1..].to_vec());
    assert!(!live.contains(&spawned[0]));
}

#[test]
fn warm_up_is_monotonic_until_full() {
    for spawn_count in [1usize, 2, 3, 7] {
        let mut pool = pool_of(256);
        let mut next: u64 = 0;
        for k in 1..=300usize {
            let fresh: Vec<u64> = (0..spawn_count)
                .map(|_| {
                    next += 1;
                    handle(next)
                })
                .collect();
            let before = pool.len();
            pool.tick(&fresh);
            assert_eq!(pool.len(), (k * spawn_count).min(256));
            assert!(pool.len() >= before);
        }
    }
}

#[test]
fn steady_state_after_enough_ticks() {
    // 256 / 3 rounded up is 86 ticks.
    let mut pool = pool_of(256);
    let mut next: u64 = 0;
    let mut total_destroyed = 0usize;
    for k in 1..=85usize {
        let fresh: Vec<u64> = (0..3).map(|i| handle(next + 1 + i)).collect();
        next += 3;
        total_destroyed += pool.tick(&fresh).len();
        assert_eq!(pool.len(), 3 * k);
        assert!(!pool.is_full());
    }
    assert_eq!(total_destroyed, 0);
    let fresh: Vec<u64> = (0..3).map(|i| handle(next + 1 + i)).collect();
    next += 3;
    let destroyed = pool.tick(&fresh);
    assert_eq!(destroyed, vec![handle(1), handle(2)]);
    assert_eq!(pool.len(), 256);
    for _ in 0..500 {
        let fresh: Vec<u64> = (0..3).map(|i| handle(next + 1 + i)).collect();
        next += 3;
        let oldest: Vec<u64> = pool.handles()[..3].to_vec();
        let destroyed = pool.tick(&fresh);
        assert_eq!(destroyed, oldest);
        assert_eq!(pool.len(), 256);
    }
}

#[test]
fn capacity_is_never_exceeded() {
    for capacity in [1usize, 2, 256, 512] {
        let mut pool = pool_of(capacity);
        let mut next: u64 = 0;
        let mut size = 5usize;
        for _ in 0..400 {
            size = (size * 31 + 7) % 11;
            let fresh: Vec<u64> = (0..size as u64).map(|i| handle(next + 1 + i)).collect();
            next += size as u64;
            pool.tick(&fresh);
            assert!(pool.len() <= capacity);
            assert_eq!(pool.capacity(), capacity);
            assert_eq!(pool.handles().len(), pool.len());
        }
        assert_eq!(pool.len(), capacity);
    }
}

#[test]
fn tick_returns_the_destroyed_in_order() {
    let mut pool = pool_of(4);
    assert_eq!(pool.tick(&[10, 11, 12]), Vec::<u64>::new());
    assert_eq!(pool.handles(), vec![10, 11, 12]);
    assert_eq!(pool.tick(&[13, 14, 15]), vec![10, 11]);
    assert_eq!(pool.handles(), vec![12, 13, 14, 15]);
    assert_eq!(pool.tick(&[]), Vec::<u64>::new());
    assert_eq!(pool.handles(), vec![12, 13, 14, 15]);
}

#[test]
fn tick_larger_than_the_pool() {
    let mut pool = pool_of(4);
    pool.record_spawn(1);
    let fresh: Vec<u64> = (2..=11).collect();
    let destroyed = pool.tick(&fresh);
    assert_eq!(destroyed, vec![1, 2, 3, 4, 5, 6, 7]);
    assert_eq!(pool.handles(), vec![8, 9, 10, 11]);
}

#[test]
fn tick_is_the_single_steps_in_a_row() {
    let mut stepped = pool_of(8);
    let mut ticked = pool_of(8);
    let mut destroyed_stepwise: Vec<u64> = Vec::new();
    let mut destroyed_by_tick: Vec<u64> = Vec::new();
    let mut next: u64 = 100;
    for size in [3u64, 0, 5, 1, 9, 2, 8] {
        let fresh: Vec<u64> = (0..size).map(|i| next + i).collect();
        next += size;
        for h in &fresh {
            if let Some(oldest) = stepped.next_eviction() {
                destroyed_stepwise.push(oldest);
            }
            stepped.record_spawn(*h);
        }
        destroyed_by_tick.extend(ticked.tick(&fresh));
        assert_eq!(stepped.handles(), ticked.handles());
        assert_eq!(destroyed_stepwise, destroyed_by_tick);
    }
}

#[test]
fn pool_of_one_replaces_its_only_handle() {
    let mut pool = pool_of(1);
    assert_eq!(pool.next_eviction(), None);
    pool.record_spawn(7);
    assert!(pool.is_full());
    assert_eq!(pool.next_eviction(), Some(7));
    pool.record_spawn(8);
    assert_eq!(pool.handles(), vec![8]);
    assert_eq!(pool.next_eviction(), Some(8));
}

#[test]
fn the_same_handle_twice_is_kept_twice() {
    let mut pool = pool_of(2);
    pool.record_spawn(5);
    pool.record_spawn(5);
    assert_eq!(pool.handles(), vec![5, 5]);
    assert_eq!(pool.next_eviction(), Some(5));
    pool.record_spawn(6);
    assert_eq!(pool.handles(), vec![5, 6]);
}
