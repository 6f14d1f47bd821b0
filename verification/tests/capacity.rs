use particle_pool::pool::{is_power_of_two, ParticlePool};

#[test]
fn powers_of_two() {
    assert!(!is_power_of_two(0));
    assert!(is_power_of_two(1));
    assert!(is_power_of_two(2));
    assert!(!is_power_of_two(3));
    assert!(is_power_of_two(4));
    assert!(!is_power_of_two(6));
    assert!(is_power_of_two(256));
    assert!(!is_power_of_two(257));
    assert!(is_power_of_two(512));
    assert!(!is_power_of_two(768));
    assert!(is_power_of_two(1 << 20));
    assert!(!is_power_of_two((1 << 20) + (1 << 3)));
    assert!(is_power_of_two(1 << (usize::BITS - 1)));
    assert!(!is_power_of_two(usize::MAX));
    for n in 0..4096usize {
        assert_eq!(is_power_of_two(n), n.is_power_of_two());
    }
}

#[test]
fn new_takes_the_capacities_of_the_fountains() {
    for capacity in [256usize, 512] {
        let pool = ParticlePool::new(capacity).expect("valid");
        assert_eq!(pool.capacity(), capacity);
        assert_eq!(pool.len(), 0);
        assert!(pool.is_empty());
        assert!(!pool.is_full());
        assert_eq!(pool.handles(), Vec::<u64>::new());
    }
}

#[test]
fn new_refuses_what_is_no_power_of_two() {
    for capacity in [0usize, 3, 5, 100, 255, 257, 500, 513, 1000, usize::MAX] {
        assert!(ParticlePool::new(capacity).is_none());
    }
}

#[test]
fn new_refuses_a_buffer_beyond_the_address_space() {
    // Eight bytes a handle: from isize::MAX / 8 on, the buffer cannot exist.
    assert!(ParticlePool::new(1 << (usize::BITS - 1)).is_none());
    assert!(ParticlePool::new(1 << (usize::BITS - 2)).is_none());
    assert!(ParticlePool::new(1 << (usize::BITS - 3)).is_none());
    assert!(ParticlePool::new(1 << (usize::BITS - 4)).is_none());
}
