use memory_pool_system::errors::Error;
use memory_pool_system::pool::{MfsPool, Pool};

#[test]
fn pool_rejects_zero_unit_size() {
    match MfsPool::new(0, 4) {
        Err(e) => assert_eq!(e, Error::InvalidParam),
        Ok(_) => panic!("a zero unit size must be rejected"),
    }
}

#[test]
fn pool_sizes_track_allocation() {
    let mut pool = MfsPool::new(1024, 2).unwrap();
    assert_eq!(pool.total_size(), 2048);
    assert_eq!(pool.free_size(), 2048);
    let unit = pool.alloc_unit().unwrap();
    assert_eq!(unit, 0);
    assert_eq!(pool.total_size(), 2048);
    assert_eq!(pool.free_size(), 1024);
    pool.free_unit(unit);
    assert_eq!(pool.free_size(), 2048);
}

#[test]
fn pool_exhaustion_is_a_typed_error() {
    let mut pool = MfsPool::new(64, 2).unwrap();
    let a = pool.alloc_unit().unwrap();
    let b = pool.alloc_unit().unwrap();
    assert_eq!((a, b), (0, 1));
    match pool.alloc_unit() {
        Err(e) => assert_eq!(e, Error::InsufficientMemory),
        Ok(_) => panic!("an exhausted pool must report insufficient memory"),
    }
    pool.free_unit(a);
    assert_eq!(pool.alloc_unit().unwrap(), 0);
}

#[test]
fn chunk_is_a_zeroed_bounded_span() {
    let mut pool = MfsPool::new(1024, 2).unwrap();
    // allocates a zeroed span of 128 words
    let mut c1 = pool.alloc_chunk(128).unwrap();
    assert_eq!(c1.len(), 128);
    assert_eq!(c1.get(0), 0);
    assert_eq!(c1.get(127), 0);
    c1.set(3, 77);
    assert_eq!(c1.get(3), 77);
    assert!(pool.total_size() > 0);
    assert_eq!(pool.free_size(), 1024);
    pool.release_chunk(c1);
    assert_eq!(pool.free_size(), 2048);
}

#[test]
fn chunk_must_fit_one_unit() {
    let mut pool = MfsPool::new(1024, 2).unwrap();
    match pool.alloc_chunk(129) {
        Err(e) => assert_eq!(e, Error::InvalidParam),
        Ok(_) => panic!("a span larger than a unit must be rejected"),
    }
    let c1 = pool.alloc_chunk(128).unwrap();
    let c2 = pool.alloc_chunk(16).unwrap();
    assert_eq!((c1.unit(), c2.unit()), (0, 1));
    match pool.alloc_chunk(1) {
        Err(e) => assert_eq!(e, Error::InsufficientMemory),
        Ok(_) => panic!("no unit is left for a third span"),
    }
}
