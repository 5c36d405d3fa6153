use memory_pool_system::clamp::Clamp;

#[test]
fn clamp_pairing_nested() {
    // three nested guards: one clamp request at the first creation, one
    // release request when the last guard drops
    let mut clamp = Clamp::new();
    let mut clamp_requests = 0;
    let mut release_requests = 0;
    for _ in 0..3 {
        if clamp.acquire() {
            clamp_requests += 1;
        }
    }
    for _ in 0..3 {
        if clamp.release() {
            release_requests += 1;
        }
    }
    assert_eq!(clamp_requests, 1);
    assert_eq!(release_requests, 1);
    assert_eq!(clamp.count(), 0);
}

#[test]
fn clamp_pairing_interleaved() {
    // guards dropped out of creation order, lifetimes overlapping
    let mut clamp = Clamp::new();
    let mut clamp_requests = 0;
    let mut release_requests = 0;
    let events = [true, true, false, true, false, true, false, false];
    for &e in &events {
        if e {
            if clamp.acquire() {
                clamp_requests += 1;
            }
        } else {
            if clamp.release() {
                release_requests += 1;
            }
        }
    }
    assert_eq!(clamp_requests, 1);
    assert_eq!(release_requests, 1);
    assert_eq!(clamp.count(), 0);
}

#[test]
fn clamp_single_guard() {
    let mut clamp = Clamp::new();
    assert!(clamp.acquire());
    assert_eq!(clamp.count(), 1);
    assert!(clamp.release());
    assert_eq!(clamp.count(), 0);
    // a new, non-overlapping guard clamps again
    assert!(clamp.acquire());
    assert!(clamp.release());
}
