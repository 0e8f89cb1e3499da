use netscan::govern::Governor;
use netscan::govern::PermitPool;
use netscan::govern::TokenBucket;
use netscan::govern::CONCURRENT_REQUESTS;
use netscan::govern::RATE_LIMIT;

#[test]
fn fixed_limits_match_the_scan() {
    assert_eq!(CONCURRENT_REQUESTS, 100);
    assert_eq!(RATE_LIMIT, 300);
}

#[test]
fn permit_pool_caps_simultaneous_holders() {
    let mut pool = PermitPool::new(2);
    assert!(pool.try_acquire());
    assert!(pool.try_acquire());
    assert!(!pool.try_acquire());
    pool.release();
    assert!(pool.try_acquire());
    assert!(!pool.try_acquire());
}

#[test]
fn active_pipelines_never_exceed_capacity() {
    let mut g = Governor::new(100, 300, 300, 0);
    let mut held: u32 = 0;
    for _ in 0..1000 {
        if g.try_admit(0) {
            held += 1;
        }
        assert!(held <= 100);
    }
    assert_eq!(held, 100);
    g.complete();
    held -= 1;
    assert!(g.try_admit(0));
    held += 1;
    assert_eq!(held, 100);
}

#[test]
fn token_bucket_grants_at_most_burst_at_once() {
    let mut tb = TokenBucket::new(300, 300, 0);
    let mut granted: u32 = 0;
    for _ in 0..1000 {
        if tb.try_admit() {
            granted += 1;
        }
    }
    assert_eq!(granted, 300);
}

#[test]
fn token_bucket_average_rate_stays_under_the_quota() {
    let mut tb = TokenBucket::new(300, 300, 0);
    let mut total: u32 = 0;
    for second in 0..4u64 {
        tb.refill(second * 1000);
        for _ in 0..1000 {
            if tb.try_admit() {
                total += 1;
            }
        }
        // never more than the burst plus the elapsed time at the rate
        assert!(total <= 300 + 300 * second as u32);
    }
    assert_eq!(total, 300 + 3 * 300);
}

#[test]
fn token_bucket_refill_is_capped_at_burst() {
    let mut tb = TokenBucket::new(300, 300, 0);
    tb.refill(10_000_000);
    let mut granted: u32 = 0;
    for _ in 0..1000 {
        if tb.try_admit() {
            granted += 1;
        }
    }
    assert_eq!(granted, 300);
}

#[test]
fn refill_grows_by_fractions_of_a_second() {
    // 300 per second is 3 tokens per 10 ms
    let mut tb = TokenBucket::new(300, 300, 0);
    for _ in 0..300 {
        assert!(tb.try_admit());
    }
    assert!(!tb.try_admit());
    tb.refill(10);
    assert!(tb.try_admit());
    assert!(tb.try_admit());
    assert!(tb.try_admit());
    assert!(!tb.try_admit());
}

#[test]
fn governor_admits_only_with_permit_and_token() {
    // pool smaller than the bucket: the pool is the binding cap
    let mut g = Governor::new(2, 300, 300, 0);
    assert!(g.try_admit(0));
    assert!(g.try_admit(0));
    assert!(!g.try_admit(0));
    g.complete();
    assert!(g.try_admit(0));
    // bucket smaller than the pool: the rate is the binding cap
    let mut g = Governor::new(100, 300, 2, 0);
    assert!(g.try_admit(0));
    assert!(g.try_admit(0));
    assert!(!g.try_admit(0));
    g.complete();
    g.complete();
    // a refused admission held nothing back
    assert!(!g.try_admit(0));
    assert!(g.try_admit(1000));
}
