use token_bucket::IntBucket;
use token_bucket::IntBucketCombined;

#[test]
fn accepts_first() {
    let mut bucket = IntBucketCombined::new(1, 10);
    assert!(bucket.accept(10000));
}

#[test]
fn fail_multiple() {
    let mut bucket = IntBucketCombined::new(2, 10);
    assert!(bucket.accept(10000));
    assert!(bucket.accept(10000));
    assert!(!bucket.accept(10000));
    assert!(!bucket.accept(10000));
}

#[test]
fn pass_after_time() {
    let mut bucket = IntBucketCombined::new(1, 10);
    assert!(bucket.accept(10000));
    assert!(!bucket.accept(10000));
    assert!(bucket.accept(10010));
}

#[test]
fn one_per_timeunit() {
    let mut bucket = IntBucketCombined::new(3, 10);
    assert!(bucket.accept(10000));
    assert!(bucket.accept(10001));
    assert!(bucket.accept(10002));
    assert!(!bucket.accept(10003));
    assert!(bucket.accept(10004));
    assert!(!bucket.accept(10005));
    assert!(!bucket.accept(10006));
    assert!(bucket.accept(10007));
    assert!(!bucket.accept(10008));
    assert!(!bucket.accept(10009));
    assert!(bucket.accept(10010));
    assert!(!bucket.accept(10011));
    assert!(!bucket.accept(10012));
    assert!(!bucket.accept(10013));
    assert!(bucket.accept(10014));
    assert!(!bucket.accept(10015));
    assert!(!bucket.accept(10016));
    assert!(bucket.accept(10017));
    assert!(!bucket.accept(10018));
    assert!(!bucket.accept(10019));
    assert!(bucket.accept(10020));
    assert!(!bucket.accept(10021));
    assert!(!bucket.accept(10022));
    assert!(!bucket.accept(10023));
    assert!(bucket.accept(10024));
}

#[test]
fn int_bucket_exhaustion_and_replenish() {
    let mut bucket = IntBucket::new(2, 10);
    assert!(bucket.accept(10000));
    assert!(bucket.accept(10000));
    assert!(!bucket.accept(10000));
    assert!(!bucket.accept(10000));
    assert!(bucket.accept(10010));
}

#[test]
fn int_bucket_regression_matches_clamped() {
    // a timestamp that goes backward behaves as a repeat of the last
    // admission time: the two call sequences below differ only in the
    // regressed timestamp and must decide identically
    let mut regressed = IntBucket::new(2, 10);
    let mut clamped = IntBucket::new(2, 10);
    assert_eq!(regressed.accept(10000), clamped.accept(10000));
    assert_eq!(regressed.accept(9000), clamped.accept(10000));
    assert_eq!(regressed.accept(9500), clamped.accept(10000));
    assert_eq!(regressed.accept(10010), clamped.accept(10010));
    assert_eq!(regressed.accept(10020), clamped.accept(10020));
}

#[test]
fn combined_rejects_time_reversal() {
    let mut bucket = IntBucketCombined::new(1, 10);
    assert!(bucket.accept(10000));
    // no capacity may be granted for time that appears to run backward
    assert!(!bucket.accept(5000));
    assert!(!bucket.accept(0));
    assert!(bucket.accept(10010));
}

#[test]
fn capacity_bound_in_window() {
    // a window opening with at most one admission's credit accrued admits
    // at most max_tokens calls timestamped inside it
    let mut bucket = IntBucketCombined::new(2, 10);
    let mut admitted_in_window = 0;
    for t in 0..10u64 {
        if bucket.accept(t) {
            admitted_in_window += 1;
        }
    }
    assert!(admitted_in_window <= 2);
}

#[test]
fn compare_encodings() {
    // the two integer encodings must decide identically on any
    // non-decreasing timestamp sequence; drive them with a deterministic
    // pseudo-random walk
    for tokens in 0..9u64 {
        for interval in (tokens + 1)..9u64 {
            let mut bucket_a = IntBucket::new(tokens, interval);
            let mut bucket_b = IntBucketCombined::new(tokens, interval);
            let mut state: u64 = 42;
            let mut timestamp: u64 = 0;
            for _ in 0..10000 {
                state = state
                    .wrapping_mul(6364136223846793005)
                    .wrapping_add(1442695040888963407);
                let step_size = (state >> 33) % 10;
                timestamp += step_size;
                let a = bucket_a.accept(timestamp);
                let b = bucket_b.accept(timestamp);
                assert!(a == b);
            }
        }
    }
}

#[test]
fn zero_capacity_never_admits() {
    let mut bucket = IntBucketCombined::new(0, 10);
    assert!(!bucket.accept(0));
    assert!(!bucket.accept(10000));
    assert!(!bucket.accept(1000000));
}
