use std::sync::mpsc::channel;

use token_bucket::IntBucketCombinedMT;
use token_bucket::WallClockIntBucketCombinedMT;

#[test]
fn multi_threaded_access() {
    let tokens = 100;
    let threads = 1000;
    let bucket = &IntBucketCombinedMT::new(tokens, 10);
    let (sender, receiver) = channel();

    crossbeam::scope(|scope| {
        for _ in 1..threads {
            let sender = sender.clone();
            scope.spawn(move |_| {
                sender.send(bucket.accept(10000)).unwrap();
            });
        }
    })
    .unwrap();

    let mut successes = 0;
    for _ in 1..threads {
        if receiver.recv().unwrap() {
            successes += 1;
        }
    }
    assert!(successes == tokens);
}

#[test]
fn single_threaded_mt_matches_exclusive() {
    // without contention the lock-free bucket must decide exactly like the
    // exclusive packed bucket
    let bucket = IntBucketCombinedMT::new(2, 10);
    assert!(bucket.accept(10000));
    assert!(bucket.accept(10000));
    assert!(!bucket.accept(10000));
    assert!(!bucket.accept(9000));
    assert!(bucket.accept(10010));
}

#[test]
fn static_accepts_first() {
    let bucket = WallClockIntBucketCombinedMT::new(2, 10 * 1000);
    let mut i = 0;
    for _ in 0..100 {
        if bucket.accept() {
            i += 1;
        }
    }
    assert!(i == 2);
}
