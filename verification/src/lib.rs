//! Token-bucket admission control.
//!
//! A bucket is created with a maximum burst size (`max_tokens`) and a refill
//! period (`interval`). Each call to `accept(timestamp)` either admits the
//! caller, consuming one token's worth of capacity, or rejects it, leaving
//! the state untouched. Two integer encodings of the same algorithm are
//! provided: a two-field accumulator (`IntBucket`) and a packed single-word
//! accumulator (`IntBucketCombined`), the latter also in a lock-free
//! multithreaded form (`IntBucketCombinedMT`) driven by a compare-and-swap
//! retry loop, plus a wall-clock adapter around the multithreaded bucket.
//!
//! The shared mathematical model lives in [`model`]; the laws relating the
//! encodings — the capacity bound, the cross-encoding equivalence, and the
//! no-going-backward guarantees — are stated and proved in [`laws`].

pub mod laws;
pub mod model;

mod clock;
mod combined;
mod combined_mt;
mod int_bucket;

pub use clock::WallClockIntBucketCombinedMT;
pub use combined::IntBucketCombined;
pub use combined_mt::IntBucketCombinedMT;
pub use int_bucket::IntBucket;
