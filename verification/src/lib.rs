//! Matching-and-settlement core of an order-driven trading venue.
//!
//! The matcher pairs resting buy and sell interest by price priority and
//! computes fills; the dispatch module partitions fills into bounded batches
//! and assigns each batch a submitting identity; the limiter bounds how many
//! settlement submissions may be in flight at once; the round module holds
//! the per-round orchestration decisions and the metrics record; the encode
//! module turns a batch's order identifiers into the 32-byte words the
//! settlement call takes.

pub mod order;
pub mod book;
pub mod matcher;
pub mod laws;
pub mod dispatch;
pub mod limiter;
pub mod round;
pub mod encode;
