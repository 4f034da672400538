//! An in-memory cache that folds a stream of bid/ask ticks into open/high/low/close
//! candles at minute, hour, day and month resolution, together with a pager that
//! enumerates candle identifiers over a span of time.
//!
//! Conventions used by every module:
//!
//! * An instant is an `i64` count of seconds since 1970-01-01T00:00:00Z; the pager,
//!   whose cursors are exchanged as millisecond tokens, counts milliseconds.
//! * A price or a volume is an `i64` that takes the place of the number in the order
//!   of numbers.  Only that order matters to the cache, and `0`, which stands for
//!   zero, marks a slot that was never set.
//! * Nothing here locks.  A caller that shares a cache between tasks guards it; the
//!   two-sided cache is built so that each side can have a guard of its own.
pub mod caches;
pub mod models;
