//! The caches built on the value types.
pub mod candle_bidasks_cache;
pub mod candle_prices_cache;
pub mod candle_types_cache;
pub mod candles_cache;
