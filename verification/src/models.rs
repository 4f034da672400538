//! Value types: resolutions, candles, identifiers and the pager.
pub mod calendar;
pub mod candle;
pub mod candle_pager;
pub mod candle_price;
pub mod candle_type;
pub mod decimal;
