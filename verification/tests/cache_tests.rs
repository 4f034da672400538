use candles_cache::caches::candle_bidasks_cache::{CandleBidAsksCache, CandleSide};
use candles_cache::caches::candle_prices_cache::CandlePricesCache;
use candles_cache::caches::candle_types_cache::CandleTypesCache;
use candles_cache::models::candle_price::CandlePrice;
use candles_cache::models::candle_type::CandleType;
use chrono::{TimeZone, Utc};

/// The integer that stands for a price: it takes the place of the price in the order
/// of prices, and zero stands for zero.
fn price(value: f64) -> i64 {
    if value == 0.0 {
        return 0;
    }
    let bits = value.to_bits() as i64;
    bits ^ ((((bits >> 63) as u64) >> 1) as i64)
}

/// The price for which an integer stands.
fn value(key: i64) -> f64 {
    f64::from_bits((key ^ ((((key >> 63) as u64) >> 1) as i64)) as u64)
}

#[test]
fn test_sinle_quote() {
    let mut cache = CandleBidAsksCache::new();
    let instument = String::from("EURUSD");
    let date = Utc.timestamp_millis_opt(1662559404 * 1000).unwrap();
    let bid = price(25.55);
    let ask = price(36.55);

    cache.update(date.timestamp(), &instument, bid, ask, price(0.0), price(0.0));

    let from = Utc.timestamp_millis_opt(1660559404 * 1000).unwrap().timestamp();
    let to = Utc.timestamp_millis_opt(2660559404 * 1000).unwrap().timestamp();

    let result_bid_minute =
        cache.get_by_date_range(instument.clone(), CandleType::Minute, true, from, to);
    let result_ask_minute =
        cache.get_by_date_range(instument.clone(), CandleType::Minute, false, from, to);

    let result_bid_hour =
        cache.get_by_date_range(instument.clone(), CandleType::Hour, true, from, to);
    let result_ask_hour =
        cache.get_by_date_range(instument.clone(), CandleType::Hour, false, from, to);

    let result_bid_day = cache.get_by_date_range(instument.clone(), CandleType::Day, true, from, to);
    let result_ask_day =
        cache.get_by_date_range(instument.clone(), CandleType::Day, false, from, to);

    let result_bid_mount =
        cache.get_by_date_range(instument.clone(), CandleType::Month, true, from, to);
    let result_ask_mount =
        cache.get_by_date_range(instument.clone(), CandleType::Month, false, from, to);

    assert_eq!(result_bid_minute.len(), 1);
    assert_eq!(result_ask_minute.len(), 1);

    assert_eq!(result_bid_hour.len(), 1);
    assert_eq!(result_ask_hour.len(), 1);

    assert_eq!(result_bid_day.len(), 1);
    assert_eq!(result_ask_day.len(), 1);

    assert_eq!(result_bid_mount.len(), 1);
    assert_eq!(result_ask_mount.len(), 1);
}

#[test]
fn test_date_rotation_minute() {
    let mut cache = CandleBidAsksCache::new();
    let instument = String::from("EURUSD");
    let date = Utc.timestamp_millis_opt(1662559404 * 1000).unwrap();
    let bid = price(25.55);
    let ask = price(36.55);

    cache.update(date.timestamp(), &instument, bid, ask, price(0.0), price(0.0));

    let date = Utc.timestamp_millis_opt(1662559474 * 1000).unwrap();
    let bid = price(25.55);
    let ask = price(36.55);

    cache.update(date.timestamp(), &instument, bid, ask, price(0.0), price(0.0));

    let from = Utc.timestamp_millis_opt(1660559404 * 1000).unwrap().timestamp();
    let to = Utc.timestamp_millis_opt(2660559404 * 1000).unwrap().timestamp();

    let result_bid_minute =
        cache.get_by_date_range(instument.clone(), CandleType::Minute, true, from, to);
    let result_ask_minute =
        cache.get_by_date_range(instument.clone(), CandleType::Minute, false, from, to);

    let result_bid_hour =
        cache.get_by_date_range(instument.clone(), CandleType::Hour, true, from, to);
    let result_ask_hour =
        cache.get_by_date_range(instument.clone(), CandleType::Hour, false, from, to);

    let result_bid_day = cache.get_by_date_range(instument.clone(), CandleType::Day, true, from, to);
    let result_ask_day =
        cache.get_by_date_range(instument.clone(), CandleType::Day, false, from, to);

    let result_bid_mount =
        cache.get_by_date_range(instument.clone(), CandleType::Month, true, from, to);
    let result_ask_mount =
        cache.get_by_date_range(instument.clone(), CandleType::Month, false, from, to);

    assert_eq!(result_bid_minute.len(), 2);
    assert_eq!(result_ask_minute.len(), 2);

    assert_eq!(result_bid_hour.len(), 1);
    assert_eq!(result_ask_hour.len(), 1);

    assert_eq!(result_bid_day.len(), 1);
    assert_eq!(result_ask_day.len(), 1);

    assert_eq!(result_bid_mount.len(), 1);
    assert_eq!(result_ask_mount.len(), 1);
}

#[test]
fn test_calculation() {
    let mut cache = CandleBidAsksCache::new();
    let instument = String::from("EURUSD");
    let date = Utc.timestamp_millis_opt(1662559404 * 1000).unwrap();
    let bid = price(25.55);
    let ask = price(36.55);

    cache.update(date.timestamp(), &instument, bid, ask, price(0.0), price(0.0));

    let date = Utc.timestamp_millis_opt(1662559406 * 1000).unwrap();
    let bid = price(60.55);
    let ask = price(31.55);

    cache.update(date.timestamp(), &instument, bid, ask, price(0.0), price(0.0));

    let date = Utc.timestamp_millis_opt(1662559407 * 1000).unwrap();
    let bid = price(50.55);
    let ask = price(62.55);

    cache.update(date.timestamp(), &instument, bid, ask, price(0.0), price(0.0));

    let from = Utc.timestamp_millis_opt(1660559404 * 1000).unwrap().timestamp();
    let to = Utc.timestamp_millis_opt(2660559404 * 1000).unwrap().timestamp();

    let result_bid_minute =
        cache.get_by_date_range(instument.clone(), CandleType::Minute, true, from, to);
    let result_ask_minute =
        cache.get_by_date_range(instument.clone(), CandleType::Minute, false, from, to);

    assert_eq!(result_bid_minute.len(), 1);
    assert_eq!(result_ask_minute.len(), 1);

    let first_bid = result_bid_minute.first().unwrap();
    let first_ask = result_ask_minute.first().unwrap();

    assert_eq!(value(first_bid.open), 25.55);
    assert_eq!(value(first_bid.close), 50.55);
    assert_eq!(value(first_bid.high), 60.55);
    assert_eq!(value(first_bid.low), 25.55);

    assert_eq!(value(first_ask.open), 36.55);
    assert_eq!(value(first_ask.close), 62.55);
    assert_eq!(value(first_ask.high), 62.55);
    assert_eq!(value(first_ask.low), 31.55);

    assert_eq!(first_bid.get_candle_date(CandleType::Minute), 1662559380);
    assert_eq!(first_ask.get_candle_date(CandleType::Minute), 1662559380);
}

#[test]
fn single_tick_gives_one_flat_candle_at_the_start_of_its_minute() {
    let mut cache = CandleBidAsksCache::new();
    let t0 = 1662559404;
    cache.update(t0, "EURUSD", 2555, 3655, 7, 9);

    let bids =
        cache.get_by_date_range("EURUSD".to_string(), CandleType::Minute, true, t0 - 1000, t0 + 1000);
    let asks = cache.get_by_date_range(
        "EURUSD".to_string(),
        CandleType::Minute,
        false,
        t0 - 1000,
        t0 + 1000,
    );

    assert_eq!(
        bids,
        vec![CandlePrice {
            open: 2555,
            close: 2555,
            high: 2555,
            low: 2555,
            datetime: 1662559380,
            volume: 7
        }]
    );
    assert_eq!(
        asks,
        vec![CandlePrice {
            open: 3655,
            close: 3655,
            high: 3655,
            low: 3655,
            datetime: 1662559380,
            volume: 9
        }]
    );
}

#[test]
fn unknown_instrument_gives_no_candles() {
    let mut cache = CandleBidAsksCache::new();
    cache.update(1662559404, "EURUSD", 2555, 3655, 0, 0);
    let found =
        cache.get_by_date_range("GBPUSD".to_string(), CandleType::Minute, true, 0, i64::MAX);
    assert!(found.is_empty());
    // Instruments are told apart by case.
    let found =
        cache.get_by_date_range("eurusd".to_string(), CandleType::Minute, true, 0, i64::MAX);
    assert!(found.is_empty());
}

#[test]
fn one_side_does_not_touch_the_other() {
    let mut cache = CandleBidAsksCache::new();
    let t0 = 1662559404;
    cache.update(t0, "EURUSD", 2555, 3655, 1, 2);
    let asks_before =
        cache.get_by_date_range("EURUSD".to_string(), CandleType::Minute, false, 0, i64::MAX);

    cache.update_bid_or_ask(true, t0 + 1, "EURUSD", 9999, 1, 5, 6);
    cache.update_bid_or_ask(true, t0 + 100, "GBPUSD", 9999, 1, 5, 6);
    cache.init(
        "EURUSD".to_string(),
        true,
        CandleType::Minute,
        CandlePrice::new(1662559380 - 60, 1, 1),
    );

    let asks_after =
        cache.get_by_date_range("EURUSD".to_string(), CandleType::Minute, false, 0, i64::MAX);
    assert_eq!(asks_before, asks_after);
    assert!(cache
        .get_by_date_range("GBPUSD".to_string(), CandleType::Minute, false, 0, i64::MAX)
        .is_empty());
    let bids = cache.get_by_date_range("EURUSD".to_string(), CandleType::Minute, true, 0, i64::MAX);
    assert_eq!(bids.len(), 2);
    assert_eq!(bids[1].high, 9999);
    assert_eq!(bids[1].open, 2555);
}

#[test]
fn clear_forgets_both_sides() {
    let mut cache = CandleBidAsksCache::new();
    cache.update(1662559404, "EURUSD", 2555, 3655, 0, 0);
    cache.clear();
    for is_bid in [true, false] {
        assert!(cache
            .get_by_date_range("EURUSD".to_string(), CandleType::Day, is_bid, 0, i64::MAX)
            .is_empty());
    }
}

#[test]
fn init_overwrites_the_candle_of_its_bucket() {
    let mut side = CandleSide::new();
    let seeded = CandlePrice { open: 1, close: 2, high: 3, low: 1, datetime: 120, volume: 4 };
    side.update(125, "X", 10, 0);
    side.init("X".to_string(), CandleType::Minute, seeded);
    assert_eq!(
        side.get_by_date_range("X", CandleType::Minute, 0, 1000),
        vec![seeded]
    );
    // The other resolutions still hold what the tick left.
    assert_eq!(side.get_by_date_range("X", CandleType::Hour, 0, 1000)[0].open, 10);
}

#[test]
fn range_is_half_open() {
    let mut cache = CandlePricesCache::new(CandleType::Minute);
    for start in [60, 120, 180] {
        cache.init(CandlePrice::new(start, 5, 0));
    }
    let starts = |candles: Vec<CandlePrice>| -> Vec<i64> {
        candles.iter().map(|candle| candle.datetime).collect()
    };
    assert_eq!(starts(cache.get_by_date_range(60, 180)), vec![60, 120]);
    assert_eq!(starts(cache.get_by_date_range(120, 181)), vec![120, 180]);
    assert_eq!(starts(cache.get_by_date_range(61, 120)), Vec::<i64>::new());
    assert_eq!(starts(cache.get_by_date_range(0, 1000)), vec![60, 120, 180]);
    assert_eq!(starts(cache.get_by_date_range(120, 120)), Vec::<i64>::new());
    assert_eq!(starts(cache.get_by_date_range(180, 60)), Vec::<i64>::new());
}

#[test]
fn candles_come_out_in_ascending_order() {
    let mut cache = CandlePricesCache::new(CandleType::Minute);
    for t in [605, 5, 305, 125, 905, 65, 306] {
        cache.update(t, t, 0);
    }
    let found = cache.get_by_date_range(i64::MIN, i64::MAX);
    let starts: Vec<i64> = found.iter().map(|candle| candle.datetime).collect();
    assert_eq!(starts, vec![0, 60, 120, 300, 600, 900]);
    assert_eq!(cache.len(), 6);
    assert_eq!(found[3].open, 305);
    assert_eq!(found[3].close, 306);
    cache.clear();
    assert_eq!(cache.len(), 0);
    assert_eq!(cache.candle_type(), CandleType::Minute);
}

#[test]
fn month_cache_puts_a_whole_month_in_one_candle() {
    let mut cache = CandlePricesCache::new(CandleType::Month);
    let first = Utc.with_ymd_and_hms(2024, 2, 1, 0, 0, 0).unwrap().timestamp();
    let last = Utc.with_ymd_and_hms(2024, 2, 29, 23, 59, 59).unwrap().timestamp();
    cache.update(first, 10, 0);
    cache.update(last, 20, 0);
    cache.update(last + 1, 30, 0);
    let found = cache.get_by_date_range(0, i64::MAX);
    assert_eq!(found.len(), 2);
    assert_eq!(found[0].datetime, first);
    assert_eq!(found[0].close, 20);
    assert_eq!(found[1].datetime, last + 1);
}

#[test]
fn instrument_cache_fans_a_tick_out_to_every_resolution() {
    let mut cache = CandleTypesCache::new("EURUSD".to_string());
    cache.update(2555, 3, 1662559404);
    cache.update(2600, 4, 1662559404 + 70);
    assert_eq!(cache.instrument_id(), "EURUSD");
    assert_eq!(cache.get_by_date_range(CandleType::Minute, 0, i64::MAX).len(), 2);
    for candle_type in [CandleType::Hour, CandleType::Day, CandleType::Month] {
        let found = cache.get_by_date_range(candle_type, 0, i64::MAX);
        assert_eq!(found.len(), 1);
        assert_eq!(found[0].open, 2555);
        assert_eq!(found[0].close, 2600);
        assert_eq!(found[0].volume, 4);
    }
    cache.init(CandlePrice::new(0, 1, 1), CandleType::Day);
    assert_eq!(cache.get_by_date_range(CandleType::Day, 0, i64::MAX).len(), 2);
    assert_eq!(cache.get_by_date_range(CandleType::Hour, 0, i64::MAX).len(), 1);
    let copy = cache.clone();
    cache.clear();
    for candle_type in [CandleType::Minute, CandleType::Hour, CandleType::Day, CandleType::Month] {
        assert!(cache.get_by_date_range(candle_type, 0, i64::MAX).is_empty());
    }
    assert_eq!(copy.get_by_date_range(CandleType::Day, 0, i64::MAX).len(), 2);
}

#[test]
fn price_keys_keep_the_order_of_prices() {
    let prices = [-1.0e300, -36.55, -1.0e-300, 0.0, 1.0e-300, 25.55, 25.550000000000004, 1.0e300];
    for pair in prices.windows(2) {
        assert!(price(pair[0]) < price(pair[1]), "{} < {}", pair[0], pair[1]);
    }
    for number in prices {
        assert_eq!(value(price(number)), number);
    }
    assert_eq!(price(-0.0), 0);
}
