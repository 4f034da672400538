//! The candles of one side of one instrument, at every resolution.
use crate::caches::candle_prices_cache::{
    ascending, entries_between, ticked, with_entry, CandlePricesCache,
};
use crate::models::calendar::in_calendar;
use crate::models::candle_price::CandlePrice;
use crate::models::candle_type::CandleType;
use vstd::prelude::*;

verus! {

/// One cache of candles for each resolution.  Every tick reaches all four.
#[derive(Debug)]
pub struct CandleTypesCache {
    instrument_id: String,
    minutes: CandlePricesCache,
    hours: CandlePricesCache,
    days: CandlePricesCache,
    months: CandlePricesCache,
}

impl Clone for CandleTypesCache {
    /// A cache for the same instrument with the same candles.
    fn clone(&self) -> (copy: CandleTypesCache)
        ensures
            self.wf() ==> copy.wf(),
            copy.spec_instrument_id() == self.spec_instrument_id(),
            forall|candle_type: CandleType| copy.candles(candle_type) == self.candles(candle_type),
    {
        CandleTypesCache {
            instrument_id: self.instrument_id.clone(),
            minutes: self.minutes.clone(),
            hours: self.hours.clone(),
            days: self.days.clone(),
            months: self.months.clone(),
        }
    }
}

impl CandleTypesCache {
    /// Each of the four caches holds the resolution it is named after.
    pub closed spec fn wf(self) -> bool {
        &&& self.minutes.spec_candle_type() == CandleType::Minute
        &&& self.hours.spec_candle_type() == CandleType::Hour
        &&& self.days.spec_candle_type() == CandleType::Day
        &&& self.months.spec_candle_type() == CandleType::Month
    }

    /// The instrument whose candles these are.
    pub closed spec fn spec_instrument_id(self) -> Seq<char> {
        self.instrument_id@
    }

    /// The candles of one resolution, in ascending order of bucket start.
    pub closed spec fn candles(self, candle_type: CandleType) -> Seq<CandlePrice> {
        match candle_type {
            CandleType::Minute => self.minutes@,
            CandleType::Hour => self.hours@,
            CandleType::Day => self.days@,
            CandleType::Month => self.months@,
        }
    }

    /// The candles of `candle_type` after a tick at `datetime`.
    pub open spec fn candles_after_tick(
        self,
        candle_type: CandleType,
        rate: i64,
        volume: i64,
        datetime: i64,
    ) -> Seq<CandlePrice> {
        with_entry(
            self.candles(candle_type),
            ticked(
                self.candles(candle_type),
                candle_type.spec_start_date(datetime as int) as i64,
                rate,
                volume,
            ),
        )
    }

    /// Empty caches for one instrument.
    pub fn new(instrument_id: String) -> (cache: CandleTypesCache)
        ensures
            cache.wf(),
            cache.spec_instrument_id() == instrument_id@,
            forall|candle_type: CandleType| cache.candles(candle_type) == Seq::<CandlePrice>::empty(),
    {
        CandleTypesCache {
            instrument_id,
            minutes: CandlePricesCache::new(CandleType::Minute),
            hours: CandlePricesCache::new(CandleType::Hour),
            days: CandlePricesCache::new(CandleType::Day),
            months: CandlePricesCache::new(CandleType::Month),
        }
    }

    /// The instrument whose candles these are.
    pub fn instrument_id(&self) -> (instrument_id: &String)
        ensures
            instrument_id@ == self.spec_instrument_id(),
    {
        &self.instrument_id
    }

    /// Puts a finished candle into its bucket at one resolution, in place of any candle
    /// that the bucket held.  The other resolutions are not touched.
    pub fn init(&mut self, candle: CandlePrice, candle_type: CandleType)
        ensures
            old(self).wf() ==> final(self).wf(),
            final(self).spec_instrument_id() == old(self).spec_instrument_id(),
            final(self).candles(candle_type) == with_entry(old(self).candles(candle_type), candle),
            forall|other: CandleType|
                other != candle_type ==> final(self).candles(other) == old(self).candles(other),
    {
        match candle_type {
            CandleType::Minute => self.minutes.init(candle),
            CandleType::Hour => self.hours.init(candle),
            CandleType::Day => self.days.init(candle),
            CandleType::Month => self.months.init(candle),
        };
    }

    /// The candles of one resolution whose bucket starts at or after `date_from` and
    /// before `date_to`, in ascending order.
    pub fn get_by_date_range(&self, candle_type: CandleType, date_from: i64, date_to: i64) -> (result:
        Vec<CandlePrice>)
        ensures
            result@ == entries_between(self.candles(candle_type), date_from as int, date_to as int),
            ascending(self.candles(candle_type)),
            ascending(result@),
    {
        match candle_type {
            CandleType::Minute => self.minutes.get_by_date_range(date_from, date_to),
            CandleType::Hour => self.hours.get_by_date_range(date_from, date_to),
            CandleType::Day => self.days.get_by_date_range(date_from, date_to),
            CandleType::Month => self.months.get_by_date_range(date_from, date_to),
        }
    }

    /// Applies a tick to the bucket of `datetime` at every resolution.
    pub fn update(&mut self, rate: i64, volume: i64, datetime: i64)
        requires
            old(self).wf(),
            in_calendar(datetime as int),
        ensures
            final(self).wf(),
            final(self).spec_instrument_id() == old(self).spec_instrument_id(),
            forall|candle_type: CandleType|
                final(self).candles(candle_type) == old(self).candles_after_tick(
                    candle_type,
                    rate,
                    volume,
                    datetime,
                ),
    {
        self.minutes.update(datetime, rate, volume);
        self.hours.update(datetime, rate, volume);
        self.days.update(datetime, rate, volume);
        self.months.update(datetime, rate, volume);
    }

    /// Drops the candles of every resolution.
    pub fn clear(&mut self)
        ensures
            old(self).wf() ==> final(self).wf(),
            final(self).spec_instrument_id() == old(self).spec_instrument_id(),
            forall|candle_type: CandleType|
                final(self).candles(candle_type) == Seq::<CandlePrice>::empty(),
    {
        self.days.clear();
        self.hours.clear();
        self.minutes.clear();
        self.months.clear();
    }
}

} // verus!
