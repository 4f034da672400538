//! A candle with both sides, and the identifier under which it is kept.
use crate::models::candle_price::CandlePrice;
use crate::models::candle_type::CandleType;
use crate::models::decimal::{decimal_text, format_decimal};
use vstd::prelude::*;
use vstd::string::*;

verus! {

/// The bid and ask candles of one bucket of one instrument at one resolution.
/// `datetime` is the start of the bucket.
#[derive(Debug)]
pub struct BidAskCandle {
    pub candle_type: CandleType,
    pub datetime: i64,
    pub instrument: String,
    pub bid_data: CandlePrice,
    pub ask_data: CandlePrice,
}

/// What a `BidAskCandle` holds, as plain values.
pub struct CandleRecord {
    pub candle_type: CandleType,
    pub datetime: i64,
    pub instrument: Seq<char>,
    pub bid_data: CandlePrice,
    pub ask_data: CandlePrice,
}

/// The identifier of the bucket of `datetime`: the code of the resolution, the
/// instrument, and the start of the bucket in epoch seconds, written one after the
/// other.  It depends on the instant only through the bucket.
pub open spec fn candle_id(instrument: Seq<char>, candle_type: CandleType, datetime: int) -> Seq<char> {
    decimal_text(candle_type.spec_code()) + instrument + decimal_text(
        candle_type.spec_start_date(datetime),
    )
}

impl CandleRecord {
    /// The record of a bucket that has seen one tick.
    pub open spec fn spec_new(
        instrument: Seq<char>,
        candle_type: CandleType,
        datetime: i64,
        bid: i64,
        ask: i64,
        bid_vol: i64,
        ask_vol: i64,
    ) -> CandleRecord {
        CandleRecord {
            candle_type,
            datetime,
            instrument,
            bid_data: CandlePrice::spec_new(datetime, bid, bid_vol),
            ask_data: CandlePrice::spec_new(datetime, ask, ask_vol),
        }
    }

    /// The record after a tick: each side after its own half of the tick.
    pub open spec fn spec_update(self, bid: i64, ask: i64, bid_vol: i64, ask_vol: i64) -> CandleRecord {
        CandleRecord {
            bid_data: self.bid_data.spec_update(bid, bid_vol),
            ask_data: self.ask_data.spec_update(ask, ask_vol),
            ..self
        }
    }

    /// The identifier of the record.
    pub open spec fn spec_id(self) -> Seq<char> {
        candle_id(self.instrument, self.candle_type, self.datetime as int)
    }
}

impl View for BidAskCandle {
    type V = CandleRecord;

    open spec fn view(&self) -> CandleRecord {
        CandleRecord {
            candle_type: self.candle_type,
            datetime: self.datetime,
            instrument: self.instrument@,
            bid_data: self.bid_data,
            ask_data: self.ask_data,
        }
    }
}

impl Clone for BidAskCandle {
    /// A candle that holds what this one holds.
    fn clone(&self) -> (copy: BidAskCandle)
        ensures
            copy@ == self@,
    {
        BidAskCandle {
            candle_type: self.candle_type,
            datetime: self.datetime,
            instrument: self.instrument.clone(),
            bid_data: self.bid_data,
            ask_data: self.ask_data,
        }
    }
}

impl BidAskCandle {
    /// Applies a tick to both sides at once.
    pub fn update(&mut self, datetime: i64, bid: i64, ask: i64, bid_vol: i64, ask_vol: i64)
        ensures
            final(self)@ == old(self)@.spec_update(bid, ask, bid_vol, ask_vol),
    {
        self.bid_data.update(datetime, bid, bid_vol);
        self.ask_data.update(datetime, ask, ask_vol);
    }

    /// The identifier of the candle of `instrument` at `candle_type` whose bucket
    /// holds `datetime`.
    pub fn generate_id(instrument: &str, candle_type: &CandleType, datetime: i64) -> (id: String)
        requires
            candle_type.supports(datetime as int),
        ensures
            id@ == candle_id(instrument@, *candle_type, datetime as int),
    {
        let mut id = format_decimal(candle_type.code() as i64);
        id.append(instrument);
        let start = format_decimal(candle_type.get_start_date(datetime));
        id.append(start.as_str());
        id
    }

    /// The identifier of the candle.
    pub fn get_id(&self) -> (id: String)
        requires
            self.candle_type.supports(self.datetime as int),
        ensures
            id@ == self@.spec_id(),
    {
        BidAskCandle::generate_id(self.instrument.as_str(), &self.candle_type, self.datetime)
    }
}

/// Two instants of one bucket give one identifier.
pub proof fn lemma_id_of_bucket(instrument: Seq<char>, candle_type: CandleType, first: int, second: int)
    requires
        candle_type.spec_start_date(first) == candle_type.spec_start_date(second),
    ensures
        candle_id(instrument, candle_type, first) == candle_id(instrument, candle_type, second),
{
}

} // verus!
