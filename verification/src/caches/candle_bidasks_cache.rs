//! The candles of every instrument, kept apart for the bid side and the ask side.
use crate::caches::candle_prices_cache::{ascending, entries_between, ticked, with_entry};
use crate::caches::candle_types_cache::CandleTypesCache;
use crate::models::calendar::in_calendar;
use crate::models::candle_price::CandlePrice;
use crate::models::candle_type::CandleType;
use vstd::prelude::*;

verus! {

/// The candles of one side, bid or ask, of every instrument seen on that side.
///
/// A side is complete in itself, so that a caller can guard each side with a lock of
/// its own.
#[derive(Debug)]
pub struct CandleSide {
    instruments: Vec<CandleTypesCache>,
}

/// The bid side and the ask side.  A tick reaches the bid side first and the ask side
/// after it; nothing ties the two together.
#[derive(Debug)]
pub struct CandleBidAsksCache {
    bid_candles: CandleSide,
    ask_candles: CandleSide,
}

impl CandleSide {
    /// Every instrument is held once, and its caches are well formed.
    pub closed spec fn wf(self) -> bool {
        &&& forall|i: int| 0 <= i < self.instruments@.len() ==> (#[trigger] self.instruments@[i]).wf()
        &&& forall|i: int, j: int|
            0 <= i < j < self.instruments@.len() ==> self.instruments@[i].spec_instrument_id()
                != self.instruments@[j].spec_instrument_id()
    }

    /// The instrument has been seen on this side.
    pub closed spec fn has(self, instrument: Seq<char>) -> bool {
        exists|i: int|
            0 <= i < self.instruments@.len() && (#[trigger] self.instruments@[i]).spec_instrument_id()
                == instrument
    }

    /// Where the instrument is held.
    closed spec fn slot(self, instrument: Seq<char>) -> int {
        choose|i: int|
            0 <= i < self.instruments@.len() && (#[trigger] self.instruments@[i]).spec_instrument_id()
                == instrument
    }

    /// The candles of an instrument at one resolution, in ascending order of bucket
    /// start; none for an instrument that has not been seen.
    pub closed spec fn candles(self, instrument: Seq<char>, candle_type: CandleType) -> Seq<
        CandlePrice,
    > {
        if self.has(instrument) {
            self.instruments@[self.slot(instrument)].candles(candle_type)
        } else {
            Seq::empty()
        }
    }

    /// The candles of an instrument at one resolution after a tick at `datetime`.
    pub open spec fn candles_after_tick(
        self,
        instrument: Seq<char>,
        candle_type: CandleType,
        rate: i64,
        volume: i64,
        datetime: i64,
    ) -> Seq<CandlePrice> {
        with_entry(
            self.candles(instrument, candle_type),
            ticked(
                self.candles(instrument, candle_type),
                candle_type.spec_start_date(datetime as int) as i64,
                rate,
                volume,
            ),
        )
    }

    /// `self` is what `before` becomes with a tick for `instrument`: the instrument
    /// has been seen, its candles have taken the tick at every resolution, and no
    /// other instrument has changed.
    pub open spec fn is_after_tick(
        self,
        before: CandleSide,
        instrument: Seq<char>,
        rate: i64,
        volume: i64,
        datetime: i64,
    ) -> bool {
        &&& forall|other: Seq<char>| #[trigger]
            self.has(other) <==> before.has(other) || other == instrument
        &&& forall|candle_type: CandleType| #[trigger]
            self.candles(instrument, candle_type) == before.candles_after_tick(
                instrument,
                candle_type,
                rate,
                volume,
                datetime,
            )
        &&& forall|other: Seq<char>, candle_type: CandleType|
            other != instrument ==> #[trigger] self.candles(other, candle_type) == before.candles(
                other,
                candle_type,
            )
    }

    /// `self` is what `before` becomes with a finished candle for `instrument` at one
    /// resolution: the instrument has been seen, the candle stands in its bucket, and
    /// nothing else has changed.
    pub open spec fn is_after_init(
        self,
        before: CandleSide,
        instrument: Seq<char>,
        candle_type: CandleType,
        candle: CandlePrice,
    ) -> bool {
        &&& forall|other: Seq<char>| #[trigger]
            self.has(other) <==> before.has(other) || other == instrument
        &&& self.candles(instrument, candle_type) == with_entry(
            before.candles(instrument, candle_type),
            candle,
        )
        &&& forall|other: Seq<char>, other_type: CandleType|
            other != instrument || other_type != candle_type ==> #[trigger] self.candles(
                other,
                other_type,
            ) == before.candles(other, other_type)
    }

    /// No instrument has been seen.
    pub open spec fn is_blank(self) -> bool {
        &&& forall|instrument: Seq<char>| !#[trigger] self.has(instrument)
        &&& forall|instrument: Seq<char>, candle_type: CandleType| #[trigger]
            self.candles(instrument, candle_type) == Seq::<CandlePrice>::empty()
    }

    /// A side on which no instrument has been seen.
    pub fn new() -> (side: CandleSide)
        ensures
            side.wf(),
            side.is_blank(),
    {
        CandleSide { instruments: Vec::new() }
    }

    /// Where the instrument is held, if it has been seen.
    fn find(&self, instrument: &String) -> (found: Option<usize>)
        requires
            self.wf(),
        ensures
            found is Some <==> self.has(instrument@),
            found matches Some(index) ==> index < self.instruments@.len() && index == self.slot(
                instrument@,
            ) && self.instruments@[index as int].spec_instrument_id() == instrument@,
    {
        let mut index: usize = 0;
        while index < self.instruments.len()
            invariant
                index <= self.instruments@.len(),
                self.wf(),
                forall|i: int|
                    0 <= i < index ==> (#[trigger] self.instruments@[i]).spec_instrument_id()
                        != instrument@,
            decreases self.instruments@.len() - index,
        {
            if *self.instruments[index].instrument_id() == *instrument {
                return Some(index);
            }
            index += 1;
        }
        None
    }

    /// Applies a tick to the candles of an instrument at every resolution.  An
    /// instrument is taken up with its first tick.  No other instrument is touched.
    pub fn update(&mut self, datetime: i64, instrument: &str, rate: i64, volume: i64)
        requires
            old(self).wf(),
            in_calendar(datetime as int),
        ensures
            final(self).wf(),
            final(self).is_after_tick(*old(self), instrument@, rate, volume, datetime),
    {
        let key = instrument.to_owned();
        let mut cache = match self.find(&key) {
            Some(index) => self.instruments.swap_remove(index),
            None => CandleTypesCache::new(key),
        };
        cache.update(rate, volume, datetime);
        proof {
            self.lemma_without(*old(self), instrument@);
        }
        let ghost rest = *self;
        self.instruments.push(cache);
        proof {
            self.lemma_with(rest, cache);
        }
    }

    /// Puts a finished candle of an instrument into its bucket at one resolution, in
    /// place of any candle that the bucket held.  An instrument is taken up with its
    /// first candle.  Nothing else is touched.
    pub fn init(&mut self, instrument_id: String, candle_type: CandleType, candle: CandlePrice)
        requires
            old(self).wf(),
        ensures
            final(self).wf(),
            final(self).is_after_init(*old(self), instrument_id@, candle_type, candle),
    {
        let mut cache = match self.find(&instrument_id) {
            Some(index) => self.instruments.swap_remove(index),
            None => CandleTypesCache::new(instrument_id),
        };
        cache.init(candle, candle_type);
        proof {
            self.lemma_without(*old(self), cache.spec_instrument_id());
        }
        let ghost rest = *self;
        self.instruments.push(cache);
        proof {
            self.lemma_with(rest, cache);
        }
    }

    /// The candles of an instrument at one resolution whose bucket starts at or after
    /// `date_from` and before `date_to`, in ascending order; none for an instrument
    /// that has not been seen.
    pub fn get_by_date_range(
        &self,
        instrument_id: &str,
        candle_type: CandleType,
        date_from: i64,
        date_to: i64,
    ) -> (result: Vec<CandlePrice>)
        requires
            self.wf(),
        ensures
            result@ == entries_between(
                self.candles(instrument_id@, candle_type),
                date_from as int,
                date_to as int,
            ),
            ascending(self.candles(instrument_id@, candle_type)),
            ascending(result@),
    {
        let key = instrument_id.to_owned();
        match self.find(&key) {
            Some(index) => self.instruments[index].get_by_date_range(candle_type, date_from, date_to),
            None => {
                Vec::new()
            },
        }
    }

    /// Forgets every instrument.
    pub fn clear(&mut self)
        ensures
            final(self).wf(),
            final(self).is_blank(),
    {
        self.instruments.clear();
    }

    /// What a side holds once the caches of `instrument` have been taken out of `whole`
    /// by moving the last instrument into their place.
    proof fn lemma_without(self, whole: CandleSide, instrument: Seq<char>)
        requires
            whole.wf(),
            if whole.has(instrument) {
                self.instruments@ == whole.instruments@.update(
                    whole.slot(instrument),
                    whole.instruments@.last(),
                ).drop_last()
            } else {
                self == whole
            },
        ensures
            self.wf(),
            !self.has(instrument),
            forall|other: Seq<char>| other != instrument ==> (self.has(other) <==> whole.has(other)),
            forall|other: Seq<char>, candle_type: CandleType|
                other != instrument ==> self.candles(other, candle_type) == whole.candles(
                    other,
                    candle_type,
                ),
    {
        if whole.has(instrument) {
            let hole = whole.slot(instrument);
            let last = whole.instruments@.len() - 1;
            assert forall|other: Seq<char>| other != instrument implies {
                &&& self.has(other) <==> whole.has(other)
                &&& forall|candle_type: CandleType|
                    self.candles(other, candle_type) == whole.candles(other, candle_type)
            } by {
                if whole.has(other) {
                    // The last instrument has moved into the hole; the others stand
                    // where they stood.
                    let at = whole.slot(other);
                    let moved = if at == last {
                        hole
                    } else {
                        at
                    };
                    assert(self.instruments@[moved] == whole.instruments@[at]);
                }
            }
            assert forall|i: int| 0 <= i < self.instruments@.len() implies {
                &&& (#[trigger] self.instruments@[i]).wf()
                &&& self.instruments@[i].spec_instrument_id() != instrument
            } by {}
            assert forall|i: int, j: int| 0 <= i < j < self.instruments@.len() implies {
                self.instruments@[i].spec_instrument_id() != self.instruments@[j].spec_instrument_id()
            } by {}
        }
    }

    /// What a side holds once the caches of an instrument that `rest` does not hold have
    /// been added to `rest`.
    proof fn lemma_with(self, rest: CandleSide, cache: CandleTypesCache)
        requires
            rest.wf(),
            cache.wf(),
            !rest.has(cache.spec_instrument_id()),
            self.instruments@ == rest.instruments@.push(cache),
        ensures
            self.wf(),
            self.has(cache.spec_instrument_id()),
            forall|candle_type: CandleType|
                self.candles(cache.spec_instrument_id(), candle_type) == cache.candles(candle_type),
            forall|other: Seq<char>|
                other != cache.spec_instrument_id() ==> (self.has(other) <==> rest.has(other)),
            forall|other: Seq<char>, candle_type: CandleType|
                other != cache.spec_instrument_id() ==> self.candles(other, candle_type)
                    == rest.candles(other, candle_type),
    {
        let last = rest.instruments@.len() as int;
        assert(self.instruments@[last] == cache);
        assert forall|i: int| 0 <= i < last implies self.instruments@[i] == rest.instruments@[i] by {}
        assert forall|i: int| 0 <= i < self.instruments@.len() implies (
        #[trigger] self.instruments@[i]).wf() by {}
        assert forall|i: int, j: int| 0 <= i < j < self.instruments@.len() implies {
            self.instruments@[i].spec_instrument_id() != self.instruments@[j].spec_instrument_id()
        } by {}
        assert forall|other: Seq<char>| other != cache.spec_instrument_id() implies {
            &&& self.has(other) <==> rest.has(other)
            &&& forall|candle_type: CandleType|
                self.candles(other, candle_type) == rest.candles(other, candle_type)
        } by {}
    }
}

impl CandleBidAsksCache {
    /// Both sides are well formed.
    pub closed spec fn wf(self) -> bool {
        self.bid_candles.wf() && self.ask_candles.wf()
    }

    /// One side: the bid side for `true`, the ask side for `false`.
    pub closed spec fn side(self, is_bid: bool) -> CandleSide {
        if is_bid {
            self.bid_candles
        } else {
            self.ask_candles
        }
    }

    /// The candles of one side of an instrument at one resolution.
    pub open spec fn candles(self, is_bid: bool, instrument: Seq<char>, candle_type: CandleType) -> Seq<
        CandlePrice,
    > {
        self.side(is_bid).candles(instrument, candle_type)
    }

    /// A cache that has seen no tick.
    pub fn new() -> (cache: CandleBidAsksCache)
        ensures
            cache.wf(),
            cache.side(true).is_blank(),
            cache.side(false).is_blank(),
    {
        CandleBidAsksCache { bid_candles: CandleSide::new(), ask_candles: CandleSide::new() }
    }

    /// Applies a tick: the bid price and volume to the bid side, then the ask price and
    /// volume to the ask side.
    pub fn update(
        &mut self,
        datetime: i64,
        instrument: &str,
        bid: i64,
        ask: i64,
        bid_vol: i64,
        ask_vol: i64,
    )
        requires
            old(self).wf(),
            in_calendar(datetime as int),
        ensures
            final(self).wf(),
            final(self).side(true).is_after_tick(
                old(self).side(true),
                instrument@,
                bid,
                bid_vol,
                datetime,
            ),
            final(self).side(false).is_after_tick(
                old(self).side(false),
                instrument@,
                ask,
                ask_vol,
                datetime,
            ),
    {
        self.update_bid_or_ask(true, datetime, instrument, bid, ask, bid_vol, ask_vol);
        self.update_bid_or_ask(false, datetime, instrument, bid, ask, bid_vol, ask_vol);
    }

    /// Applies one half of a tick: the bid price and volume to the bid side, or the ask
    /// price and volume to the ask side.  The other side stays exactly as it was.
    pub fn update_bid_or_ask(
        &mut self,
        is_bid: bool,
        datetime: i64,
        instrument: &str,
        bid: i64,
        ask: i64,
        bid_vol: i64,
        ask_vol: i64,
    )
        requires
            old(self).wf(),
            in_calendar(datetime as int),
        ensures
            final(self).wf(),
            final(self).side(is_bid).is_after_tick(
                old(self).side(is_bid),
                instrument@,
                if is_bid {
                    bid
                } else {
                    ask
                },
                if is_bid {
                    bid_vol
                } else {
                    ask_vol
                },
                datetime,
            ),
            final(self).side(!is_bid) == old(self).side(!is_bid),
    {
        if is_bid {
            self.bid_candles.update(datetime, instrument, bid, bid_vol);
        } else {
            self.ask_candles.update(datetime, instrument, ask, ask_vol);
        }
    }

    /// Puts a finished candle into its bucket on one side of an instrument at one
    /// resolution.  The other side stays exactly as it was.
    pub fn init(
        &mut self,
        instument_id: String,
        is_bid: bool,
        candle_type: CandleType,
        candle: CandlePrice,
    )
        requires
            old(self).wf(),
        ensures
            final(self).wf(),
            final(self).side(is_bid).is_after_init(
                old(self).side(is_bid),
                instument_id@,
                candle_type,
                candle,
            ),
            final(self).side(!is_bid) == old(self).side(!is_bid),
    {
        if is_bid {
            self.bid_candles.init(instument_id, candle_type, candle);
        } else {
            self.ask_candles.init(instument_id, candle_type, candle);
        }
    }

    /// The candles of one side of an instrument at one resolution whose bucket starts at
    /// or after `date_from` and before `date_to`, in ascending order; none for an
    /// instrument that the side has not seen.
    pub fn get_by_date_range(
        &self,
        instument_id: String,
        candle_type: CandleType,
        is_bid: bool,
        date_from: i64,
        date_to: i64,
    ) -> (result: Vec<CandlePrice>)
        requires
            self.wf(),
        ensures
            result@ == entries_between(
                self.candles(is_bid, instument_id@, candle_type),
                date_from as int,
                date_to as int,
            ),
            ascending(self.candles(is_bid, instument_id@, candle_type)),
            ascending(result@),
    {
        if is_bid {
            self.bid_candles.get_by_date_range(instument_id.as_str(), candle_type, date_from, date_to)
        } else {
            self.ask_candles.get_by_date_range(instument_id.as_str(), candle_type, date_from, date_to)
        }
    }

    /// Forgets every instrument: first on the bid side, then on the ask side.
    pub fn clear(&mut self)
        ensures
            final(self).wf(),
            final(self).side(true).is_blank(),
            final(self).side(false).is_blank(),
    {
        self.bid_candles.clear();
        self.ask_candles.clear();
    }
}

/// A tick for one side, or a finished candle put on one side, changes nothing that
/// can be read from the other side: every span of candles of every instrument at
/// every resolution reads there as it did before.
pub proof fn lemma_side_independence(
    before: CandleBidAsksCache,
    after: CandleBidAsksCache,
    is_bid: bool,
    instrument: Seq<char>,
    candle_type: CandleType,
    date_from: int,
    date_to: int,
)
    requires
        after.side(!is_bid) == before.side(!is_bid),
    ensures
        entries_between(after.candles(!is_bid, instrument, candle_type), date_from, date_to)
            == entries_between(
            before.candles(!is_bid, instrument, candle_type),
            date_from,
            date_to,
        ),
{
}

} // verus!
