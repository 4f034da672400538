//! The open/high/low/close summary of one bucket, for one side of one instrument.
use crate::models::candle_type::CandleType;
use vstd::prelude::*;

verus! {

/// What one bucket has seen.  `datetime` is the start of the bucket and never changes;
/// `volume` is the volume of the latest tick, not a sum.
#[derive(Clone, Copy, Debug, PartialEq, Eq, Structural)]
pub struct CandlePrice {
    pub open: i64,
    pub close: i64,
    pub high: i64,
    pub low: i64,
    pub datetime: i64,
    pub volume: i64,
}

/// Greatest element of a sequence of prices that is not empty.
pub open spec fn max_price(prices: Seq<i64>) -> i64
    decreases prices.len(),
{
    if prices.len() <= 1 {
        prices[0]
    } else if max_price(prices.drop_last()) < prices.last() {
        prices.last()
    } else {
        max_price(prices.drop_last())
    }
}

/// Least element of a sequence of prices that is not empty.
pub open spec fn min_price(prices: Seq<i64>) -> i64
    decreases prices.len(),
{
    if prices.len() <= 1 {
        prices[0]
    } else if min_price(prices.drop_last()) > prices.last() {
        prices.last()
    } else {
        min_price(prices.drop_last())
    }
}

/// The candle that the first tick of `ticks` opens at `datetime` and to which the
/// others are applied in turn.  A tick is a price and a volume.
pub open spec fn candle_of(datetime: i64, ticks: Seq<(i64, i64)>) -> CandlePrice
    decreases ticks.len(),
{
    if ticks.len() <= 1 {
        CandlePrice::spec_new(datetime, ticks[0].0, ticks[0].1)
    } else {
        candle_of(datetime, ticks.drop_last()).spec_update(ticks.last().0, ticks.last().1)
    }
}

/// The prices of a run of ticks.
pub open spec fn prices_of(ticks: Seq<(i64, i64)>) -> Seq<i64> {
    ticks.map_values(|tick: (i64, i64)| tick.0)
}

impl CandlePrice {
    /// The candle of a bucket that has seen one tick.
    pub open spec fn spec_new(datetime: i64, price: i64, volume: i64) -> CandlePrice {
        CandlePrice { open: price, close: price, high: price, low: price, datetime, volume }
    }

    /// The candle after one more tick.  The tick closes the candle and replaces the
    /// volume; it raises `high` and lowers `low` where it lies beyond them.  An `open`,
    /// `high` or `low` of `0` counts as not set and takes the tick's price.
    pub open spec fn spec_update(self, price: i64, volume: i64) -> CandlePrice {
        CandlePrice {
            open: if self.open == 0 {
                price
            } else {
                self.open
            },
            close: price,
            high: if self.high < price || self.high == 0 {
                price
            } else {
                self.high
            },
            low: if self.low > price || self.low == 0 {
                price
            } else {
                self.low
            },
            datetime: self.datetime,
            volume,
        }
    }

    /// `low` and `high` enclose `open` and `close`.
    pub open spec fn is_ordered(self) -> bool {
        &&& self.low <= self.open <= self.high
        &&& self.low <= self.close <= self.high
    }

    /// A candle for the bucket that starts at `datetime`, opened by one tick.
    pub fn new(datetime: i64, price: i64, volume: i64) -> (candle: CandlePrice)
        ensures
            candle == CandlePrice::spec_new(datetime, price, volume),
            candle.is_ordered(),
    {
        CandlePrice { open: price, close: price, high: price, low: price, datetime, volume }
    }

    /// Applies a tick that arrived at `datetime`.  The instant of the tick is not kept:
    /// the candle stays in its bucket.
    pub fn update(&mut self, datetime: i64, price: i64, volume: i64)
        ensures
            *final(self) == old(self).spec_update(price, volume),
            final(self).datetime == old(self).datetime,
            old(self).is_ordered() && old(self).open != 0 && old(self).high != 0 && old(self).low
                != 0 ==> final(self).is_ordered() && final(self).open == old(self).open,
    {
        self.close = price;
        self.volume = volume;
        if self.open == 0 {
            self.open = price;
        }
        if self.high < price || self.high == 0 {
            self.high = price;
        }
        if self.low > price || self.low == 0 {
            self.low = price;
        }
    }

    /// Start of the bucket of the given resolution in which the candle's own start lies.
    pub fn get_candle_date(&self, candle_type: CandleType) -> (start: i64)
        requires
            candle_type.supports(self.datetime as int),
        ensures
            start == candle_type.spec_start_date(self.datetime as int),
    {
        candle_type.get_start_date(self.datetime)
    }
}

/// The greatest price is one of the prices and none exceeds it; likewise the least.
pub proof fn lemma_extremes(prices: Seq<i64>)
    requires
        prices.len() >= 1,
    ensures
        prices.contains(max_price(prices)),
        prices.contains(min_price(prices)),
        forall|i: int|
            0 <= i < prices.len() ==> min_price(prices) <= #[trigger] prices[i] <= max_price(
                prices,
            ),
    decreases prices.len(),
{
    if prices.len() > 1 {
        let front = prices.drop_last();
        lemma_extremes(front);
        assert forall|i: int| 0 <= i < prices.len() implies min_price(prices)
            <= #[trigger] prices[i] <= max_price(prices) by {
            if i < front.len() {
                assert(front[i] == prices[i]);
            }
        }
    }
}

/// A candle opened by the first of a run of ticks and fed the others in order opens
/// at the first price, closes at the last, and has the greatest price as `high` and
/// the least as `low`; it carries the last volume and stays in its bucket.
///
/// A price of `0` reads as "not set", so the statement leaves out the runs on which
/// that reading interferes: a first price of `0` followed by another price, and a
/// greatest or least price of `0` followed by a last price that is not `0`.
pub proof fn lemma_monotonic_aggregation(datetime: i64, ticks: Seq<(i64, i64)>)
    requires
        ticks.len() >= 1,
        ticks[0].0 != 0 || forall|i: int| 0 <= i < ticks.len() ==> (#[trigger] ticks[i]).0 == 0,
        max_price(prices_of(ticks)) != 0 || ticks.last().0 == 0,
        min_price(prices_of(ticks)) != 0 || ticks.last().0 == 0,
    ensures
        candle_of(datetime, ticks).open == ticks[0].0,
        candle_of(datetime, ticks).close == ticks.last().0,
        candle_of(datetime, ticks).high == max_price(prices_of(ticks)),
        candle_of(datetime, ticks).low == min_price(prices_of(ticks)),
        candle_of(datetime, ticks).volume == ticks.last().1,
        candle_of(datetime, ticks).datetime == datetime,
        candle_of(datetime, ticks).is_ordered(),
{
    lemma_candle_of(datetime, ticks);
    lemma_extremes(prices_of(ticks));
    assert(prices_of(ticks)[0] == ticks[0].0);
}

/// On each run that `lemma_monotonic_aggregation` leaves out, the candle does differ
/// from the first, the greatest or the least price: a first price of `0` gives way
/// to the first price that is not `0`, and a greatest or least price of `0` gives way
/// to the prices that come after it.
pub proof fn lemma_zero_reads_as_unset(datetime: i64, ticks: Seq<(i64, i64)>)
    requires
        ticks.len() >= 1,
    ensures
        ticks[0].0 == 0 && !(forall|i: int| 0 <= i < ticks.len() ==> (#[trigger] ticks[i]).0 == 0)
            ==> candle_of(datetime, ticks).open != ticks[0].0,
        max_price(prices_of(ticks)) == 0 && ticks.last().0 != 0 ==> candle_of(datetime, ticks).high
            < max_price(prices_of(ticks)),
        min_price(prices_of(ticks)) == 0 && ticks.last().0 != 0 ==> candle_of(datetime, ticks).low
            > min_price(prices_of(ticks)),
{
    lemma_candle_of(datetime, ticks);
    lemma_extremes(prices_of(ticks));
}

/// What the candle of a run of ticks holds, zero prices or not.
proof fn lemma_candle_of(datetime: i64, ticks: Seq<(i64, i64)>)
    requires
        ticks.len() >= 1,
    ensures
        ({
            let candle = candle_of(datetime, ticks);
            let prices = prices_of(ticks);
            let all_zero = forall|i: int| 0 <= i < ticks.len() ==> (#[trigger] ticks[i]).0 == 0;
            &&& candle.close == ticks.last().0
            &&& candle.volume == ticks.last().1
            &&& candle.datetime == datetime
            &&& ticks[0].0 != 0 ==> candle.open == ticks[0].0
            &&& ticks[0].0 == 0 ==> (all_zero <==> candle.open == 0)
            &&& if max_price(prices) == 0 && ticks.last().0 < 0 {
                candle.high < 0
            } else {
                candle.high == max_price(prices)
            }
            &&& if min_price(prices) == 0 && ticks.last().0 > 0 {
                candle.low > 0
            } else {
                candle.low == min_price(prices)
            }
        }),
    decreases ticks.len(),
{
    let prices = prices_of(ticks);
    if ticks.len() > 1 {
        let front = ticks.drop_last();
        lemma_candle_of(datetime, front);
        assert(prices_of(front) =~= prices.drop_last());
        let front_zero = forall|i: int| 0 <= i < front.len() ==> (#[trigger] front[i]).0 == 0;
        if front_zero && ticks.last().0 == 0 {
            assert forall|i: int| 0 <= i < ticks.len() implies (#[trigger] ticks[i]).0 == 0 by {
                if i < front.len() {
                    assert(front[i] == ticks[i]);
                }
            }
        }
    }
}

} // verus!
