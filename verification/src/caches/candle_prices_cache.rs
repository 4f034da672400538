//! The candles of one side of one instrument at one resolution, ordered by bucket.
use crate::models::candle_price::CandlePrice;
use crate::models::candle_type::CandleType;
use vstd::prelude::*;

verus! {

/// Candles kept in ascending order of bucket start, one per bucket.  A bucket gets its
/// candle with its first tick and keeps it until the cache is cleared.
#[derive(Debug)]
pub struct CandlePricesCache {
    candle_type: CandleType,
    prices_by_date: Vec<CandlePrice>,
}

/// Every candle starts before the one that follows it.
pub open spec fn ascending(entries: Seq<CandlePrice>) -> bool {
    forall|i: int, j: int| 0 <= i < j < entries.len() ==> entries[i].datetime < entries[j].datetime
}

/// The candles whose bucket starts at or after `from` and before `to`, in the order in
/// which they stand.
pub open spec fn entries_between(entries: Seq<CandlePrice>, from: int, to: int) -> Seq<CandlePrice>
    decreases entries.len(),
{
    if entries.len() == 0 {
        Seq::empty()
    } else {
        let front = entries_between(entries.drop_last(), from, to);
        if from <= entries.last().datetime < to {
            front.push(entries.last())
        } else {
            front
        }
    }
}

/// The candle of the bucket that starts at `datetime`, if there is one.
pub open spec fn entry_at(entries: Seq<CandlePrice>, datetime: int) -> Option<CandlePrice> {
    if exists|i: int| 0 <= i < entries.len() && entries[i].datetime == datetime {
        Some(entries[choose|i: int| 0 <= i < entries.len() && entries[i].datetime == datetime])
    } else {
        None
    }
}

/// The candles with `candle` put in the place of its bucket: the candles of earlier
/// buckets, then `candle`, then the candles of later buckets.
pub open spec fn with_entry(entries: Seq<CandlePrice>, candle: CandlePrice) -> Seq<CandlePrice> {
    entries_between(entries, i64::MIN as int, candle.datetime as int).push(candle)
        + entries_between(entries, candle.datetime + 1, i64::MAX + 1)
}

/// The candle that a tick leaves in the bucket starting at `datetime`: the bucket's
/// candle with the tick applied, or a new candle opened by the tick.
pub open spec fn ticked(entries: Seq<CandlePrice>, datetime: i64, price: i64, volume: i64) -> CandlePrice {
    match entry_at(entries, datetime as int) {
        Some(candle) => candle.spec_update(price, volume),
        None => CandlePrice::spec_new(datetime, price, volume),
    }
}

/// Where the candles up to `low` start before `from`, those from `low` up to `high`
/// start within `from` and `to`, and the others at or after `to`, the candles between
/// `from` and `to` are those from `low` up to `high`.
proof fn lemma_between_is_slice(entries: Seq<CandlePrice>, from: int, to: int, low: int, high: int)
    requires
        0 <= low <= high <= entries.len(),
        forall|i: int| 0 <= i < low ==> (#[trigger] entries[i]).datetime < from,
        forall|i: int| low <= i < high ==> from <= (#[trigger] entries[i]).datetime < to,
        forall|i: int| high <= i < entries.len() ==> (#[trigger] entries[i]).datetime >= to,
    ensures
        entries_between(entries, from, to) == entries.subrange(low, high),
    decreases entries.len(),
{
    if entries.len() > 0 {
        let front = entries.drop_last();
        let last = entries.len() - 1;
        assert forall|i: int| 0 <= i < front.len() implies front[i] == entries[i] by {}
        if high <= last {
            lemma_between_is_slice(front, from, to, low, high);
        } else if low <= last {
            lemma_between_is_slice(front, from, to, low, last);
        } else {
            lemma_between_is_slice(front, from, to, last, last);
        }
    }
}

/// A span of buckets is half open: a candle that starts at `to` is never among the
/// candles between `from` and `to`, and one that starts at `from` always is, unless
/// the span is empty.  Every candle of the result lies in the span, and the result
/// keeps the order of the candles.
pub proof fn lemma_half_open(entries: Seq<CandlePrice>, from: int, to: int)
    ensures
        forall|i: int|
            0 <= i < entries_between(entries, from, to).len() ==> {
                &&& from <= (#[trigger] entries_between(entries, from, to)[i]).datetime < to
                &&& entries.contains(entries_between(entries, from, to)[i])
            },
        forall|i: int|
            0 <= i < entries.len() && from <= (#[trigger] entries[i]).datetime < to
                ==> entries_between(entries, from, to).contains(entries[i]),
        ascending(entries) ==> ascending(entries_between(entries, from, to)),
    decreases entries.len(),
{
    let found = entries_between(entries, from, to);
    if entries.len() > 0 {
        let front = entries.drop_last();
        let front_found = entries_between(front, from, to);
        lemma_half_open(front, from, to);
        let last = entries.len() - 1;
        assert forall|i: int| 0 <= i < front.len() implies front[i] == entries[i] by {}
        assert forall|i: int| 0 <= i < found.len() implies {
            &&& from <= (#[trigger] found[i]).datetime < to
            &&& entries.contains(found[i])
        } by {
            if i < front_found.len() {
                // The candle comes from the front, where it stands at some place `k`.
                let k = choose|k: int| 0 <= k < front.len() && front[k] == front_found[i];
                assert(entries[k] == found[i]);
            }
        }
        assert forall|i: int|
            0 <= i < entries.len() && from <= (#[trigger] entries[i]).datetime < to implies found.contains(
            entries[i],
        ) by {
            if i < last {
                let k = choose|k: int| 0 <= k < front_found.len() && front_found[k] == front[i];
                assert(found[k] == entries[i]);
            } else {
                assert(found[found.len() - 1] == entries[i]);
            }
        }
        if ascending(entries) {
            assert forall|i: int, j: int| 0 <= i < j < found.len() implies found[i].datetime
                < found[j].datetime by {}
        }
    }
}

impl View for CandlePricesCache {
    type V = Seq<CandlePrice>;

    /// The candles, in ascending order of bucket start.
    closed spec fn view(&self) -> Seq<CandlePrice> {
        self.prices_by_date@
    }
}

impl Clone for CandlePricesCache {
    /// A cache of the same resolution with the same candles.
    fn clone(&self) -> (copy: CandlePricesCache)
        ensures
            copy@ == self@,
            copy.spec_candle_type() == self.spec_candle_type(),
    {
        proof {
            use_type_invariant(self);
        }
        let prices_by_date = self.prices_by_date.clone();
        CandlePricesCache { candle_type: self.candle_type, prices_by_date }
    }
}

impl CandlePricesCache {
    #[verifier::type_invariant]
    spec fn ordered(self) -> bool {
        ascending(self.prices_by_date@)
    }

    /// The resolution of the candles.
    pub closed spec fn spec_candle_type(self) -> CandleType {
        self.candle_type
    }

    /// An empty cache for candles of one resolution.
    pub fn new(candle_type: CandleType) -> (cache: CandlePricesCache)
        ensures
            cache@ == Seq::<CandlePrice>::empty(),
            cache.spec_candle_type() == candle_type,
    {
        CandlePricesCache { candle_type, prices_by_date: Vec::new() }
    }

    /// The resolution of the candles.
    pub fn candle_type(&self) -> (candle_type: CandleType)
        ensures
            candle_type == self.spec_candle_type(),
    {
        self.candle_type
    }

    /// Number of candles that start before `datetime`.
    fn position(&self, datetime: i64) -> (position: usize)
        ensures
            position <= self@.len(),
            ascending(self@),
            forall|i: int| 0 <= i < position ==> (#[trigger] self@[i]).datetime < datetime,
            forall|i: int| position <= i < self@.len() ==> (#[trigger] self@[i]).datetime >= datetime,
    {
        proof {
            use_type_invariant(self);
        }
        let mut low: usize = 0;
        let mut high: usize = self.prices_by_date.len();
        while low < high
            invariant
                low <= high <= self.prices_by_date@.len(),
                ascending(self.prices_by_date@),
                forall|i: int| 0 <= i < low ==> (#[trigger] self.prices_by_date@[i]).datetime < datetime,
                forall|i: int|
                    high <= i < self.prices_by_date@.len() ==> (#[trigger] self.prices_by_date@[i]).datetime
                        >= datetime,
            decreases high - low,
        {
            let middle = low + (high - low) / 2;
            if self.prices_by_date[middle].datetime < datetime {
                low = middle + 1;
            } else {
                high = middle;
            }
        }
        low
    }

    /// Puts a finished candle into the bucket at which it starts, in place of any candle
    /// that the bucket held.
    pub fn init(&mut self, candle: CandlePrice)
        ensures
            final(self)@ == with_entry(old(self)@, candle),
            final(self).spec_candle_type() == old(self).spec_candle_type(),
            ascending(old(self)@),
            ascending(final(self)@),
    {
        let position = self.position(candle.datetime);
        let ghost before = self.prices_by_date@;
        let replace = position < self.prices_by_date.len() && self.prices_by_date[position].datetime
            == candle.datetime;
        proof {
            let after: int = if replace {
                position + 1
            } else {
                position as int
            };
            lemma_between_is_slice(before, i64::MIN as int, candle.datetime as int, 0, position as int);
            lemma_between_is_slice(before, candle.datetime + 1, i64::MAX + 1, after, before.len() as int);
        }
        let mut entries: Vec<CandlePrice> = Vec::new();
        std::mem::swap(&mut self.prices_by_date, &mut entries);
        if replace {
            entries.set(position, candle);
        } else {
            entries.insert(position, candle);
        }
        assert forall|i: int, j: int| 0 <= i < j < entries@.len() implies entries@[i].datetime
            < entries@[j].datetime by {}
        self.prices_by_date = entries;
    }

    /// Applies a tick to the bucket in which `datetime` falls, opening the bucket's
    /// candle if this is its first tick.
    pub fn update(&mut self, datetime: i64, price: i64, volume: i64)
        requires
            old(self).spec_candle_type().supports(datetime as int),
        ensures
            final(self)@ == with_entry(
                old(self)@,
                ticked(
                    old(self)@,
                    old(self).spec_candle_type().spec_start_date(datetime as int) as i64,
                    price,
                    volume,
                ),
            ),
            final(self).spec_candle_type() == old(self).spec_candle_type(),
            ascending(old(self)@),
            ascending(final(self)@),
    {
        let candle_date = self.candle_type.get_start_date(datetime);
        let position = self.position(candle_date);
        let candle = if position < self.prices_by_date.len() && self.prices_by_date[position].datetime
            == candle_date {
            let mut candle = self.prices_by_date[position];
            candle.update(datetime, price, volume);
            candle
        } else {
            CandlePrice::new(candle_date, price, volume)
        };
        assert(candle == ticked(self@, candle_date, price, volume));
        self.init(candle);
    }

    /// The candles whose bucket starts at or after `date_from` and before `date_to`, in
    /// ascending order.  No candle lies in a span that is empty or runs backwards.
    pub fn get_by_date_range(&self, date_from: i64, date_to: i64) -> (result: Vec<CandlePrice>)
        ensures
            result@ == entries_between(self@, date_from as int, date_to as int),
            ascending(self@),
            ascending(result@),
    {
        let low = self.position(date_from);
        let found = self.position(date_to);
        let high = if found < low {
            low
        } else {
            found
        };
        proof {
            lemma_between_is_slice(self@, date_from as int, date_to as int, low as int, high as int);
            lemma_half_open(self@, date_from as int, date_to as int);
        }
        let mut result: Vec<CandlePrice> = Vec::new();
        let mut index = low;
        while index < high
            invariant
                low <= index <= high <= self.prices_by_date@.len(),
                result@ == self.prices_by_date@.subrange(low as int, index as int),
            decreases high - index,
        {
            result.push(self.prices_by_date[index]);
            index += 1;
        }
        result
    }

    /// Number of candles held.
    pub fn len(&self) -> (count: usize)
        ensures
            count == self@.len(),
            ascending(self@),
    {
        proof {
            use_type_invariant(self);
        }
        self.prices_by_date.len()
    }

    /// Drops every candle.
    pub fn clear(&mut self)
        ensures
            final(self)@ == Seq::<CandlePrice>::empty(),
            final(self).spec_candle_type() == old(self).spec_candle_type(),
    {
        self.prices_by_date = Vec::new();
    }
}

} // verus!
