//! Candles with both sides in one record, kept under their identifiers.
//!
//! The records live in an `ahash::AHashMap`.  What the map does is taken on trust, one
//! statement per method, in the first part of this file; the cache itself is proved
//! against those statements.
use crate::models::calendar::in_calendar;
use crate::models::candle::{candle_id, BidAskCandle, CandleRecord};
use crate::models::candle_price::CandlePrice;
use crate::models::candle_type::{lemma_floor, CandleType};
use ahash::{AHashMap, RandomState};
use std::collections::BTreeMap;
use vstd::prelude::*;

verus! {

/// `ahash::RandomState`, the hasher with which an `AHashMap` is made.
#[verifier::external_type_specification]
#[verifier::external_body]
pub struct ExRandomState(RandomState);

/// `ahash::AHashMap`.
#[verifier::external_type_specification]
#[verifier::external_body]
#[verifier::reject_recursive_types(K)]
#[verifier::reject_recursive_types(V)]
#[verifier::reject_recursive_types(S)]
pub struct ExAHashMap<K, V, S>(AHashMap<K, V, S>);

/// What a map of candles holds: the record kept under each identifier.
pub uninterp spec fn candles_of(map: AHashMap<String, BidAskCandle>) -> Map<Seq<char>, CandleRecord>;

/// There are no records.
pub open spec fn holds_nothing(candles: Map<Seq<char>, CandleRecord>) -> bool {
    candles == Map::<Seq<char>, CandleRecord>::empty()
}

/// The records are finitely many, and `count` of them.
pub open spec fn holds_count(candles: Map<Seq<char>, CandleRecord>, count: int) -> bool {
    candles.dom().finite() && candles.dom().len() == count
}

/// The candles are the records of `held`, each once, in some order.
pub open spec fn lists_once(candles: Seq<&BidAskCandle>, held: Map<Seq<char>, CandleRecord>) -> bool {
    exists|ids: Seq<Seq<char>>| lists_under(candles, held, ids)
}

/// The candles are the records of `held`, each once, in the order of their
/// identifiers in `ids`.
pub open spec fn lists_under(
    candles: Seq<&BidAskCandle>,
    held: Map<Seq<char>, CandleRecord>,
    ids: Seq<Seq<char>>,
) -> bool {
    &&& ids.no_duplicates()
    &&& ids.len() == candles.len()
    &&& forall|id: Seq<char>| ids.contains(id) <==> held.contains_key(id)
    &&& forall|i: int| 0 <= i < ids.len() ==> (#[trigger] candles[i])@ == held[ids[i]]
}

/// The record starts on the wanted side of the instant that `dates` gives for its
/// resolution: after it where `later` is set, before it otherwise.
pub open spec fn is_beyond_dates(record: CandleRecord, dates: Seq<i64>, later: bool) -> bool {
    if later {
        record.datetime > dates[record.candle_type.spec_code()]
    } else {
        record.datetime < dates[record.candle_type.spec_code()]
    }
}

/// The records that start on the wanted side of the instant that `dates` gives for
/// their resolution.
pub open spec fn beyond_dates(
    candles: Map<Seq<char>, CandleRecord>,
    dates: Seq<i64>,
    later: bool,
) -> Map<Seq<char>, CandleRecord> {
    candles.restrict(Set::new(|id: Seq<char>| is_beyond_dates(candles[id], dates, later)))
}

/// `AHashMap::new`.
///
/// Trusted: a new map holds nothing.
#[verifier::external_body]
fn map_new() -> (blank: AHashMap<String, BidAskCandle>)
    ensures
        holds_nothing(candles_of(blank)),
{
    AHashMap::new()
}

/// `HashMap::len`, reached through the map's `Deref`.
///
/// Trusted: the map holds finitely many records, and the answer is their number.
#[verifier::external_body]
fn map_len(map: &AHashMap<String, BidAskCandle>) -> (count: usize)
    ensures
        holds_count(candles_of(*map), count as int),
{
    map.len()
}

/// `HashMap::contains_key`, reached through the map's `Deref`.
///
/// Trusted: the answer tells whether a record is kept under the identifier.
#[verifier::external_body]
fn map_contains(map: &AHashMap<String, BidAskCandle>, id: &str) -> (found: bool)
    ensures
        found == candles_of(*map).contains_key(id@),
{
    map.contains_key(id)
}

/// `AHashMap::get`.
///
/// Trusted: the answer is the candle kept under the identifier, if there is one.
#[verifier::external_body]
fn map_get<'a>(map: &'a AHashMap<String, BidAskCandle>, id: &str) -> (found: Option<&'a BidAskCandle>)
    ensures
        match found {
            Some(candle) => candles_of(*map).contains_key(id@) && candles_of(*map)[id@] == candle@,
            None => !candles_of(*map).contains_key(id@),
        },
{
    map.get(id)
}

/// `AHashMap::insert`.
///
/// Trusted: afterwards the candle is kept under the identifier, in place of any candle
/// kept there before, and nothing else has changed.
#[verifier::external_body]
fn map_insert(map: &mut AHashMap<String, BidAskCandle>, id: String, candle: BidAskCandle)
    ensures
        candles_of(*final(map)) == candles_of(*old(map)).insert(id@, candle@),
{
    map.insert(id, candle);
}

/// `AHashMap::get_mut`.
///
/// Trusted: the answer is the candle kept under the identifier, if there is one; what
/// the caller makes of that candle is what the map keeps there afterwards, and
/// nothing else changes.
#[verifier::external_body]
fn map_get_mut<'a>(map: &'a mut AHashMap<String, BidAskCandle>, id: &str) -> (found: Option<
    &'a mut BidAskCandle,
>)
    ensures
        match found {
            Some(candle) => {
                &&& candles_of(*old(map)).contains_key(id@)
                &&& candles_of(*old(map))[id@] == candle@
                &&& candles_of(*final(map)) == candles_of(*old(map)).insert(id@, final(candle)@)
            },
            None => !candles_of(*old(map)).contains_key(id@) && candles_of(*final(map))
                == candles_of(*old(map)),
        },
{
    map.get_mut(id)
}

/// `HashMap::retain`, reached through the map's `DerefMut`, with `is_beyond` as the
/// test.
///
/// Trusted: afterwards the map holds the records that passed the test, as they were,
/// and no others.
#[verifier::external_body]
fn map_retain_beyond(map: &mut AHashMap<String, BidAskCandle>, dates: &Vec<i64>, later: bool)
    requires
        dates@.len() == 4,
    ensures
        candles_of(*final(map)) == beyond_dates(candles_of(*old(map)), dates@, later),
{
    map.retain(|_id, candle| is_beyond(candle, dates, later));
}

/// `HashMap::values`, reached through the map's `Deref`, gathered into a vector.
///
/// Trusted: the vector holds every candle of the map once.  The order is the map's
/// own and nothing is said of it.
#[verifier::external_body]
fn map_candles<'a>(map: &'a AHashMap<String, BidAskCandle>) -> (candles: Vec<&'a BidAskCandle>)
    ensures
        lists_once(candles@, candles_of(*map)),
{
    map.values().collect()
}

/// The candle starts on the wanted side of the instant that `dates` gives for its
/// resolution: after it where `later` is set, before it otherwise.
fn is_beyond(candle: &BidAskCandle, dates: &Vec<i64>, later: bool) -> (beyond: bool)
    requires
        dates@.len() == 4,
    ensures
        beyond == is_beyond_dates(candle@, dates@, later),
{
    let date = dates[candle.candle_type.code() as usize];
    if later {
        candle.datetime > date
    } else {
        candle.datetime < date
    }
}

/// The candle starts at or after the instant that `dates` gives for its resolution.
fn is_recent(candle: &BidAskCandle, dates: &Vec<i64>) -> (recent: bool)
    requires
        dates@.len() == 4,
    ensures
        recent == (candle@.datetime >= dates@[candle@.candle_type.spec_code()]),
{
    candle.datetime >= dates[candle.candle_type.code() as usize]
}

/// The cache: records under their identifiers, and the resolutions at which ticks are
/// recorded.
pub struct CandlesCache {
    candles_by_ids: AHashMap<String, BidAskCandle>,
    candle_types: Vec<CandleType>,
}

/// `types` without the elements that repeat the element before them.
pub open spec fn without_repeats(types: Seq<CandleType>) -> Seq<CandleType>
    decreases types.len(),
{
    if types.len() <= 1 {
        types
    } else if types.last() == types[types.len() - 2] {
        without_repeats(types.drop_last())
    } else {
        without_repeats(types.drop_last()).push(types.last())
    }
}

/// The record of the bucket of `datetime` at one resolution after a tick: the record
/// held so far with the tick applied, or a new record opened by the tick.
pub open spec fn ticked_record(
    candles: Map<Seq<char>, CandleRecord>,
    candle_type: CandleType,
    datetime: i64,
    instrument: Seq<char>,
    bid: i64,
    ask: i64,
    bid_vol: i64,
    ask_vol: i64,
) -> CandleRecord {
    let id = candle_id(instrument, candle_type, datetime as int);
    if candles.contains_key(id) {
        candles[id].spec_update(bid, ask, bid_vol, ask_vol)
    } else {
        CandleRecord::spec_new(
            instrument,
            candle_type,
            candle_type.spec_start_date(datetime as int) as i64,
            bid,
            ask,
            bid_vol,
            ask_vol,
        )
    }
}

/// The records after a tick has been recorded at each of `types` in turn.
pub open spec fn ticked_records(
    candles: Map<Seq<char>, CandleRecord>,
    types: Seq<CandleType>,
    datetime: i64,
    instrument: Seq<char>,
    bid: i64,
    ask: i64,
    bid_vol: i64,
    ask_vol: i64,
) -> Map<Seq<char>, CandleRecord>
    decreases types.len(),
{
    if types.len() == 0 {
        candles
    } else {
        let before = ticked_records(
            candles,
            types.drop_last(),
            datetime,
            instrument,
            bid,
            ask,
            bid_vol,
            ask_vol,
        );
        before.insert(
            candle_id(instrument, types.last(), datetime as int),
            ticked_record(before, types.last(), datetime, instrument, bid, ask, bid_vol, ask_vol),
        )
    }
}

/// The record starts after the bucket of `cutoff` at its own resolution.
pub open spec fn starts_after(record: CandleRecord, cutoff: int) -> bool {
    record.datetime > record.candle_type.spec_start_date(cutoff)
}

/// The record starts with the bucket of `cutoff` at its own resolution, or after it.
pub open spec fn starts_from(record: CandleRecord, cutoff: int) -> bool {
    record.datetime >= record.candle_type.spec_start_date(cutoff)
}

/// The record starts before the bucket of `cutoff` at its own resolution.
pub open spec fn starts_before(record: CandleRecord, cutoff: int) -> bool {
    record.datetime < record.candle_type.spec_start_date(cutoff)
}

/// The records that start before the bucket of `cutoff`.
pub open spec fn records_before(candles: Map<Seq<char>, CandleRecord>, cutoff: int) -> Map<
    Seq<char>,
    CandleRecord,
> {
    candles.restrict(Set::new(|id: Seq<char>| starts_before(candles[id], cutoff)))
}

/// The records that start after the bucket of `cutoff`.
pub open spec fn records_after(candles: Map<Seq<char>, CandleRecord>, cutoff: int) -> Map<
    Seq<char>,
    CandleRecord,
> {
    candles.restrict(Set::new(|id: Seq<char>| starts_after(candles[id], cutoff)))
}

/// The records that start with the bucket of `cutoff` or after it.
pub open spec fn records_from(candles: Map<Seq<char>, CandleRecord>, cutoff: int) -> Map<
    Seq<char>,
    CandleRecord,
> {
    candles.restrict(Set::new(|id: Seq<char>| starts_from(candles[id], cutoff)))
}

/// Every record is kept under its own identifier.
pub open spec fn keyed(candles: Map<Seq<char>, CandleRecord>) -> bool {
    forall|id: Seq<char>| candles.contains_key(id) ==> (#[trigger] candles[id]).spec_id() == id
}

/// A count of records as an `i32`: nothing above `i32::MAX`.
pub open spec fn clamp_removed(count: int) -> int {
    if count > i32::MAX {
        i32::MAX as int
    } else {
        count
    }
}

/// After the records up to a cutoff have been dropped, every record left starts after
/// the bucket of the cutoff at its own resolution, and every record that started
/// after it is still kept, under its identifier and as it was.  A minute, hour or day
/// record that starts after the cutoff itself is among those kept; `remove_before`
/// states the same of months.  Asking the rest for the records from the cutoff on
/// gives all of it.
pub proof fn lemma_eviction(candles: Map<Seq<char>, CandleRecord>, cutoff: int)
    ensures
        forall|id: Seq<char>| #[trigger]
            records_after(candles, cutoff).contains_key(id) ==> starts_after(
                records_after(candles, cutoff)[id],
                cutoff,
            ),
        forall|id: Seq<char>|
            candles.contains_key(id) && starts_after(#[trigger] candles[id], cutoff)
                ==> records_after(candles, cutoff).contains_key(id) && records_after(
                candles,
                cutoff,
            )[id] == candles[id],
        forall|id: Seq<char>|
            candles.contains_key(id) && !starts_after(#[trigger] candles[id], cutoff)
                ==> !records_after(candles, cutoff).contains_key(id),
        forall|id: Seq<char>|
            candles.contains_key(id) && !((#[trigger] candles[id]).candle_type is Month)
                && candles[id].datetime > cutoff ==> records_after(candles, cutoff).contains_key(
                id,
            ),
        records_from(records_after(candles, cutoff), cutoff) == records_after(candles, cutoff),
{
    assert forall|id: Seq<char>|
        candles.contains_key(id) && !((#[trigger] candles[id]).candle_type is Month)
            && candles[id].datetime > cutoff implies records_after(candles, cutoff).contains_key(
        id,
    ) by {
        lemma_floor(cutoff, candles[id].candle_type.fixed_step());
    }
}

impl View for CandlesCache {
    type V = Map<Seq<char>, CandleRecord>;

    /// The record kept under each identifier.
    closed spec fn view(&self) -> Map<Seq<char>, CandleRecord> {
        candles_of(self.candles_by_ids)
    }
}

impl CandlesCache {
    /// The resolutions at which ticks are recorded, in the order in which a tick
    /// reaches them.
    pub closed spec fn spec_candle_types(self) -> Seq<CandleType> {
        self.candle_types@
    }

    /// The resolutions at which ticks are recorded.
    pub fn candle_types(&self) -> (candle_types: &Vec<CandleType>)
        ensures
            candle_types@ == self.spec_candle_types(),
    {
        &self.candle_types
    }

    /// An empty cache that records ticks at the given resolutions.  A resolution that
    /// repeats the one before it is dropped.
    pub fn new(candle_types: Vec<CandleType>) -> (cache: CandlesCache)
        ensures
            cache@ == Map::<Seq<char>, CandleRecord>::empty(),
            cache.spec_candle_types() == without_repeats(candle_types@),
    {
        let mut kept: Vec<CandleType> = Vec::new();
        let mut index: usize = 0;
        while index < candle_types.len()
            invariant
                index <= candle_types@.len(),
                kept@ == without_repeats(candle_types@.take(index as int)),
            decreases candle_types@.len() - index,
        {
            let ghost before = candle_types@.take(index as int);
            let ghost after = candle_types@.take(index + 1);
            assert(after.drop_last() =~= before);
            if index == 0 || candle_types[index] != candle_types[index - 1] {
                kept.push(candle_types[index]);
            }
            index += 1;
        }
        assert(candle_types@.take(index as int) =~= candle_types@);
        CandlesCache { candles_by_ids: map_new(), candle_types: kept }
    }

    /// The map in which the records are kept.
    pub fn get_all(&self) -> (map: &AHashMap<String, BidAskCandle>)
        ensures
            candles_of(*map) == self@,
    {
        &self.candles_by_ids
    }

    /// Number of records.
    pub fn len(&self) -> (count: usize)
        ensures
            holds_count(self@, count as int),
    {
        map_len(&self.candles_by_ids)
    }

    /// Whether a record is kept under the identifier.
    pub fn contains(&self, candle_id: &str) -> (found: bool)
        ensures
            found == self@.contains_key(candle_id@),
    {
        map_contains(&self.candles_by_ids, candle_id)
    }

    /// Keeps a candle under its own identifier, in place of any candle kept there.
    pub fn insert(&mut self, candle: BidAskCandle)
        requires
            candle.candle_type.supports(candle.datetime as int),
        ensures
            final(self)@ == old(self)@.insert(candle@.spec_id(), candle@),
            final(self).spec_candle_types() == old(self).spec_candle_types(),
            keyed(old(self)@) ==> keyed(final(self)@),
    {
        let id = candle.get_id();
        map_insert(&mut self.candles_by_ids, id, candle);
    }

    /// Records a tick at every resolution of the cache.  At each resolution the bucket
    /// of `datetime` takes the bid and the ask together: its record is updated, or
    /// opened if this is the bucket's first tick.
    pub fn create_or_update(
        &mut self,
        datetime: i64,
        instrument: &str,
        bid: i64,
        ask: i64,
        bid_vol: i64,
        ask_vol: i64,
    )
        requires
            in_calendar(datetime as int),
        ensures
            final(self)@ == ticked_records(
                old(self)@,
                old(self).spec_candle_types(),
                datetime,
                instrument@,
                bid,
                ask,
                bid_vol,
                ask_vol,
            ),
            final(self).spec_candle_types() == old(self).spec_candle_types(),
            keyed(old(self)@) ==> keyed(final(self)@),
    {
        let mut index: usize = 0;
        while index < self.candle_types.len()
            invariant
                index <= self.candle_types@.len(),
                self.candle_types == old(self).candle_types,
                in_calendar(datetime as int),
                keyed(old(self)@) ==> keyed(self@),
                self@ == ticked_records(
                    old(self)@,
                    self.candle_types@.take(index as int),
                    datetime,
                    instrument@,
                    bid,
                    ask,
                    bid_vol,
                    ask_vol,
                ),
            decreases self.candle_types@.len() - index,
        {
            let ghost done = self.candle_types@.take(index as int);
            let ghost next = self.candle_types@.take(index + 1);
            assert(next.drop_last() =~= done);
            let candle_type = self.candle_types[index];
            let candle_datetime = candle_type.get_start_date(datetime);
            let id = BidAskCandle::generate_id(instrument, &candle_type, candle_datetime);
            match map_get_mut(&mut self.candles_by_ids, id.as_str()) {
                Some(candle) => {
                    candle.update(datetime, bid, ask, bid_vol, ask_vol);
                },
                None => {
                    map_insert(
                        &mut self.candles_by_ids,
                        id,
                        BidAskCandle {
                            ask_data: CandlePrice::new(candle_datetime, ask, ask_vol),
                            bid_data: CandlePrice::new(candle_datetime, bid, bid_vol),
                            candle_type,
                            instrument: instrument.to_owned(),
                            datetime: candle_datetime,
                        },
                    );
                },
            }
            index += 1;
        }
        assert(self.candle_types@.take(index as int) =~= self.candle_types@);
    }

    /// The four instants with which the start of a record is compared: the start of
    /// the bucket of `datetime` at each resolution, at the place of the resolution's
    /// code.
    fn calculate_candle_dates(datetime: i64) -> (dates: Vec<i64>)
        requires
            in_calendar(datetime as int),
        ensures
            dates@.len() == 4,
            forall|candle_type: CandleType| #[trigger]
                dates@[candle_type.spec_code()] == candle_type.spec_start_date(datetime as int),
            forall|candle_type: CandleType| #[trigger]
                candle_type.spec_start_date(datetime as int) <= datetime,
    {
        let mut dates: Vec<i64> = Vec::new();
        dates.push(CandleType::Minute.get_start_date(datetime));
        dates.push(CandleType::Hour.get_start_date(datetime));
        dates.push(CandleType::Day.get_start_date(datetime));
        dates.push(CandleType::Month.get_start_date(datetime));
        dates
    }

    /// The candles that start with the bucket of `datetime`, each at its own
    /// resolution, or after it: every such candle once, in no particular order.  An
    /// empty cache gives `None`, which is not the same as no candle being late enough.
    pub fn get_after(&self, datetime: i64) -> (found: Option<Vec<&BidAskCandle>>)
        requires
            in_calendar(datetime as int),
        ensures
            found is None <==> self@.dom().len() == 0,
            self@.dom().finite(),
            found matches Some(candles) ==> lists_once(
                candles@,
                records_from(self@, datetime as int),
            ),
    {
        if map_len(&self.candles_by_ids) == 0 {
            return None;
        }
        let candle_dates = CandlesCache::calculate_candle_dates(datetime);
        let all = map_candles(&self.candles_by_ids);
        let ghost held = self@;
        let ghost wanted = records_from(held, datetime as int);
        let ghost ids = choose|ids: Seq<Seq<char>>| lists_under(all@, held, ids);
        let ghost mut kept_ids = Seq::<Seq<char>>::empty();
        let mut candles: Vec<&BidAskCandle> = Vec::new();
        let mut index: usize = 0;
        while index < all.len()
            invariant
                index <= all@.len(),
                candle_dates@.len() == 4,
                forall|candle_type: CandleType| #[trigger]
                    candle_dates@[candle_type.spec_code()] == candle_type.spec_start_date(
                        datetime as int,
                    ),
                lists_under(all@, held, ids),
                wanted == records_from(held, datetime as int),
                kept_ids.no_duplicates(),
                kept_ids.len() == candles@.len(),
                forall|i: int| 0 <= i < kept_ids.len() ==> (#[trigger] candles@[i])@ == wanted[kept_ids[i]],
                forall|i: int|
                    0 <= i < kept_ids.len() ==> wanted.contains_key(#[trigger] kept_ids[i]) && exists|
                        p: int,
                    |
                        0 <= p < index && ids[p] == kept_ids[i],
                forall|p: int|
                    0 <= p < index && wanted.contains_key(#[trigger] ids[p]) ==> kept_ids.contains(
                        ids[p],
                    ),
            decreases all@.len() - index,
        {
            let candle = all[index];
            let ghost id = ids[index as int];
            assert(ids.contains(id));
            if is_recent(candle, &candle_dates) {
                let ghost before = kept_ids;
                candles.push(candle);
                proof {
                    kept_ids = kept_ids.push(id);
                    assert forall|p: int|
                        0 <= p < index + 1 && wanted.contains_key(
                            #[trigger] ids[p],
                        ) implies kept_ids.contains(ids[p]) by {
                        if p < index {
                            let i = choose|i: int| 0 <= i < before.len() && before[i] == ids[p];
                            assert(kept_ids[i] == ids[p]);
                        } else {
                            assert(kept_ids[kept_ids.len() - 1] == ids[p]);
                        }
                    }
                }
            }
            index += 1;
        }
        proof {
            assert forall|id: Seq<char>| kept_ids.contains(id) <==> wanted.contains_key(id) by {
                if wanted.contains_key(id) {
                    assert(ids.contains(id));
                }
            }
            assert(lists_under(candles@, wanted, kept_ids));
        }
        Some(candles)
    }

    /// The candles that `get_after` gives, under the start of their bucket.  Where
    /// several candles start at one instant, one of them stands for that instant.  An
    /// empty cache gives `None`.
    pub fn get_sorted_after(&self, datetime: i64) -> (found: Option<BTreeMap<i64, &BidAskCandle>>)
        requires
            in_calendar(datetime as int),
        ensures
            found is None <==> self@.dom().len() == 0,
            self@.dom().finite(),
            found matches Some(sorted) ==> {
                &&& forall|start: i64| #[trigger]
                    sorted@.contains_key(start) <==> exists|id: Seq<char>|
                        records_from(self@, datetime as int).contains_key(id) && (
                        #[trigger] records_from(self@, datetime as int)[id]).datetime == start
                &&& forall|start: i64| #[trigger]
                    sorted@.contains_key(start) ==> exists|id: Seq<char>|
                        records_from(self@, datetime as int).contains_key(id) && (
                        #[trigger] records_from(self@, datetime as int)[id]) == sorted@[start]@
                            && sorted@[start]@.datetime == start
            },
    {
        let candles = match self.get_after(datetime) {
            Some(candles) => candles,
            None => {
                return None;
            },
        };
        let ghost wanted = records_from(self@, datetime as int);
        let ghost ids = choose|ids: Seq<Seq<char>>| lists_under(candles@, wanted, ids);
        let mut sorted: BTreeMap<i64, &BidAskCandle> = BTreeMap::new();
        let mut index: usize = 0;
        while index < candles.len()
            invariant
                index <= candles@.len(),
                lists_under(candles@, wanted, ids),
                forall|start: i64| #[trigger]
                    sorted@.contains_key(start) <==> exists|p: int|
                        0 <= p < index && (#[trigger] candles@[p])@.datetime == start,
                forall|start: i64| #[trigger]
                    sorted@.contains_key(start) ==> exists|p: int|
                        0 <= p < index && (#[trigger] candles@[p])@ == sorted@[start]@
                            && sorted@[start]@.datetime == start,
            decreases candles@.len() - index,
        {
            let candle = candles[index];
            sorted.insert(candle.datetime, candle);
            index += 1;
        }
        proof {
            assert forall|start: i64| #[trigger]
                sorted@.contains_key(start) <==> exists|id: Seq<char>|
                    wanted.contains_key(id) && (#[trigger] wanted[id]).datetime == start by {
                if sorted@.contains_key(start) {
                    let p = choose|p: int|
                        0 <= p < index && (#[trigger] candles@[p])@.datetime == start;
                    assert(ids.contains(ids[p]));
                }
                if exists|id: Seq<char>|
                    wanted.contains_key(id) && (#[trigger] wanted[id]).datetime == start {
                    let id = choose|id: Seq<char>|
                        wanted.contains_key(id) && (#[trigger] wanted[id]).datetime == start;
                    assert(ids.contains(id));
                    let p = choose|p: int| 0 <= p < ids.len() && ids[p] == id;
                    assert(candles@[p]@.datetime == start);
                }
            }
            assert forall|start: i64| #[trigger] sorted@.contains_key(start) implies exists|
                id: Seq<char>,
            |
                wanted.contains_key(id) && (#[trigger] wanted[id]) == sorted@[start]@
                    && sorted@[start]@.datetime == start by {
                let p = choose|p: int|
                    0 <= p < index && (#[trigger] candles@[p])@ == sorted@[start]@
                        && sorted@[start]@.datetime == start;
                assert(ids.contains(ids[p]));
            }
        }
        Some(sorted)
    }

    /// Drops every record that starts with the bucket of `datetime`, at the record's
    /// own resolution, or before it, and gives the number of records dropped.  The
    /// records that start later stay as they are; among them is every record that
    /// starts after `datetime` itself, so a cache that holds no record up to
    /// `datetime` is left as it is.
    pub fn remove_before(&mut self, datetime: i64) -> (removed: i32)
        requires
            in_calendar(datetime as int),
        ensures
            final(self)@ == records_after(old(self)@, datetime as int),
            final(self).spec_candle_types() == old(self).spec_candle_types(),
            old(self)@.dom().finite() && final(self)@.dom().finite(),
            removed == clamp_removed(old(self)@.dom().len() - final(self)@.dom().len()),
            removed >= 0,
            keyed(old(self)@) ==> keyed(final(self)@),
            forall|id: Seq<char>|
                old(self)@.contains_key(id) && (#[trigger] old(self)@[id]).datetime > datetime
                    ==> final(self)@.contains_key(id) && final(self)@[id] == old(self)@[id],
            (forall|id: Seq<char>|
                old(self)@.contains_key(id) ==> (#[trigger] old(self)@[id]).datetime > datetime)
                ==> final(self)@ == old(self)@ && removed == 0,
    {
        let removed = self.retain_beyond(datetime, true);
        proof {
            assert(self@ =~= records_after(old(self)@, datetime as int));
            if forall|id: Seq<char>|
                old(self)@.contains_key(id) ==> (#[trigger] old(self)@[id]).datetime > datetime {
                assert(self@ =~= old(self)@);
            }
        }
        removed
    }

    /// Drops every record that starts with the bucket of `datetime`, at the record's
    /// own resolution, or after it, and gives the number of records dropped.  The
    /// records that start earlier stay as they are.
    pub fn remove_after(&mut self, datetime: i64) -> (removed: i32)
        requires
            in_calendar(datetime as int),
        ensures
            final(self)@ == records_before(old(self)@, datetime as int),
            final(self).spec_candle_types() == old(self).spec_candle_types(),
            old(self)@.dom().finite() && final(self)@.dom().finite(),
            removed == clamp_removed(old(self)@.dom().len() - final(self)@.dom().len()),
            removed >= 0,
            keyed(old(self)@) ==> keyed(final(self)@),
    {
        let removed = self.retain_beyond(datetime, false);
        removed
    }

    /// Keeps the records that start on one side of the bucket of `datetime`, each at
    /// its own resolution, and gives the number of records dropped.
    fn retain_beyond(&mut self, datetime: i64, later: bool) -> (removed: i32)
        requires
            in_calendar(datetime as int),
        ensures
            forall|id: Seq<char>| #[trigger]
                final(self)@.contains_key(id) <==> old(self)@.contains_key(id) && if later {
                    starts_after(old(self)@[id], datetime as int)
                } else {
                    starts_before(old(self)@[id], datetime as int)
                },
            forall|id: Seq<char>| #[trigger]
                final(self)@.contains_key(id) ==> final(self)@[id] == old(self)@[id],
            final(self).spec_candle_types() == old(self).spec_candle_types(),
            old(self)@.dom().finite() && final(self)@.dom().finite(),
            removed == clamp_removed(old(self)@.dom().len() - final(self)@.dom().len()),
            removed >= 0,
            forall|candle_type: CandleType| #[trigger]
                candle_type.spec_start_date(datetime as int) <= datetime,
    {
        let dates = CandlesCache::calculate_candle_dates(datetime);
        let before = map_len(&self.candles_by_ids);
        map_retain_beyond(&mut self.candles_by_ids, &dates, later);
        let after = map_len(&self.candles_by_ids);
        proof {
            vstd::set_lib::lemma_len_subset(self@.dom(), old(self)@.dom());
        }
        let removed_count = before - after;
        if removed_count > i32::MAX as usize {
            i32::MAX
        } else {
            removed_count as i32
        }
    }

    /// The candle kept under the identifier, if there is one.
    pub fn get(&self, id: &str) -> (found: Option<&BidAskCandle>)
        ensures
            match found {
                Some(candle) => self@.contains_key(id@) && self@[id@] == candle@,
                None => !self@.contains_key(id@),
            },
    {
        map_get(&self.candles_by_ids, id)
    }
}

} // verus!
