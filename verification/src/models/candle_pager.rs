//! A cursor over the candle identifiers of one instrument at one resolution.
//!
//! The pager walks forwards from `from_date` towards `to_date`, one bucket at a time,
//! and hands out at most `limit` identifiers.  After each identifier the cursor moves
//! on by the whole length of the bucket it stands in; the length is taken anew at every
//! step, since months differ.  Instants are epoch milliseconds here, because the
//! tokens that name a page are.
use crate::models::candle::{candle_id, BidAskCandle};
use crate::models::candle_type::{
    clamp_count, floor_to, lemma_floor, lemma_floor_keeps_order, CandleType,
};
use crate::models::decimal::{
    decimal_text, format_decimal, lemma_decimal_round_trip, parse_decimal, parse_i64,
};
use vstd::prelude::*;

verus! {

/// Earliest instant a pager works with, in milliseconds: the start of the calendar.
pub const PAGER_MIN: i64 = -8_334_601_228_800_000;

/// Latest end of a range, in milliseconds: the start of the last month of the
/// calendar, beyond which a month bucket has no successor.
pub const PAGER_MAX: i64 = 8_210_264_198_400_000;

/// Length of the longest bucket, a month of 31 days, in milliseconds.
pub const LONGEST_BUCKET: i64 = 2_678_400_000;

/// Why a pager could not be made or moved.
#[derive(Clone, Copy, Debug, PartialEq, Eq, Structural)]
pub enum PagerError {
    /// The range ends before it begins.
    InvalidRange,
    /// The token is not the decimal text of an instant a cursor can stand on.
    MalformedToken,
}

/// What a pager is, as plain values.
pub struct PagerState {
    pub instrument: Seq<char>,
    pub candle_type: CandleType,
    pub from_date: int,
    pub to_date: int,
    pub page_id: Option<int>,
    pub limit: nat,
    pub last_item_no: nat,
}

/// A pager over `from_date..to_date`.  `page_id`, while set, is a cursor that replaces
/// `from_date` when the next identifier is asked for.
#[derive(Debug)]
pub struct CandlePager {
    instrument: String,
    candle_type: CandleType,
    from_date: i64,
    to_date: i64,
    page_id: Option<i64>,
    limit: usize,
    last_item_no: usize,
}

/// An instant at which a range can begin or end.
pub open spec fn in_pager_range(millis: int) -> bool {
    PAGER_MIN <= millis <= PAGER_MAX
}

/// An instant on which a cursor can stand: within the range of ranges, or past its
/// end by no more than one bucket.
pub open spec fn is_cursor(millis: int) -> bool {
    PAGER_MIN <= millis <= PAGER_MAX + LONGEST_BUCKET
}

/// The instant that a token names, if it names one.
pub open spec fn token_instant(token: Seq<char>) -> Option<int> {
    match parse_decimal(token) {
        Some(millis) => if is_cursor(millis) {
            Some(millis)
        } else {
            None
        },
        None => None,
    }
}

/// The instant one bucket after `millis`: `millis` moved on by the length of the
/// bucket in which it lies.
pub open spec fn step_from(candle_type: CandleType, millis: int) -> int {
    millis + 1000 * candle_type.spec_duration(millis / 1000)
}

/// The identifiers met on the way from `cursor` to `to_date`, one per step, at most
/// `count` of them: the walk ends where the cursor reaches `to_date`.
pub open spec fn walk_ids(
    instrument: Seq<char>,
    candle_type: CandleType,
    cursor: int,
    to_date: int,
    count: nat,
) -> Seq<Seq<char>>
    decreases count,
{
    if count == 0 || cursor >= to_date {
        Seq::empty()
    } else {
        seq![candle_id(instrument, candle_type, cursor / 1000)] + walk_ids(
            instrument,
            candle_type,
            step_from(candle_type, cursor),
            to_date,
            (count - 1) as nat,
        )
    }
}

/// The instant `count` buckets after `cursor`, or nothing where a step would start
/// at or beyond the last instant that has a following bucket.
pub open spec fn skip_buckets(candle_type: CandleType, cursor: int, count: nat) -> Option<int>
    decreases count,
{
    if count == 0 {
        Some(cursor)
    } else if cursor >= PAGER_MAX {
        None
    } else {
        skip_buckets(candle_type, step_from(candle_type, cursor), (count - 1) as nat)
    }
}

/// The identifiers that `count` requests in a row hand out, starting in `state`.
pub open spec fn drained(state: PagerState, count: nat) -> Seq<Seq<char>>
    decreases count,
{
    if count == 0 {
        Seq::empty()
    } else {
        match state.spec_move().1 {
            Some(id) => seq![id] + drained(state.spec_move().0, (count - 1) as nat),
            None => Seq::empty(),
        }
    }
}

/// The texts of a run of strings.
pub open spec fn texts_of(strings: Seq<String>) -> Seq<Seq<char>> {
    strings.map_values(|text: String| text@)
}

impl PagerState {
    /// Where the next identifier is taken: the pending cursor, or else `from_date`.
    pub open spec fn cursor(self) -> int {
        match self.page_id {
            Some(millis) => millis,
            None => self.from_date,
        }
    }

    /// Buckets in the whole range, as `get_dates_count` counts them.  A range that
    /// begins where no bucket has a successor holds none.
    pub open spec fn total(self) -> int {
        if self.from_date >= PAGER_MAX {
            0
        } else {
            clamp_count(
                self.candle_type.spec_dates_count(self.from_date / 1000, self.to_date / 1000),
            )
        }
    }

    /// The state after a request for the next identifier, and the identifier.
    ///
    /// A pager that has handed out `limit` identifiers gives nothing and stays as it
    /// is.  Otherwise a pending cursor takes the place of `from_date`; if the cursor
    /// has reached `to_date` nothing is given; else the identifier of the cursor's
    /// bucket is given and the cursor moves on by one bucket.
    pub open spec fn spec_move(self) -> (PagerState, Option<Seq<char>>) {
        if self.last_item_no >= self.limit {
            (self, None)
        } else if self.cursor() >= self.to_date {
            (PagerState { from_date: self.cursor(), page_id: None, ..self }, None)
        } else {
            (
                PagerState {
                    from_date: step_from(self.candle_type, self.cursor()),
                    page_id: None,
                    last_item_no: self.last_item_no + 1,
                    ..self
                },
                Some(candle_id(self.instrument, self.candle_type, self.cursor() / 1000)),
            )
        }
    }

    /// The identifiers of one page: none once `limit` identifiers have been handed out;
    /// else those met on the way from the cursor to `to_date`, at most as many as
    /// `limit` and as the count of buckets in the whole range.
    pub open spec fn spec_page_ids(self) -> Seq<Seq<char>> {
        if self.last_item_no >= self.limit {
            Seq::empty()
        } else {
            walk_ids(
                self.instrument,
                self.candle_type,
                self.cursor(),
                self.to_date,
                if self.limit <= self.total() {
                    self.limit
                } else {
                    self.total() as nat
                },
            )
        }
    }

    /// The instant at which the next page begins: nothing where `limit` covers the
    /// count of buckets in the whole range; else the instant that lies one bucket more
    /// than the identifiers still to be handed out after `from_date`.
    pub open spec fn spec_next_page_start(self) -> Option<int> {
        if self.total() <= self.limit {
            None
        } else {
            skip_buckets(
                self.candle_type,
                self.from_date,
                (self.limit - self.last_item_no + 1) as nat,
            )
        }
    }

    /// Every identifier that requests in a row hand out from here until nothing is
    /// given.
    pub open spec fn spec_remaining_ids(self) -> Seq<Seq<char>> {
        drained(self, (self.limit - self.last_item_no) as nat)
    }
}

/// A walk of fewer steps is the beginning of a walk of more steps from the same
/// place, and the whole of it where the longer walk has no more identifiers than the
/// shorter may take.
proof fn lemma_walk_shorter(
    instrument: Seq<char>,
    candle_type: CandleType,
    cursor: int,
    to_date: int,
    fewer: nat,
    more: nat,
)
    requires
        fewer <= more,
    ensures
        walk_ids(instrument, candle_type, cursor, to_date, fewer).len() <= fewer,
        walk_ids(instrument, candle_type, cursor, to_date, fewer).len() <= walk_ids(
            instrument,
            candle_type,
            cursor,
            to_date,
            more,
        ).len(),
        walk_ids(instrument, candle_type, cursor, to_date, fewer) == walk_ids(
            instrument,
            candle_type,
            cursor,
            to_date,
            more,
        ).take(walk_ids(instrument, candle_type, cursor, to_date, fewer).len() as int),
        walk_ids(instrument, candle_type, cursor, to_date, more).len() <= fewer ==> walk_ids(
            instrument,
            candle_type,
            cursor,
            to_date,
            fewer,
        ) == walk_ids(instrument, candle_type, cursor, to_date, more),
    decreases fewer,
{
    if fewer > 0 && cursor < to_date {
        lemma_walk_shorter(
            instrument,
            candle_type,
            step_from(candle_type, cursor),
            to_date,
            (fewer - 1) as nat,
            (more - 1) as nat,
        );
    }
}

/// As long as `limit` allows them, requests in a row hand out the identifiers met
/// on the way from the cursor to the end of the range.
proof fn lemma_drained_is_walk(state: PagerState, count: nat)
    requires
        state.last_item_no + count <= state.limit,
    ensures
        drained(state, count) == walk_ids(
            state.instrument,
            state.candle_type,
            state.cursor(),
            state.to_date,
            count,
        ),
    decreases count,
{
    if count > 0 && state.cursor() < state.to_date {
        lemma_drained_is_walk(state.spec_move().0, (count - 1) as nat);
    }
}

/// One page against one request after another, both starting from a pager that has
/// handed out nothing: the page is the beginning of what the requests hand out, and
/// it is all of it exactly where no more identifiers lie on the way to the end of the
/// range than the range counts buckets.
///
/// Where the count falls short, as it does for a range that ends inside a bucket or
/// spans months of different lengths, the requests hand out more than the page holds.
pub proof fn lemma_page_matches_requests(state: PagerState)
    requires
        state.last_item_no == 0,
    ensures
        state.spec_page_ids() == state.spec_remaining_ids().take(
            state.spec_page_ids().len() as int,
        ),
        state.spec_page_ids().len() <= state.spec_remaining_ids().len(),
        state.spec_remaining_ids().len() <= state.total() <==> state.spec_page_ids()
            == state.spec_remaining_ids(),
{
    lemma_drained_is_walk(state, state.limit);
    if state.limit > 0 {
        let capped: nat = if state.limit <= state.total() {
            state.limit
        } else {
            state.total() as nat
        };
        lemma_walk_shorter(
            state.instrument,
            state.candle_type,
            state.cursor(),
            state.to_date,
            capped,
            state.limit,
        );
    }
}

/// At minute, hour and day resolution a step moves the cursor into the very next
/// bucket, so the identifiers of a walk name consecutive buckets and none twice.
pub proof fn lemma_step_reaches_next_bucket(candle_type: CandleType, millis: int)
    requires
        !(candle_type is Month),
    ensures
        candle_type.spec_start_date(step_from(candle_type, millis) / 1000)
            == candle_type.spec_start_date(millis / 1000) + candle_type.fixed_step(),
{
    let step = candle_type.fixed_step();
    let seconds = millis / 1000;
    let start = floor_to(seconds, step);
    assert(step_from(candle_type, millis) / 1000 == seconds + step);
    // The moved cursor lies between the next bucket start and the last second of
    // the next bucket, and both of those are rounded down to the next bucket start.
    lemma_floor(seconds, step);
    lemma_floor(start + step + step - 1, step);
    lemma_floor_keeps_order(start + step, seconds + step, step);
    lemma_floor_keeps_order(seconds + step, start + step + step - 1, step);
}

/// The token of a page names the instant at which the page begins: a pager moved to
/// the token that `get_next_page_id` gave begins where `move_page_id` would have put
/// it.
pub proof fn lemma_token_names_its_instant(millis: int)
    requires
        is_cursor(millis),
    ensures
        token_instant(decimal_text(millis)) == Some(millis),
{
    lemma_decimal_round_trip(millis);
}

/// Whole seconds of an instant in milliseconds, rounded down.
fn seconds_of(millis: i64) -> (seconds: i64)
    ensures
        seconds == millis as int / 1000,
{
    let quotient = millis / 1000;
    if millis % 1000 < 0 {
        quotient - 1
    } else {
        quotient
    }
}

impl View for CandlePager {
    type V = PagerState;

    closed spec fn view(&self) -> PagerState {
        PagerState {
            instrument: self.instrument@,
            candle_type: self.candle_type,
            from_date: self.from_date as int,
            to_date: self.to_date as int,
            page_id: match self.page_id {
                Some(millis) => Some(millis as int),
                None => None,
            },
            limit: self.limit as nat,
            last_item_no: self.last_item_no as nat,
        }
    }
}

impl CandlePager {
    #[verifier::type_invariant]
    spec fn inv(self) -> bool {
        &&& is_cursor(self.from_date as int)
        &&& in_pager_range(self.to_date as int)
        &&& self.page_id matches Some(millis) ==> is_cursor(millis as int)
        &&& self.last_item_no <= self.limit
    }

    /// A pager over `from_date..to_date` that has handed out nothing yet.  A range that
    /// ends before it begins is refused, and so is a token that names no instant.
    pub fn new(
        instrument: String,
        candle_type: CandleType,
        from_date: i64,
        to_date: i64,
        page_id: Option<String>,
        limit: usize,
    ) -> (made: Result<CandlePager, PagerError>)
        requires
            in_pager_range(from_date as int),
            in_pager_range(to_date as int),
        ensures
            match made {
                Ok(pager) => {
                    &&& from_date <= to_date
                    &&& page_id matches Some(token) ==> token_instant(token@) is Some
                    &&& pager@ == PagerState {
                        instrument: instrument@,
                        candle_type,
                        from_date: from_date as int,
                        to_date: to_date as int,
                        page_id: match page_id {
                            Some(token) => token_instant(token@),
                            None => None,
                        },
                        limit: limit as nat,
                        last_item_no: 0,
                    }
                },
                Err(PagerError::InvalidRange) => from_date > to_date,
                Err(PagerError::MalformedToken) => {
                    &&& from_date <= to_date
                    &&& page_id matches Some(token) && token_instant(token@) is None
                },
            },
    {
        if from_date > to_date {
            return Err(PagerError::InvalidRange);
        }
        let cursor = match page_id {
            Some(token) => match CandlePager::read_token(token.as_str()) {
                Some(millis) => Some(millis),
                None => {
                    return Err(PagerError::MalformedToken);
                },
            },
            None => None,
        };
        Ok(
            CandlePager {
                instrument,
                candle_type,
                from_date,
                to_date,
                page_id: cursor,
                limit,
                last_item_no: 0,
            },
        )
    }

    /// The instant that a token names, if it names one.
    fn read_token(token: &str) -> (instant: Option<i64>)
        ensures
            match instant {
                Some(millis) => token_instant(token@) == Some(millis as int),
                None => token_instant(token@) is None,
            },
    {
        match parse_i64(token) {
            Some(millis) => if PAGER_MIN <= millis && millis <= PAGER_MAX + LONGEST_BUCKET {
                Some(millis)
            } else {
                None
            },
            None => None,
        }
    }

    /// The instrument whose candles are paged.
    pub fn get_instrument(&self) -> (instrument: &str)
        ensures
            instrument@ == self@.instrument,
    {
        self.instrument.as_str()
    }

    /// The resolution of the candles.
    pub fn get_candle_type(&self) -> (candle_type: CandleType)
        ensures
            candle_type == self@.candle_type,
    {
        self.candle_type
    }

    /// The most identifiers the pager hands out.
    pub fn get_limit(&self) -> (limit: usize)
        ensures
            limit == self@.limit,
    {
        self.limit
    }

    /// The number of identifiers handed out so far.
    pub fn get_last_item_no(&self) -> (count: usize)
        ensures
            count == self@.last_item_no,
            count <= self@.limit,
    {
        proof {
            use_type_invariant(self);
        }
        self.last_item_no
    }

    /// Where the range begins now, in epoch milliseconds.
    pub fn get_from_date(&self) -> (millis: i64)
        ensures
            millis == self@.from_date,
    {
        self.from_date
    }

    /// Where the range ends, in epoch milliseconds.
    pub fn get_to_date(&self) -> (millis: i64)
        ensures
            millis == self@.to_date,
    {
        self.to_date
    }

    /// The instant at which the next page begins, if there is a next page.
    fn next_page_start(&self) -> (start: Option<i64>)
        ensures
            match start {
                Some(millis) => self@.spec_next_page_start() == Some(millis as int) && is_cursor(
                    millis as int,
                ),
                None => self@.spec_next_page_start() is None,
            },
    {
        proof {
            use_type_invariant(self);
        }
        if self.from_date >= PAGER_MAX {
            return None;
        }
        let total_items_count = self.candle_type.get_dates_count(
            seconds_of(self.from_date),
            seconds_of(self.to_date),
        );
        if total_items_count <= self.limit {
            return None;
        }
        let steps = self.limit - self.last_item_no + 1;
        let mut cursor = self.from_date;
        let mut done: usize = 0;
        while done < steps
            invariant
                done <= steps,
                PAGER_MIN <= cursor <= PAGER_MAX + LONGEST_BUCKET,
                self@.spec_next_page_start() == skip_buckets(
                    self.candle_type,
                    self.from_date as int,
                    steps as nat,
                ),
                skip_buckets(self.candle_type, cursor as int, (steps - done) as nat) == skip_buckets(
                    self.candle_type,
                    self.from_date as int,
                    steps as nat,
                ),
            decreases steps - done,
        {
            if cursor >= PAGER_MAX {
                return None;
            }
            cursor = cursor + 1000 * self.candle_type.get_duration(seconds_of(cursor));
            done += 1;
        }
        Some(cursor)
    }

    /// The token of the next page: nothing where `limit` covers the count of buckets in
    /// the whole range, so that one page holds everything; else the decimal text of the
    /// instant, in epoch milliseconds, that lies one bucket more than the identifiers
    /// still to be handed out after the start of the range.
    pub fn get_next_page_id(&self) -> (token: Option<String>)
        ensures
            match token {
                Some(text) => self@.spec_next_page_start() matches Some(millis) && text@
                    == decimal_text(millis) && is_cursor(millis),
                None => self@.spec_next_page_start() is None,
            },
            self@.total() <= self@.limit ==> token is None,
    {
        match self.next_page_start() {
            Some(millis) => Some(format_decimal(millis)),
            None => None,
        }
    }

    /// Moves the start of the range to the next page and gives that page's token; does
    /// nothing and gives nothing where there is no next page.
    pub fn move_page_id(&mut self) -> (token: Option<String>)
        ensures
            match token {
                Some(text) => {
                    &&& old(self)@.spec_next_page_start() matches Some(millis)
                    &&& text@ == decimal_text(millis)
                    &&& is_cursor(millis)
                    &&& final(self)@ == PagerState { from_date: millis, ..old(self)@ }
                },
                None => old(self)@.spec_next_page_start() is None && final(self)@ == old(self)@,
            },
    {
        proof {
            use_type_invariant(&*self);
        }
        match self.next_page_start() {
            Some(millis) => {
                self.from_date = millis;
                Some(format_decimal(millis))
            },
            None => None,
        }
    }

    /// Moves the start of the range to the instant that a token names.  A token that
    /// names none is refused and changes nothing.
    pub fn advance_to_token(&mut self, token: &str) -> (moved: Result<(), PagerError>)
        ensures
            match moved {
                Ok(_) => token_instant(token@) matches Some(millis) && final(self)@ == PagerState {
                    from_date: millis,
                    ..old(self)@
                },
                Err(error) => error == PagerError::MalformedToken && token_instant(token@) is None
                    && final(self)@ == old(self)@,
            },
    {
        proof {
            use_type_invariant(&*self);
        }
        match CandlePager::read_token(token) {
            Some(millis) => {
                self.from_date = millis;
                Ok(())
            },
            None => Err(PagerError::MalformedToken),
        }
    }

    /// Gives the identifier of the bucket under the cursor and moves the cursor on by
    /// one bucket; gives nothing once `limit` identifiers have been handed out or the
    /// cursor has reached the end of the range.
    pub fn move_candle_id(&mut self) -> (id: Option<String>)
        ensures
            final(self)@ == old(self)@.spec_move().0,
            match id {
                Some(text) => old(self)@.spec_move().1 == Some(text@),
                None => old(self)@.spec_move().1 is None,
            },
    {
        proof {
            use_type_invariant(&*self);
        }
        if self.last_item_no >= self.limit {
            return None;
        }
        if let Some(millis) = self.page_id {
            self.from_date = millis;
            self.page_id = None;
        }
        if self.from_date >= self.to_date {
            return None;
        }
        let seconds = seconds_of(self.from_date);
        let id = BidAskCandle::generate_id(self.instrument.as_str(), &self.candle_type, seconds);
        self.last_item_no += 1;
        self.from_date = self.from_date + 1000 * self.candle_type.get_duration(seconds);
        Some(id)
    }

    /// The identifiers of one page, without moving the pager.
    pub fn get_page_candle_ids(&self) -> (ids: Vec<String>)
        ensures
            texts_of(ids@) == self@.spec_page_ids(),
    {
        proof {
            use_type_invariant(self);
        }
        let mut ids: Vec<String> = Vec::new();
        if self.last_item_no >= self.limit {
            return ids;
        }
        let start = match self.page_id {
            Some(millis) => millis,
            None => self.from_date,
        };
        let dates_count = if self.from_date >= PAGER_MAX {
            0
        } else {
            self.candle_type.get_dates_count(seconds_of(self.from_date), seconds_of(self.to_date))
        };
        let limit = if self.limit > dates_count {
            dates_count
        } else {
            self.limit
        };
        let mut cursor = start;
        let mut made: usize = 0;
        while made < limit
            invariant
                made <= limit,
                is_cursor(cursor as int),
                in_pager_range(self.to_date as int),
                ids@.len() == made,
                self@.spec_page_ids() == walk_ids(
                    self.instrument@,
                    self.candle_type,
                    start as int,
                    self.to_date as int,
                    limit as nat,
                ),
                texts_of(ids@) + walk_ids(
                    self.instrument@,
                    self.candle_type,
                    cursor as int,
                    self.to_date as int,
                    (limit - made) as nat,
                ) == walk_ids(
                    self.instrument@,
                    self.candle_type,
                    start as int,
                    self.to_date as int,
                    limit as nat,
                ),
            decreases limit - made,
        {
            if cursor >= self.to_date {
                return ids;
            }
            let seconds = seconds_of(cursor);
            let id = BidAskCandle::generate_id(self.instrument.as_str(), &self.candle_type, seconds);
            ids.push(id);
            cursor = cursor + 1000 * self.candle_type.get_duration(seconds);
            made += 1;
        }
        ids
    }
}

} // verus!
