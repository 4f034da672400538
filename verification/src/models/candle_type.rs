//! Resolutions and their bucket arithmetic.
use crate::models::calendar::{
    civil_month, civil_year, first_of_month, following_month, following_year, has_next_month,
    in_calendar, month_first_second, month_of, year_of, DAY_SECONDS, LAST_MONTH_START,
};
use std::collections::HashSet;
use vstd::arithmetic::div_mod::{
    lemma_div_is_ordered, lemma_fundamental_div_mod, lemma_fundamental_div_mod_converse,
    lemma_mod_bound, lemma_mod_multiples_basic,
};
use vstd::arithmetic::mul::{
    lemma_mul_inequality, lemma_mul_is_commutative, lemma_mul_is_distributive_add_other_way,
};
use vstd::prelude::*;

verus! {

/// The resolution of a candle.  Each variant has a code that is part of every candle
/// identifier, so codes are never reassigned.
#[derive(Clone, Copy, Debug, PartialEq, Eq, Hash, Structural)]
pub enum CandleType {
    Minute,
    Hour,
    Day,
    Month,
}

/// `t` rounded down to a multiple of `step`.
pub open spec fn floor_to(t: int, step: int) -> int {
    t - t % step
}

/// Rounding down yields a multiple of `step` that is at most `t` and less than one
/// `step` below it; it leaves its own results, and their successors, as they are.
pub proof fn lemma_floor(t: int, step: int)
    requires
        step > 0,
    ensures
        floor_to(t, step) <= t < floor_to(t, step) + step,
        floor_to(t, step) % step == 0,
        floor_to(floor_to(t, step), step) == floor_to(t, step),
        floor_to(floor_to(t, step) + step, step) == floor_to(t, step) + step,
{
    let k = t / step;
    lemma_fundamental_div_mod(t, step);
    lemma_mod_bound(t, step);
    lemma_mul_is_commutative(step, k);
    lemma_mod_multiples_basic(k, step);
    lemma_mod_multiples_basic(k + 1, step);
    lemma_mul_is_distributive_add_other_way(step, k, 1);
}

/// Rounding down keeps the order of instants.
pub proof fn lemma_floor_keeps_order(earlier: int, later: int, step: int)
    requires
        step > 0,
        earlier <= later,
    ensures
        floor_to(earlier, step) <= floor_to(later, step),
{
    lemma_fundamental_div_mod(earlier, step);
    lemma_fundamental_div_mod(later, step);
    lemma_div_is_ordered(earlier, later, step);
    lemma_mul_inequality(earlier / step, later / step, step);
    lemma_mul_is_commutative(step, earlier / step);
    lemma_mul_is_commutative(step, later / step);
}

/// Two different multiples of `step` lie at least one `step` apart.
proof fn lemma_multiples_apart(lower: int, upper: int, step: int)
    requires
        step > 0,
        lower % step == 0,
        upper % step == 0,
        lower < upper,
    ensures
        lower + step <= upper,
{
    if upper < lower + step {
        lemma_fundamental_div_mod(lower, step);
        lemma_mul_is_commutative(step, lower / step);
        lemma_fundamental_div_mod_converse(upper, step, lower / step, upper - lower);
    }
}

/// For minutes, hours and days the start of the bucket keeps the order of instants.
pub proof fn lemma_start_keeps_order(candle_type: CandleType, earlier: int, later: int)
    requires
        !(candle_type is Month),
        earlier <= later,
    ensures
        candle_type.spec_start_date(earlier) <= candle_type.spec_start_date(later),
{
    lemma_floor_keeps_order(earlier, later, candle_type.fixed_step());
}

/// For minutes, hours and days the bucket starts walked from one bucket start to
/// another are the first of the two and every whole multiple of the bucket length
/// after it up to the second.
pub proof fn lemma_walk_starts_fixed(candle_type: CandleType, first: int, last: int)
    requires
        !(candle_type is Month),
        first % candle_type.fixed_step() == 0,
        last % candle_type.fixed_step() == 0,
    ensures
        forall|d: int| #[trigger]
            walk_starts(candle_type, first, last).contains(d) <==> d == first || (first < d <= last
                && d % candle_type.fixed_step() == 0),
    decreases
        (if first < last {
            last - first
        } else {
            0
        }),
{
    let step = candle_type.fixed_step();
    lemma_floor(first, step);
    assert(candle_type.spec_start_date(first + candle_type.spec_duration(first)) == first + step);
    if first < last {
        lemma_multiples_apart(first, last, step);
        lemma_walk_starts_fixed(candle_type, first + step, last);
        let rest = walk_starts(candle_type, first + step, last);
        assert(walk_starts(candle_type, first, last) == rest.insert(first));
        assert forall|d: int| #[trigger]
            walk_starts(candle_type, first, last).contains(d) <==> d == first || (first < d <= last
                && d % step == 0) by {
            if first < d && d % step == 0 {
                lemma_multiples_apart(first, d, step);
            }
            assert(rest.contains(d) <==> d == first + step || (first + step < d <= last && d % step
                == 0));
        }
    }
}

/// The set holding `first` and every bucket start reached from it, one bucket at a
/// time, as long as the bucket walked from begins before `last`.
pub open spec fn walk_starts(candle_type: CandleType, first: int, last: int) -> Set<int>
    decreases
        (if first < last {
            last - first
        } else {
            0
        }),
{
    let next = candle_type.spec_start_date(first + candle_type.spec_duration(first));
    if first < last && first < next {
        walk_starts(candle_type, next, last).insert(first)
    } else {
        set![first]
    }
}

impl CandleType {
    /// The code of the resolution.
    pub open spec fn spec_code(self) -> int {
        match self {
            CandleType::Minute => 0,
            CandleType::Hour => 1,
            CandleType::Day => 2,
            CandleType::Month => 3,
        }
    }

    /// Length in seconds of the buckets of a resolution whose buckets all have one
    /// length; `0` for months.
    pub open spec fn fixed_step(self) -> int {
        match self {
            CandleType::Minute => 60,
            CandleType::Hour => 3_600,
            CandleType::Day => 86_400,
            CandleType::Month => 0,
        }
    }

    /// The instants whose bucket the resolution can name: for months the instants of
    /// the calendar, for the others those whose bucket start is an `i64`.
    pub open spec fn supports(self, datetime: int) -> bool {
        if self is Month {
            in_calendar(datetime)
        } else {
            floor_to(datetime, self.fixed_step()) >= i64::MIN
        }
    }

    /// The instants from which the resolution can step to the following bucket.
    pub open spec fn can_step(self, datetime: int) -> bool {
        if self is Month {
            has_next_month(datetime)
        } else {
            i64::MIN <= floor_to(datetime, self.fixed_step()) && floor_to(
                datetime,
                self.fixed_step(),
            ) + self.fixed_step() <= i64::MAX
        }
    }

    /// Start of the bucket that holds `datetime`.
    pub open spec fn spec_start_date(self, datetime: int) -> int {
        match self {
            CandleType::Minute => floor_to(datetime, 60),
            CandleType::Hour => floor_to(datetime, 3_600),
            CandleType::Day => floor_to(datetime, 86_400),
            CandleType::Month => month_first_second(civil_year(datetime), civil_month(datetime)),
        }
    }

    /// Length in seconds of the bucket that holds `datetime`.
    pub open spec fn spec_duration(self, datetime: int) -> int {
        match self {
            CandleType::Minute => 60,
            CandleType::Hour => 3_600,
            CandleType::Day => 86_400,
            CandleType::Month => {
                let year = civil_year(datetime);
                let month = civil_month(datetime);
                month_first_second(following_year(year, month), following_month(month))
                    - month_first_second(year, month)
            },
        }
    }

    /// End of the bucket that holds `datetime`, which is the start of the next one.
    pub open spec fn spec_end_date(self, datetime: int) -> int {
        let start = self.spec_start_date(datetime);
        start + self.spec_duration(start)
    }

    /// Whole buckets, of the length of the bucket of `datetime_from`, between the start
    /// of that bucket and the start of the bucket of `datetime_to`.  Negative where the
    /// second bucket starts before the first.
    pub open spec fn spec_dates_count(self, datetime_from: int, datetime_to: int) -> int {
        (self.spec_start_date(datetime_to) - self.spec_start_date(datetime_from))
            / self.spec_duration(datetime_from)
    }

    /// The bucket starts from the bucket of `datetime_from` to that of `datetime_to`.
    pub open spec fn spec_start_dates(self, datetime_from: int, datetime_to: int) -> Set<int> {
        walk_starts(
            self,
            self.spec_start_date(datetime_from),
            self.spec_start_date(datetime_to),
        )
    }

    /// The code of the resolution.
    pub fn code(&self) -> (code: u8)
        ensures
            code == self.spec_code(),
    {
        match self {
            CandleType::Minute => 0,
            CandleType::Hour => 1,
            CandleType::Day => 2,
            CandleType::Month => 3,
        }
    }

    /// The resolution with the given code, if there is one.
    pub fn from_code(code: u8) -> (found: Option<CandleType>)
        ensures
            code <= 3 <==> found is Some,
            found matches Some(candle_type) ==> candle_type.spec_code() == code,
    {
        match code {
            0 => Some(CandleType::Minute),
            1 => Some(CandleType::Hour),
            2 => Some(CandleType::Day),
            3 => Some(CandleType::Month),
            _ => None,
        }
    }

    /// Start of the bucket that holds `datetime`: the latest minute, hour or day
    /// boundary, counted from the epoch, that is not after the instant, or day 1 of
    /// the calendar month.  Instants before the epoch are rounded down like any other.
    ///
    /// Applying the function to its own result changes nothing.
    pub fn get_start_date(&self, datetime: i64) -> (start: i64)
        requires
            self.supports(datetime as int),
        ensures
            start == self.spec_start_date(datetime as int),
            self.spec_start_date(start as int) == start,
            self.supports(start as int),
            self.spec_duration(start as int) == self.spec_duration(datetime as int),
            start <= datetime,
            !(self is Month) ==> datetime < start + self.fixed_step() && (start as int)
                % self.fixed_step() == 0,
            self is Month && datetime < LAST_MONTH_START ==> datetime < start
                + self.spec_duration(datetime as int),
    {
        match self {
            CandleType::Minute => {
                proof {
                    lemma_floor(datetime as int, 60);
                }
                minute_of(datetime)
            },
            CandleType::Hour => {
                proof {
                    lemma_floor(datetime as int, 3_600);
                }
                hour_of(datetime)
            },
            CandleType::Day => {
                proof {
                    lemma_floor(datetime as int, 86_400);
                }
                day_of(datetime)
            },
            CandleType::Month => {
                let year = year_of(datetime);
                let month = month_of(datetime);
                first_of_month(year, month)
            },
        }
    }

    /// Length in seconds of the bucket that holds `datetime`: 60, 3600 or 86400, or the
    /// span from day 1 of the month of `datetime` to day 1 of the month after it.
    pub fn get_duration(&self, datetime: i64) -> (duration: i64)
        requires
            self is Month ==> has_next_month(datetime as int),
        ensures
            duration == self.spec_duration(datetime as int),
            duration == self.spec_duration(self.spec_start_date(datetime as int)),
            60 <= duration <= 31 * DAY_SECONDS,
            !(self is Month) ==> duration == self.fixed_step(),
            self is Month ==> duration >= 28 * DAY_SECONDS,
            self.spec_start_date(self.spec_end_date(datetime as int)) == self.spec_end_date(
                datetime as int,
            ),
    {
        match self {
            CandleType::Minute => {
                proof {
                    lemma_floor(datetime as int, 60);
                }
                60
            },
            CandleType::Hour => {
                proof {
                    lemma_floor(datetime as int, 3_600);
                }
                3_600
            },
            CandleType::Day => {
                proof {
                    lemma_floor(datetime as int, 86_400);
                }
                86_400
            },
            CandleType::Month => {
                let year = year_of(datetime);
                let month = month_of(datetime);
                let start_of_month = first_of_month(year, month);
                let end_of_month = if month == 12 {
                    first_of_month(year + 1, 1)
                } else {
                    first_of_month(year, month + 1)
                };
                end_of_month - start_of_month
            },
        }
    }

    /// End of the bucket that holds `datetime`: the start of the bucket that follows,
    /// one bucket length after the start of this one.
    pub fn get_end_date(&self, datetime: i64) -> (end: i64)
        requires
            self.can_step(datetime as int),
        ensures
            end == self.spec_end_date(datetime as int),
            end == self.spec_start_date(datetime as int) + self.spec_duration(datetime as int),
            self.spec_start_date(datetime as int) <= datetime < end,
            self.spec_start_date(end as int) == end,
            60 <= self.spec_duration(datetime as int) <= 31 * DAY_SECONDS,
            self is Month ==> self.spec_duration(datetime as int) >= 28 * DAY_SECONDS,
    {
        let start = self.get_start_date(datetime);
        start + self.get_duration(start)
    }

    /// Whole buckets between the bucket of `datetime_from` and that of `datetime_to`,
    /// counted in buckets of the length of the first.  A span that runs backwards
    /// holds no bucket; a count beyond `usize` is cut to `usize::MAX`.
    pub fn get_dates_count(&self, datetime_from: i64, datetime_to: i64) -> (count: usize)
        requires
            self.supports(datetime_from as int),
            self.supports(datetime_to as int),
            self is Month ==> has_next_month(datetime_from as int),
        ensures
            count == clamp_count(self.spec_dates_count(datetime_from as int, datetime_to as int)),
    {
        let duration = self.get_duration(datetime_from);
        let from = self.get_start_date(datetime_from);
        let to = self.get_start_date(datetime_to);
        if to < from {
            assert((to - from) / (duration as int) < 0) by (nonlinear_arith)
                requires
                    to - from < 0,
                    duration > 0,
            ;
            return 0;
        }
        let whole: i128 = (to as i128 - from as i128) / (duration as i128);
        if whole > usize::MAX as i128 {
            usize::MAX
        } else {
            whole as usize
        }
    }

    /// The starts of the buckets from that of `datetime_from` to that of `datetime_to`.
    /// The bucket of `datetime_from` is always among them.
    pub fn get_start_dates(&self, datetime_from: i64, datetime_to: i64) -> (dates: HashSet<i64>)
        requires
            self.supports(datetime_from as int),
            self.supports(datetime_to as int),
            self is Month ==> has_next_month(datetime_to as int),
            !(self is Month) ==> datetime_to <= i64::MAX - DAY_SECONDS,
        ensures
            forall|d: i64| #[trigger]
                dates@.contains(d) <==> self.spec_start_dates(
                    datetime_from as int,
                    datetime_to as int,
                ).contains(d as int),
    {
        let mut dates: HashSet<i64> = HashSet::new();
        let date_from = self.get_start_date(datetime_from);
        let date_to = self.get_start_date(datetime_to);
        let mut last_date = date_from;
        dates.insert(date_from);
        while last_date < date_to
            invariant
                self.spec_start_date(last_date as int) == last_date,
                self.supports(last_date as int),
                self is Month ==> date_to < LAST_MONTH_START,
                !(self is Month) ==> date_to <= i64::MAX - DAY_SECONDS,
                dates@.contains(last_date),
                forall|d: i64| #[trigger]
                    dates@.contains(d) ==> walk_starts(
                        *self,
                        date_from as int,
                        date_to as int,
                    ).contains(d as int),
                forall|d: int| #[trigger]
                    walk_starts(*self, last_date as int, date_to as int).contains(d)
                        ==> walk_starts(*self, date_from as int, date_to as int).contains(d),
                forall|d: i64| #[trigger]
                    walk_starts(*self, date_from as int, date_to as int).contains(d as int)
                        ==> dates@.contains(d) || walk_starts(
                        *self,
                        last_date as int,
                        date_to as int,
                    ).contains(d as int),
            decreases
                (if last_date < date_to {
                    date_to - last_date
                } else {
                    0
                }),
        {
            let ghost previous = last_date;
            let next_date = last_date + self.get_duration(last_date);
            last_date = self.get_start_date(next_date);
            dates.insert(last_date);
            proof {
                let all = walk_starts(*self, date_from as int, date_to as int);
                let rest = walk_starts(*self, last_date as int, date_to as int);
                assert(walk_starts(*self, previous as int, date_to as int) == rest.insert(
                    previous as int,
                ));
                assert(rest.contains(last_date as int));
                assert forall|d: int| #[trigger] rest.contains(d) implies all.contains(d) by {
                    assert(rest.insert(previous as int).contains(d));
                }
                assert forall|d: i64| #[trigger] dates@.contains(d) implies all.contains(
                    d as int,
                ) by {}
                assert forall|d: i64| #[trigger] all.contains(d as int) implies dates@.contains(d)
                    || rest.contains(d as int) by {}
            }
        }
        dates
    }
}

/// `datetime` rounded down to a whole minute.
fn minute_of(datetime: i64) -> (start: i64)
    requires
        floor_to(datetime as int, 60) >= i64::MIN,
    ensures
        start == floor_to(datetime as int, 60),
{
    let remainder = datetime % 60;
    if remainder < 0 {
        datetime - (remainder + 60)
    } else {
        datetime - remainder
    }
}

/// `datetime` rounded down to a whole hour.
fn hour_of(datetime: i64) -> (start: i64)
    requires
        floor_to(datetime as int, 3_600) >= i64::MIN,
    ensures
        start == floor_to(datetime as int, 3_600),
{
    let remainder = datetime % 3_600;
    if remainder < 0 {
        datetime - (remainder + 3_600)
    } else {
        datetime - remainder
    }
}

/// `datetime` rounded down to a whole day.
fn day_of(datetime: i64) -> (start: i64)
    requires
        floor_to(datetime as int, 86_400) >= i64::MIN,
    ensures
        start == floor_to(datetime as int, 86_400),
{
    let remainder = datetime % 86_400;
    if remainder < 0 {
        datetime - (remainder + 86_400)
    } else {
        datetime - remainder
    }
}

/// A bucket count as a `usize`: none below zero, nothing above `usize::MAX`.
pub open spec fn clamp_count(count: int) -> int {
    if count < 0 {
        0
    } else if count > usize::MAX {
        usize::MAX as int
    } else {
        count
    }
}

} // verus!
