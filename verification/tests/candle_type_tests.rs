use candles_cache::models::candle_type::CandleType;
use chrono::{DateTime, Datelike, Duration, TimeZone, Timelike, Utc};
use std::collections::HashSet;

fn at(secs: i64) -> DateTime<Utc> {
    DateTime::from_timestamp(secs, 0).unwrap()
}

#[test]
fn count_minute() {
    let candle_type = CandleType::Minute;
    let duration = Duration::minutes(15);
    let from: DateTime<Utc> = Utc.with_ymd_and_hms(2000, 1, 1, 0, 0, 0).unwrap();
    let to: DateTime<Utc> = from + duration;

    let count = candle_type.get_dates_count(from.timestamp(), to.timestamp());

    assert_eq!(count, duration.num_minutes() as usize);
}

#[test]
fn count_hour() {
    let candle_type = CandleType::Hour;
    let duration = Duration::hours(15);
    let from: DateTime<Utc> = Utc.with_ymd_and_hms(2000, 1, 1, 0, 0, 0).unwrap();
    let to: DateTime<Utc> = from + duration;

    let count = candle_type.get_dates_count(from.timestamp(), to.timestamp());

    assert_eq!(count, duration.num_hours() as usize);
}

#[test]
fn count_day() {
    let candle_type = CandleType::Day;
    let duration = Duration::days(15);
    let from: DateTime<Utc> = Utc.with_ymd_and_hms(2000, 1, 1, 0, 0, 0).unwrap();
    let to: DateTime<Utc> = from + duration;

    let count = candle_type.get_dates_count(from.timestamp(), to.timestamp());

    assert_eq!(count, duration.num_days() as usize);
}

#[test]
fn get_date_for_minute() {
    let candle_type = CandleType::Minute;
    let src_date: DateTime<Utc> = Utc.with_ymd_and_hms(2000, 1, 1, 1, 1, 34).unwrap();

    let start_date = at(candle_type.get_start_date(src_date.timestamp()));

    assert_eq!(start_date.year(), src_date.year());
    assert_eq!(start_date.month(), src_date.month());
    assert_eq!(start_date.day(), src_date.day());
    assert_eq!(start_date.hour(), src_date.hour());
    assert_eq!(start_date.hour(), src_date.hour());
    assert_eq!(start_date.minute(), src_date.minute());
    assert_eq!(start_date.second(), 0);
}

#[test]
fn get_date_for_hour() {
    let candle_type = CandleType::Hour;
    let src_date: DateTime<Utc> = Utc.with_ymd_and_hms(2000, 1, 1, 1, 23, 34).unwrap();

    let start_date = at(candle_type.get_start_date(src_date.timestamp()));

    assert_eq!(start_date.year(), src_date.year());
    assert_eq!(start_date.month(), src_date.month());
    assert_eq!(start_date.day(), src_date.day());
    assert_eq!(start_date.hour(), src_date.hour());
    assert_eq!(start_date.minute(), 0);
    assert_eq!(start_date.second(), 0);
}

#[test]
fn get_date_for_day() {
    let candle_type = CandleType::Day;
    let src_date: DateTime<Utc> = Utc.with_ymd_and_hms(2000, 1, 1, 3, 23, 34).unwrap();

    let start_date = at(candle_type.get_start_date(src_date.timestamp()));

    assert_eq!(start_date.year(), src_date.year());
    assert_eq!(start_date.month(), src_date.month());
    assert_eq!(start_date.day(), src_date.day());
    assert_eq!(start_date.hour(), 0);
    assert_eq!(start_date.minute(), 0);
    assert_eq!(start_date.second(), 0);
}

#[test]
fn get_date_for_month() {
    let candle_type = CandleType::Month;
    let src_date: DateTime<Utc> = Utc.with_ymd_and_hms(2000, 1, 12, 3, 23, 34).unwrap();

    let start_date = at(candle_type.get_start_date(src_date.timestamp()));

    assert_eq!(start_date.year(), src_date.year());
    assert_eq!(start_date.month(), src_date.month());
    assert_eq!(start_date.day(), 1);
    assert_eq!(start_date.hour(), 0);
    assert_eq!(start_date.minute(), 0);
    assert_eq!(start_date.second(), 0);
}

#[test]
fn get_start_dates_for_minute() {
    let duration = Duration::minutes(15);
    let from: DateTime<Utc> = Utc.with_ymd_and_hms(2000, 1, 1, 0, 0, 0).unwrap();
    let to: DateTime<Utc> = from + duration;
    let candle_type = CandleType::Minute;

    let dates = candle_type.get_start_dates(from.timestamp(), to.timestamp());
    let dates: HashSet<i64> = dates.into_iter().collect();

    assert!(dates.contains(&candle_type.get_start_date(from.timestamp())));
    assert!(dates.contains(&candle_type.get_start_date(to.timestamp())));
    assert_eq!(dates.len(), (duration.num_minutes() + 1) as usize);

    for _ in 0..duration.num_minutes() {
        let date = candle_type.get_start_date(from.timestamp())
            + candle_type.get_duration(from.timestamp());
        assert!(dates.contains(&date));
    }
}

#[test]
fn get_start_dates_for_hour() {
    let duration = Duration::hours(15);
    let from: DateTime<Utc> = Utc.with_ymd_and_hms(2000, 1, 1, 0, 0, 0).unwrap();
    let to: DateTime<Utc> = from + duration;
    let candle_type = CandleType::Hour;

    let dates = candle_type.get_start_dates(from.timestamp(), to.timestamp());
    let dates: HashSet<i64> = dates.into_iter().collect();

    assert!(dates.contains(&candle_type.get_start_date(from.timestamp())));
    assert!(dates.contains(&candle_type.get_start_date(to.timestamp())));
    assert_eq!(dates.len(), (duration.num_hours() + 1) as usize);

    for _ in 0..duration.num_hours() {
        let date = candle_type.get_start_date(from.timestamp())
            + candle_type.get_duration(from.timestamp());
        assert!(dates.contains(&date));
    }
}

#[test]
fn get_start_dates_for_day() {
    let duration = Duration::days(15);
    let from: DateTime<Utc> = Utc.with_ymd_and_hms(2000, 1, 1, 0, 0, 0).unwrap();
    let to: DateTime<Utc> = from + duration;
    let candle_type = CandleType::Day;

    let dates = candle_type.get_start_dates(from.timestamp(), to.timestamp());
    let dates: HashSet<i64> = dates.into_iter().collect();

    assert!(dates.contains(&candle_type.get_start_date(from.timestamp())));
    assert!(dates.contains(&candle_type.get_start_date(to.timestamp())));
    assert_eq!(dates.len(), (duration.num_days() + 1) as usize);

    for _ in 0..duration.num_days() {
        let date = candle_type.get_start_date(from.timestamp())
            + candle_type.get_duration(from.timestamp());
        assert!(dates.contains(&date));
    }
}

#[test]
fn get_start_dates_for_month() {
    let num_months = 12;
    let from: DateTime<Utc> = Utc.with_ymd_and_hms(2000, 1, 1, 0, 0, 0).unwrap();
    let to: DateTime<Utc> = Utc.with_ymd_and_hms(2000, num_months, 1, 0, 0, 0).unwrap();
    let candle_type = CandleType::Month;

    let dates = candle_type.get_start_dates(from.timestamp(), to.timestamp());
    let dates: HashSet<i64> = dates.into_iter().collect();

    assert!(dates.contains(&candle_type.get_start_date(from.timestamp())));
    assert!(dates.contains(&candle_type.get_start_date(to.timestamp())));
    assert_eq!(dates.len(), num_months as usize);

    for _ in 0..num_months {
        let date = candle_type.get_start_date(from.timestamp())
            + candle_type.get_duration(from.timestamp());
        assert!(dates.contains(&date));
    }
}

#[test]
fn test() {
    let candle_type = CandleType::Minute;

    let start = candle_type.get_start_date(Utc::now().timestamp());
    let end = candle_type.get_end_date(start);

    println!("{} - {}", at(start), at(end));
}

#[test]
fn codes_are_stable() {
    assert_eq!(CandleType::Minute.code(), 0);
    assert_eq!(CandleType::Hour.code(), 1);
    assert_eq!(CandleType::Day.code(), 2);
    assert_eq!(CandleType::Month.code(), 3);
    assert_eq!(CandleType::from_code(0), Some(CandleType::Minute));
    assert_eq!(CandleType::from_code(1), Some(CandleType::Hour));
    assert_eq!(CandleType::from_code(2), Some(CandleType::Day));
    assert_eq!(CandleType::from_code(3), Some(CandleType::Month));
    assert_eq!(CandleType::from_code(4), None);
}

#[test]
fn start_date_exact_values() {
    // 2022-09-07T14:03:24Z
    let t = 1662559404;
    assert_eq!(CandleType::Minute.get_start_date(t), 1662559380);
    assert_eq!(CandleType::Hour.get_start_date(t), 1662559200);
    assert_eq!(CandleType::Day.get_start_date(t), 1662508800);
    assert_eq!(CandleType::Month.get_start_date(t), 1661990400);
}

#[test]
fn start_date_is_idempotent() {
    let instants = [
        0,
        1,
        59,
        60,
        1662559404,
        946684800,
        951782399,
        -1,
        -61,
        -86_401,
        8_210_264_198_399,
        -8_334_601_228_800,
    ];
    let types = [CandleType::Minute, CandleType::Hour, CandleType::Day, CandleType::Month];
    for candle_type in types {
        for t in instants {
            let once = candle_type.get_start_date(t);
            assert_eq!(candle_type.get_start_date(once), once);
        }
    }
}

#[test]
fn start_date_before_the_epoch_rounds_down() {
    assert_eq!(CandleType::Minute.get_start_date(-1), -60);
    assert_eq!(CandleType::Minute.get_start_date(-60), -60);
    assert_eq!(CandleType::Minute.get_start_date(-61), -120);
    assert_eq!(CandleType::Hour.get_start_date(-3_601), -7_200);
    assert_eq!(CandleType::Day.get_start_date(-86_399), -86_400);
    // 1969-12-31T23:59:59Z lies in the last minute, hour and day of 1969.
    assert_eq!(
        CandleType::Minute.get_start_date(-1),
        Utc.with_ymd_and_hms(1969, 12, 31, 23, 59, 0).unwrap().timestamp()
    );
    assert_eq!(
        CandleType::Hour.get_start_date(-1),
        Utc.with_ymd_and_hms(1969, 12, 31, 23, 0, 0).unwrap().timestamp()
    );
    assert_eq!(
        CandleType::Day.get_start_date(-1),
        Utc.with_ymd_and_hms(1969, 12, 31, 0, 0, 0).unwrap().timestamp()
    );
}

#[test]
fn every_bucket_encloses_its_instants() {
    let instants = [-90_000, -86_401, -86_400, -3_601, -61, -60, -59, -1, 0, 1, 59, 60, 1662559404];
    for candle_type in [CandleType::Minute, CandleType::Hour, CandleType::Day, CandleType::Month] {
        for t in instants {
            let start = candle_type.get_start_date(t);
            let end = candle_type.get_end_date(t);
            assert!(start <= t && t < end, "{:?} {}", candle_type, t);
            assert_eq!(end - start, candle_type.get_duration(t));
            assert_eq!(candle_type.get_start_date(end), end);
            assert_eq!(candle_type.get_start_date(end - 1), start);
        }
    }
}

#[test]
fn bucket_starts_keep_the_order_of_instants() {
    let instants = [-90_000, -86_401, -86_400, -3_601, -61, -60, -59, -1, 0, 1, 59, 60, 3_600];
    for candle_type in [CandleType::Minute, CandleType::Hour, CandleType::Day, CandleType::Month] {
        for pair in instants.windows(2) {
            assert!(candle_type.get_start_date(pair[0]) <= candle_type.get_start_date(pair[1]));
        }
    }
}

#[test]
fn month_start_before_the_epoch_is_the_first_of_the_month() {
    // 1969-12-31T23:59:59Z lies in December 1969.
    assert_eq!(CandleType::Month.get_start_date(-1), -31 * 86_400);
    // 1969-12-01T00:00:00Z is its own month start.
    assert_eq!(CandleType::Month.get_start_date(-31 * 86_400), -31 * 86_400);
}

#[test]
fn duration_exact_values() {
    let t = 1662559404;
    assert_eq!(CandleType::Minute.get_duration(t), 60);
    assert_eq!(CandleType::Hour.get_duration(t), 3_600);
    assert_eq!(CandleType::Day.get_duration(t), 86_400);
    // September has 30 days.
    assert_eq!(CandleType::Month.get_duration(t), 30 * 86_400);
}

#[test]
fn december_runs_into_january_of_the_next_year() {
    let december = Utc.with_ymd_and_hms(2023, 12, 6, 10, 0, 0).unwrap().timestamp();
    assert_eq!(CandleType::Month.get_duration(december), 31 * 86_400);
    let end = CandleType::Month.get_end_date(december);
    assert_eq!(end, Utc.with_ymd_and_hms(2024, 1, 1, 0, 0, 0).unwrap().timestamp());
}

#[test]
fn february_follows_the_leap_years() {
    let leap = Utc.with_ymd_and_hms(2024, 2, 10, 0, 0, 0).unwrap().timestamp();
    let common = Utc.with_ymd_and_hms(2023, 2, 10, 0, 0, 0).unwrap().timestamp();
    let century = Utc.with_ymd_and_hms(1900, 2, 10, 0, 0, 0).unwrap().timestamp();
    assert_eq!(CandleType::Month.get_duration(leap), 29 * 86_400);
    assert_eq!(CandleType::Month.get_duration(common), 28 * 86_400);
    assert_eq!(CandleType::Month.get_duration(century), 28 * 86_400);
}

#[test]
fn end_date_is_start_plus_duration() {
    let t = 1662559404;
    assert_eq!(CandleType::Minute.get_end_date(t), 1662559440);
    assert_eq!(CandleType::Hour.get_end_date(t), 1662562800);
    assert_eq!(CandleType::Day.get_end_date(t), 1662595200);
    assert_eq!(CandleType::Month.get_end_date(t), 1664582400);
}

#[test]
fn dates_count_uses_the_length_of_the_first_bucket() {
    // From January 2000 to December 2000 there are 335 days; January has 31.
    let from = Utc.with_ymd_and_hms(2000, 1, 1, 0, 0, 0).unwrap().timestamp();
    let to = Utc.with_ymd_and_hms(2000, 12, 1, 0, 0, 0).unwrap().timestamp();
    assert_eq!(CandleType::Month.get_dates_count(from, to), 10);
    // From February 2023 the buckets count as 28 days each.
    let from = Utc.with_ymd_and_hms(2023, 2, 1, 0, 0, 0).unwrap().timestamp();
    let to = Utc.with_ymd_and_hms(2023, 4, 1, 0, 0, 0).unwrap().timestamp();
    assert_eq!(CandleType::Month.get_dates_count(from, to), 2);
}

#[test]
fn dates_count_of_a_backward_span_is_zero() {
    assert_eq!(CandleType::Minute.get_dates_count(600, 0), 0);
    assert_eq!(CandleType::Hour.get_dates_count(1662559404, 1662559404), 0);
    let from = Utc.with_ymd_and_hms(2023, 6, 1, 0, 0, 0).unwrap().timestamp();
    let to = Utc.with_ymd_and_hms(2023, 1, 1, 0, 0, 0).unwrap().timestamp();
    assert_eq!(CandleType::Month.get_dates_count(from, to), 0);
}

#[test]
fn dates_count_ignores_the_place_within_the_bucket() {
    assert_eq!(CandleType::Minute.get_dates_count(59, 60), 1);
    assert_eq!(CandleType::Minute.get_dates_count(0, 59), 0);
    assert_eq!(CandleType::Minute.get_dates_count(30, 150), 2);
}

#[test]
fn start_dates_of_a_backward_span_hold_the_first_bucket_only() {
    let dates = CandleType::Minute.get_start_dates(600, 0);
    assert_eq!(dates.len(), 1);
    assert!(dates.contains(&600));
}

#[test]
fn start_dates_exact_values() {
    let dates = CandleType::Minute.get_start_dates(61, 185);
    let expected: HashSet<i64> = [60, 120, 180].into_iter().collect();
    assert_eq!(dates, expected);
    let dates = CandleType::Minute.get_start_dates(-61, 65);
    let expected: HashSet<i64> = [-120, -60, 0, 60].into_iter().collect();
    assert_eq!(dates, expected);
}

#[test]
fn month_arithmetic_reaches_both_ends_of_the_calendar() {
    let first = -8_334_601_228_800;
    let last = 8_210_266_876_799;
    let last_month = 8_210_264_198_400;
    assert_eq!(CandleType::Month.get_start_date(first), first);
    assert_eq!(CandleType::Month.get_start_date(last), last_month);
    assert_eq!(CandleType::Month.get_duration(first), 31 * 86_400);
    // November of the last year is the last month with a successor.
    assert_eq!(CandleType::Month.get_duration(last_month - 1), 30 * 86_400);
    assert_eq!(CandleType::Month.get_end_date(last_month - 1), last_month);
    assert_eq!(CandleType::Month.get_dates_count(last_month - 1, last), 1);
    let dates = CandleType::Month.get_start_dates(last_month - 40 * 86_400, last_month - 1);
    assert_eq!(dates.len(), 2);
}

#[test]
fn fixed_buckets_reach_both_ends_of_the_integers() {
    // The earliest whole minute and hour that an `i64` holds.
    let first_minute = i64::MIN + 8;
    let first_hour = i64::MIN + 1_808;
    assert_eq!(CandleType::Minute.get_start_date(i64::MAX), i64::MAX - 7);
    assert_eq!(CandleType::Minute.get_start_date(first_minute), first_minute);
    assert_eq!(CandleType::Minute.get_start_date(first_minute + 59), first_minute);
    assert_eq!(CandleType::Day.get_duration(i64::MIN), 86_400);
    assert_eq!(CandleType::Hour.get_dates_count(first_hour, i64::MAX), 5_124_095_576_030_430);
    assert_eq!(CandleType::Hour.get_dates_count(i64::MAX, first_hour), 0);
}
