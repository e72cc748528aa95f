use snodas::date::{Date, MAX_DAYS, MIN_DAYS};
use snodas::date_ranges::{
    days_with_data, days_with_data_until, days_without_data, ShippableDateRange,
};
use snodas::snodas::DateRange;
use std::collections::HashSet;

fn ymd(y: i32, m: u32, d: u32) -> Date {
    Date::from_ymd_opt(y, m, d).expect("valid date")
}

#[test]
fn day_numbers_follow_the_gregorian_calendar() {
    assert_eq!(ymd(1, 1, 1).days_from_ce(), 1);
    assert_eq!(ymd(0, 12, 31).days_from_ce(), 0);
    assert_eq!(ymd(1999, 9, 3).days_from_ce(), 730000);
    assert_eq!(ymd(2003, 9, 30).days_from_ce(), 731488);
    assert_eq!(ymd(2004, 2, 25).days_from_ce(), 731636);
    assert_eq!(ymd(2004, 3, 1).days_from_ce() - ymd(2004, 2, 28).days_from_ce(), 2);
    assert_eq!(ymd(2003, 3, 1).days_from_ce() - ymd(2003, 2, 28).days_from_ce(), 1);
}

#[test]
fn invalid_dates_are_refused() {
    assert!(Date::from_ymd_opt(2003, 2, 29).is_none());
    assert!(Date::from_ymd_opt(2004, 2, 29).is_some());
    assert!(Date::from_ymd_opt(1900, 2, 29).is_none());
    assert!(Date::from_ymd_opt(2000, 2, 29).is_some());
    assert!(Date::from_ymd_opt(2003, 13, 1).is_none());
    assert!(Date::from_ymd_opt(2003, 0, 1).is_none());
    assert!(Date::from_ymd_opt(2003, 4, 31).is_none());
    assert!(Date::from_ymd_opt(2003, 4, 0).is_none());
    assert!(Date::from_ymd_opt(262143, 1, 1).is_none());
    assert!(Date::from_ymd_opt(-262144, 12, 31).is_none());
}

#[test]
fn range_ends_are_chronos_ends() {
    assert_eq!(ymd(262142, 12, 31).days_from_ce(), MAX_DAYS);
    assert_eq!(ymd(-262143, 1, 1).days_from_ce(), MIN_DAYS);
    assert!(ymd(262142, 12, 31).next_day().is_none());
    assert_eq!(ymd(262142, 12, 30).next_day(), Some(ymd(262142, 12, 31)));
}

#[test]
fn next_day_crosses_months_and_years() {
    assert_eq!(ymd(2003, 9, 30).next_day(), Some(ymd(2003, 10, 1)));
    assert_eq!(ymd(2004, 2, 28).next_day(), Some(ymd(2004, 2, 29)));
    assert_eq!(ymd(2003, 2, 28).next_day(), Some(ymd(2003, 3, 1)));
    assert_eq!(ymd(2003, 12, 31).next_day(), Some(ymd(2004, 1, 1)));
}

#[test]
fn date_range_yields_each_day_in_order() {
    let mut range = DateRange::new(ymd(2003, 12, 30), ymd(2004, 1, 2));
    assert_eq!(range.next(), Some(ymd(2003, 12, 30)));
    assert_eq!(range.next(), Some(ymd(2003, 12, 31)));
    assert_eq!(range.next(), Some(ymd(2004, 1, 1)));
    assert_eq!(range.next(), None);
    assert_eq!(range.next(), None);
}

#[test]
fn empty_and_reversed_date_ranges_yield_nothing() {
    let mut empty = DateRange::new(ymd(2004, 1, 1), ymd(2004, 1, 1));
    assert_eq!(empty.next(), None);
    let mut reversed = DateRange::new(ymd(2004, 1, 2), ymd(2004, 1, 1));
    assert_eq!(reversed.next(), None);
}

#[test]
fn shippable_range_passes_over_skipped_days() {
    let mut skipping = HashSet::new();
    skipping.insert(ymd(2004, 2, 25).days_from_ce());
    skipping.insert(ymd(2004, 2, 27).days_from_ce());
    skipping.insert(ymd(2004, 2, 28).days_from_ce());
    let mut range = ShippableDateRange::new(ymd(2004, 2, 24), ymd(2004, 3, 2), skipping);
    let mut got = Vec::new();
    while let Some(d) = range.next() {
        got.push(d);
    }
    assert_eq!(got, vec![ymd(2004, 2, 24), ymd(2004, 2, 26), ymd(2004, 2, 29), ymd(2004, 3, 1)]);
    assert_eq!(range.next(), None);
}

#[test]
fn shippable_range_with_only_skipped_days_is_empty() {
    let mut skipping = HashSet::new();
    skipping.insert(ymd(2004, 2, 25).days_from_ce());
    skipping.insert(ymd(2004, 2, 26).days_from_ce());
    let mut range = ShippableDateRange::new(ymd(2004, 2, 25), ymd(2004, 2, 27), skipping);
    assert_eq!(range.next(), None);
    assert_eq!(range.next(), None);
}

#[test]
fn shippable_range_skipping_the_first_day() {
    let mut skipping = HashSet::new();
    skipping.insert(ymd(2003, 9, 30).days_from_ce());
    let mut range = ShippableDateRange::new(ymd(2003, 9, 30), ymd(2003, 10, 3), skipping);
    assert_eq!(range.next(), Some(ymd(2003, 10, 1)));
    assert_eq!(range.next(), Some(ymd(2003, 10, 2)));
    assert_eq!(range.next(), None);
}

#[test]
fn days_without_data_lists_the_known_gaps() {
    let set = days_without_data();
    assert_eq!(set.len(), 19);
    for (y, m, d) in [
        (2004, 2, 25), (2004, 8, 31), (2004, 9, 27), (2005, 6, 25), (2005, 8, 1), (2005, 8, 2),
        (2006, 8, 25), (2006, 8, 26), (2006, 8, 27), (2006, 9, 8), (2006, 9, 30), (2006, 10, 1),
        (2007, 2, 14), (2007, 3, 26), (2008, 3, 13), (2008, 6, 13), (2008, 6, 18), (2009, 8, 20),
        (2012, 12, 20),
    ] {
        assert!(set.contains(&ymd(y, m, d).days_from_ce()));
    }
    assert!(!set.contains(&ymd(2004, 2, 24).days_from_ce()));
}

#[test]
fn days_with_data_starts_at_the_archive_start_and_skips_gaps() {
    let mut range = days_with_data().expect("a date from the clock");
    assert_eq!(range.next(), Some(ymd(2003, 9, 30)));
    assert_eq!(range.next(), Some(ymd(2003, 10, 1)));
    let mut previous = ymd(2003, 10, 1);
    let missing = days_without_data();
    // walk to the end of 2004, checking order and gaps
    while let Some(d) = range.next() {
        assert!(previous.days_from_ce() < d.days_from_ce());
        assert!(!missing.contains(&d.days_from_ce()));
        if d.days_from_ce() == ymd(2004, 2, 24).days_from_ce() {
            assert_eq!(range.next(), Some(ymd(2004, 2, 26)));
            break;
        }
        previous = d;
    }
}

#[test]
fn plain_days_with_data_starts_at_the_archive_start() {
    let mut range = snodas::snodas::days_with_data().expect("a date from the clock");
    assert_eq!(range.next(), Some(ymd(2003, 9, 30)));
    assert_eq!(range.next(), Some(ymd(2003, 10, 1)));
}

fn days_in_month(y: i32, m: u32) -> u32 {
    let leap = (y % 4 == 0 && y % 100 != 0) || y % 400 == 0;
    match m {
        2 => if leap { 29 } else { 28 },
        4 | 6 | 9 | 11 => 30,
        _ => 31,
    }
}

#[test]
fn next_day_is_the_following_calendar_date() {
    for y in [1600, 1899, 1900, 1999, 2000, 2003, 2004, 2100, -1, 0, 1] {
        for m in 1..=12u32 {
            for d in 1..=days_in_month(y, m) {
                let date = ymd(y, m, d);
                let (ny, nm, nd) = if d < days_in_month(y, m) {
                    (y, m, d + 1)
                } else if m < 12 {
                    (y, m + 1, 1)
                } else {
                    (y + 1, 1, 1)
                };
                assert_eq!(date.next_day(), Some(ymd(ny, nm, nd)));
                assert_eq!(ymd(ny, nm, nd).days_from_ce(), date.days_from_ce() + 1);
            }
            assert!(Date::from_ymd_opt(y, m, days_in_month(y, m) + 1).is_none());
        }
    }
}

#[test]
fn today_is_after_the_epoch_and_before_the_far_future() {
    let today = Date::today().expect("a date from the clock");
    assert!(today.days_from_ce() >= ymd(2024, 1, 1).days_from_ce());
    assert!(today.days_from_ce() < ymd(3000, 1, 1).days_from_ce());
}

#[test]
fn days_with_data_until_a_given_day() {
    let days = days_with_data_until(ymd(2004, 3, 1)).collect_days();
    assert_eq!(days.first(), Some(&ymd(2003, 9, 30)));
    assert_eq!(days.last(), Some(&ymd(2004, 2, 29)));
    // 153 days from 2003-09-30 to 2004-02-29, less 2004-02-25
    assert_eq!(days.len(), 152);
    assert!(!days.contains(&ymd(2004, 2, 25)));
    let plain = snodas::snodas::days_with_data_until(ymd(2004, 3, 1)).collect_days();
    assert_eq!(plain.len(), 153);
    let filtered: Vec<Date> =
        plain.into_iter().filter(|d| *d != ymd(2004, 2, 25)).collect();
    assert_eq!(filtered, days);
}

#[test]
fn collected_days_match_repeated_next() {
    let mut skipping = HashSet::new();
    skipping.insert(ymd(2004, 2, 27).days_from_ce());
    let collected =
        ShippableDateRange::new(ymd(2004, 2, 26), ymd(2004, 3, 2), skipping).collect_days();
    assert_eq!(collected, vec![ymd(2004, 2, 26), ymd(2004, 2, 28), ymd(2004, 2, 29), ymd(2004, 3, 1)]);
    let plain = DateRange::new(ymd(2004, 2, 26), ymd(2004, 3, 2)).collect_days();
    assert_eq!(plain.len(), 5);
    assert!(DateRange::new(ymd(2004, 3, 2), ymd(2004, 2, 26)).collect_days().is_empty());
}

#[test]
fn unix_time_gives_the_utc_day() {
    assert_eq!(Date::from_unix_time(0, 0), Some(ymd(1970, 1, 1)));
    assert_eq!(Date::from_unix_time(86_399, 999_999_999), Some(ymd(1970, 1, 1)));
    assert_eq!(Date::from_unix_time(86_400, 0), Some(ymd(1970, 1, 2)));
    assert_eq!(Date::from_unix_time(1_431_648_000, 0), Some(ymd(2015, 5, 15)));
    assert_eq!(Date::from_unix_time(59, 1_500_000_000), Some(ymd(1970, 1, 1)));
    assert_eq!(Date::from_unix_time(58, 1_500_000_000), None);
    assert_eq!(Date::from_unix_time(0, 2_000_000_000), None);
    assert_eq!(Date::from_unix_time(u64::MAX, 0), None);
    assert_eq!(Date::from_unix_time(i64::MAX as u64, 0), None);
}
