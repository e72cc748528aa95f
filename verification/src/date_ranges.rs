//! The days for which the archive holds data: a range of dates that passes
//! over a set of days known to be missing.
use vstd::prelude::*;
use std::collections::HashSet;
use crate::snodas::consecutive_days;
use crate::date::{Date, ymd_to_days, is_valid_ymd, epoch_day};

verus! {

broadcast use vstd::std_specs::hash::group_hash_axioms;

/// The days `start, start + 1, ..., end - 1` that are not in `skipping`, in
/// increasing order.
pub open spec fn available_days(start: int, end: int, skipping: Set<i32>) -> Seq<int>
    decreases end - start,
{
    if start >= end {
        seq![]
    } else if skipping.contains(start as i32) {
        available_days(start + 1, end, skipping)
    } else {
        seq![start] + available_days(start + 1, end, skipping)
    }
}

/// The days of `available_days` increase strictly, and they are exactly the
/// days of `start..end` outside `skipping`.
proof fn lemma_available_days(start: int, end: int, skipping: Set<i32>)
    ensures
        forall|i: int, j: int|
            0 <= i < j < available_days(start, end, skipping).len() ==> #[trigger] available_days(
                start,
                end,
                skipping,
            )[i] < #[trigger] available_days(start, end, skipping)[j],
        forall|day: int|
            #[trigger] available_days(start, end, skipping).contains(day) <==> (start <= day < end
                && !skipping.contains(day as i32)),
    decreases end - start,
{
    if start < end {
        lemma_available_days(start + 1, end, skipping);
        let rest = available_days(start + 1, end, skipping);
        if !skipping.contains(start as i32) {
            let all = available_days(start, end, skipping);
            assert(all == seq![start] + rest);
            assert forall|day: int| all.contains(day) <==> (start <= day < end
                && !skipping.contains(day as i32)) by {
                if all.contains(day) {
                    let k = choose|k: int| 0 <= k < all.len() && all[k] == day;
                    if k > 0 {
                        assert(rest[k - 1] == day);
                        assert(rest.contains(day));
                    }
                }
                if start <= day < end && !skipping.contains(day as i32) {
                    if day == start {
                        assert(all[0] == day);
                    } else {
                        assert(rest.contains(day));
                        let k = choose|k: int| 0 <= k < rest.len() && rest[k] == day;
                        assert(all[k + 1] == day);
                    }
                }
            }
            assert forall|i: int, j: int| 0 <= i < j < all.len() implies #[trigger] all[i]
                < #[trigger] all[j] by {
                assert(rest.contains(all[j])) by {
                    assert(rest[j - 1] == all[j]);
                }
                if i > 0 {
                    assert(all[i] == rest[i - 1]);
                }
            }
        }
    }
}

/// Number of the days `start, ..., end - 1` that are in `skipping`.
pub open spec fn skipped_count(start: int, end: int, skipping: Set<i32>) -> int
    decreases end - start,
{
    if start >= end {
        0
    } else {
        (if skipping.contains(start as i32) {
            1int
        } else {
            0int
        }) + skipped_count(start + 1, end, skipping)
    }
}

/// The days of `start..end` that are not skipped are the plain range of
/// days, filtered; as many as the days of the range less the skipped ones.
proof fn lemma_available_is_filtered(start: int, end: int, skipping: Set<i32>)
    ensures
        available_days(start, end, skipping) == consecutive_days(start, end).filter(
            |day: int| !skipping.contains(day as i32),
        ),
        available_days(start, end, skipping).len() == (if start < end {
            end - start
        } else {
            0
        }) - skipped_count(start, end, skipping),
    decreases end - start,
{
    let keep = |day: int| !skipping.contains(day as i32);
    if start >= end {
        assert(consecutive_days(start, end) =~= Seq::<int>::empty());
        reveal(Seq::filter);
    } else {
        lemma_available_is_filtered(start + 1, end, skipping);
        assert(consecutive_days(start, end) =~= seq![start] + consecutive_days(start + 1, end));
        consecutive_days(start + 1, end).lemma_filter_prepend(start, keep);
        if skipping.contains(start as i32) {
            assert(consecutive_days(start, end).filter(keep) =~= consecutive_days(
                start + 1,
                end,
            ).filter(keep));
        } else {
            assert(consecutive_days(start, end).filter(keep) =~= seq![start] + consecutive_days(
                start + 1,
                end,
            ).filter(keep));
        }
    }
}

/// With nothing skipped, the days are the plain range of days.
proof fn lemma_nothing_skipped(start: int, end: int)
    ensures
        available_days(start, end, Set::<i32>::empty()) == consecutive_days(start, end),
    decreases end - start,
{
    if start < end {
        lemma_nothing_skipped(start + 1, end);
        assert(consecutive_days(start, end) =~= seq![start] + consecutive_days(start + 1, end));
    } else {
        assert(consecutive_days(start, end) =~= Seq::<int>::empty());
    }
}

/// Iterates over the days from `start` (included) to `end` (excluded),
/// passing over the days whose number is in `skipping`.
pub struct ShippableDateRange {
    start: Date,
    end: Date,
    skipping: HashSet<i32>,
}

impl View for ShippableDateRange {
    type V = Seq<int>;

    /// The days that are still to come, in order.
    closed spec fn view(&self) -> Seq<int> {
        available_days(self.start@, self.end@, self.skipping@)
    }
}

impl ShippableDateRange {
    /// The day number the range continues from.
    pub closed spec fn start_day(&self) -> int {
        self.start@
    }

    /// The day number the range stops before.
    pub closed spec fn end_day(&self) -> int {
        self.end@
    }

    /// The day numbers that the range passes over.
    pub closed spec fn skipped(&self) -> Set<i32> {
        self.skipping@
    }

    /// The view in terms of the three parts above.
    pub proof fn lemma_view(&self)
        ensures
            self@ == available_days(self.start_day(), self.end_day(), self.skipped()),
    {
    }

    /// Law: the days still to come increase strictly, so the range never
    /// yields a day twice and yields its days in calendar order.
    pub proof fn lemma_days_in_order(&self)
        ensures
            forall|i: int, j: int| 0 <= i < j < self@.len() ==> #[trigger] self@[i] < #[trigger] self@[j],
    {
        lemma_available_days(self.start@, self.end@, self.skipping@);
    }

    /// Law: a day is still to come exactly when it lies between the start
    /// (included) and the end (excluded) and is not skipped.
    pub proof fn lemma_days_exactly(&self, day: int)
        ensures
            self@.contains(day) <==> (self.start_day() <= day < self.end_day()
                && !self.skipped().contains(day as i32)),
    {
        lemma_available_days(self.start@, self.end@, self.skipping@);
    }

    /// Law: the days still to come are those of the plain range from the
    /// same start to the same end, less the skipped ones, in the same order;
    /// with nothing skipped, they are the plain range's days.
    pub proof fn lemma_days_are_filtered_range(&self)
        ensures
            self@ == consecutive_days(self.start_day(), self.end_day()).filter(
                |day: int| !self.skipped().contains(day as i32),
            ),
            self.skipped() == Set::<i32>::empty() ==> self@ == consecutive_days(
                self.start_day(),
                self.end_day(),
            ),
    {
        lemma_available_is_filtered(self.start@, self.end@, self.skipping@);
        if self.skipped() == Set::<i32>::empty() {
            lemma_nothing_skipped(self.start@, self.end@);
        }
    }

    /// Law: the number of days still to come is the number of days from the
    /// start to the end, less the skipped days among them.
    pub proof fn lemma_day_count(&self)
        ensures
            self@.len() == (if self.start_day() < self.end_day() {
                self.end_day() - self.start_day()
            } else {
                0
            }) - skipped_count(self.start_day(), self.end_day(), self.skipped()),
    {
        lemma_available_is_filtered(self.start@, self.end@, self.skipping@);
    }

    pub fn new(start: Date, end: Date, skipping: HashSet<i32>) -> (r: ShippableDateRange)
        ensures
            r.start_day() == start@,
            r.end_day() == end@,
            r.skipped() == skipping@,
    {
        ShippableDateRange { start, end, skipping }
    }

    /// All the days still to come, in the order `next` yields them (what
    /// collecting the range gives): calls `next` until it returns `None`.
    pub fn collect_days(self) -> (r: Vec<Date>)
        ensures
            r@.len() == self@.len(),
            forall|i: int| 0 <= i < r@.len() ==> #[trigger] r@[i]@ == self@[i],
    {
        let ghost all = self@;
        let mut range = self;
        let mut days: Vec<Date> = Vec::new();
        loop
            invariant
                all == self@,
                days@.len() + range@.len() == all.len(),
                forall|i: int| 0 <= i < days@.len() ==> #[trigger] days@[i]@ == all[i],
                forall|i: int| 0 <= i < range@.len() ==> #[trigger] range@[i] == all[days@.len() + i],
            decreases range@.len(),
        {
            match range.next() {
                Some(day) => {
                    days.push(day);
                },
                None => {
                    return days;
                },
            }
        }
    }

    /// The next day of the range that is not skipped.
    pub fn next(&mut self) -> (r: Option<Date>)
        ensures
            old(self)@.len() == 0 ==> r is None && final(self)@ == old(self)@,
            old(self)@.len() > 0 ==> (r matches Some(d) && d@ == old(self)@[0] && final(self)@
                == old(self)@.drop_first()),
            r matches Some(d) ==> final(self).start_day() == d@ + 1,
            r is None ==> final(self).start_day() == if old(self).start_day() < old(
                self,
            ).end_day() {
                old(self).end_day()
            } else {
                old(self).start_day()
            },
            final(self).end_day() == old(self).end_day(),
            final(self).skipped() == old(self).skipped(),
    {
        loop
            invariant
                self@ == old(self)@,
                self.end == old(self).end,
                self.skipping@ == old(self).skipping@,
                self.start@ == old(self).start@ || old(self).start@ < self.start@ <= self.end@,
            decreases self.end@ - self.start@,
        {
            let start_days = self.start.days_from_ce();
            let end_days = self.end.days_from_ce();
            if start_days < end_days {
                let old_start = self.start;
                self.start = old_start.next_day().unwrap();
                if self.skipping.contains(&start_days) {
                    continue;
                }
                return Some(old_start);
            } else {
                return None;
            }
        }
    }
}

/// The day numbers of the days for which the archive holds no data.
pub open spec fn days_without_data_set() -> Set<i32> {
    set![
        ymd_to_days(2004, 2, 25) as i32,
        ymd_to_days(2004, 8, 31) as i32,
        ymd_to_days(2004, 9, 27) as i32,
        ymd_to_days(2005, 6, 25) as i32,
        ymd_to_days(2005, 8, 1) as i32,
        ymd_to_days(2005, 8, 2) as i32,
        ymd_to_days(2006, 8, 25) as i32,
        ymd_to_days(2006, 8, 26) as i32,
        ymd_to_days(2006, 8, 27) as i32,
        ymd_to_days(2006, 9, 8) as i32,
        ymd_to_days(2006, 9, 30) as i32,
        ymd_to_days(2006, 10, 1) as i32,
        ymd_to_days(2007, 2, 14) as i32,
        ymd_to_days(2007, 3, 26) as i32,
        ymd_to_days(2008, 3, 13) as i32,
        ymd_to_days(2008, 6, 13) as i32,
        ymd_to_days(2008, 6, 18) as i32,
        ymd_to_days(2009, 8, 20) as i32,
        ymd_to_days(2012, 12, 20) as i32,
    ]
}

fn insert_day(set: &mut HashSet<i32>, year: i32, month: u32, day: u32)
    requires
        is_valid_ymd(year as int, month as int, day as int),
    ensures
        final(set)@ == old(set)@.insert(ymd_to_days(year as int, month as int, day as int) as i32),
{
    let date = Date::from_ymd_opt(year, month, day).unwrap();
    set.insert(date.days_from_ce());
}

/// The days for which the archive holds no data.
pub fn days_without_data() -> (r: HashSet<i32>)
    ensures
        r@ == days_without_data_set(),
{
    let mut set: HashSet<i32> = HashSet::new();
    insert_day(&mut set, 2004, 2, 25);  // there seems to be nothing on this day
    insert_day(&mut set, 2004, 8, 31);
    insert_day(&mut set, 2004, 9, 27);
    insert_day(&mut set, 2005, 6, 25);
    insert_day(&mut set, 2005, 8, 1);
    insert_day(&mut set, 2005, 8, 2);
    insert_day(&mut set, 2006, 8, 25);
    insert_day(&mut set, 2006, 8, 26);
    insert_day(&mut set, 2006, 8, 27);
    insert_day(&mut set, 2006, 9, 8);
    insert_day(&mut set, 2006, 9, 30);
    insert_day(&mut set, 2006, 10, 1);
    insert_day(&mut set, 2007, 2, 14);
    insert_day(&mut set, 2007, 3, 26);
    insert_day(&mut set, 2008, 3, 13);
    insert_day(&mut set, 2008, 6, 13);
    insert_day(&mut set, 2008, 6, 18);
    insert_day(&mut set, 2009, 8, 20);
    insert_day(&mut set, 2012, 12, 20);
    set
}

/// Law: a range built over the days without data never yields one of them.
pub proof fn lemma_never_yields_missing_day(range: &ShippableDateRange, day: int)
    requires
        range.skipped() == days_without_data_set(),
        range@.contains(day),
    ensures
        !days_without_data_set().contains(day as i32),
{
    range.lemma_days_exactly(day);
}

/// The days from September 30, 2003 (the first day of the archive) up to,
/// not including, `today`, less the days without data.
pub fn days_with_data_until(today: Date) -> (r: ShippableDateRange)
    ensures
        r.start_day() == ymd_to_days(2003, 9, 30),
        r.end_day() == today@,
        r.skipped() == days_without_data_set(),
{
    let first = Date::from_ymd_opt(2003, 9, 30).unwrap();
    ShippableDateRange::new(first, today, days_without_data())
}

/// `days_with_data_until` today in UTC, or `None` when the system clock
/// gives no date (see `Date::today`). Which day today is depends on the
/// clock; it is never before 1970.
pub fn days_with_data() -> (r: Option<ShippableDateRange>)
    ensures
        r matches Some(range) ==> range.start_day() == ymd_to_days(2003, 9, 30)
            && range.end_day() >= epoch_day()
            && range.skipped() == days_without_data_set(),
{
    match Date::today() {
        Some(today) => Some(days_with_data_until(today)),
        None => None,
    }
}

} // verus!
