//! The plain range of days, with no day passed over.
use vstd::prelude::*;
use crate::date::{Date, ymd_to_days, epoch_day};

verus! {

/// The days `start, start + 1, ..., end - 1`, in order.
pub open spec fn consecutive_days(start: int, end: int) -> Seq<int> {
    Seq::new(if start < end { (end - start) as nat } else { 0 }, |i: int| start + i)
}

/// Iterates over the days from `start` (included) to `end` (excluded).
pub struct DateRange {
    start: Date,
    end: Date,
}

impl View for DateRange {
    type V = Seq<int>;

    /// The days that are still to come, in order.
    closed spec fn view(&self) -> Seq<int> {
        consecutive_days(self.start@, self.end@)
    }
}

impl DateRange {
    /// The day number the range continues from.
    pub closed spec fn start_day(&self) -> int {
        self.start@
    }

    /// The day number the range stops before.
    pub closed spec fn end_day(&self) -> int {
        self.end@
    }

    /// The view in terms of the two ends.
    pub proof fn lemma_view(&self)
        ensures
            self@ == consecutive_days(self.start_day(), self.end_day()),
    {
    }

    pub fn new(start: Date, end: Date) -> (r: DateRange)
        ensures
            r.start_day() == start@,
            r.end_day() == end@,
    {
        DateRange { start, end }
    }

    /// All the days still to come, in the order `next` yields them (what
    /// collecting the range gives): calls `next` until it returns `None`.
    pub fn collect_days(self) -> (r: Vec<Date>)
        ensures
            r@.len() == self@.len(),
            forall|i: int| 0 <= i < r@.len() ==> #[trigger] r@[i]@ == self@[i],
    {
        let ghost all = self@;
        let mut range = self;
        let mut days: Vec<Date> = Vec::new();
        loop
            invariant
                all == self@,
                days@.len() + range@.len() == all.len(),
                forall|i: int| 0 <= i < days@.len() ==> #[trigger] days@[i]@ == all[i],
                forall|i: int| 0 <= i < range@.len() ==> #[trigger] range@[i] == all[days@.len() + i],
            decreases range@.len(),
        {
            match range.next() {
                Some(day) => {
                    days.push(day);
                },
                None => {
                    return days;
                },
            }
        }
    }

    /// The next day of the range.
    pub fn next(&mut self) -> (r: Option<Date>)
        ensures
            old(self)@.len() == 0 ==> r is None && *final(self) == *old(self),
            old(self)@.len() > 0 ==> (r matches Some(d) && d@ == old(self)@[0] && final(self)@
                == old(self)@.drop_first() && final(self).start_day() == d@ + 1),
            final(self).end_day() == old(self).end_day(),
    {
        let start_days = self.start.days_from_ce();
        let end_days = self.end.days_from_ce();
        if start_days < end_days {
            let old_start = self.start;
            self.start = old_start.next_day().unwrap();
            assert(self@ =~= old(self)@.drop_first());
            Some(old_start)
        } else {
            None
        }
    }

    /// Law: the range yields each day from its start to its end, one day
    /// after the other.
    pub proof fn lemma_consecutive(&self)
        ensures
            forall|i: int| 0 <= i < self@.len() ==> #[trigger] self@[i] == self.start_day() + i,
            self@.len() == if self.start_day() < self.end_day() {
                self.end_day() - self.start_day()
            } else {
                0
            },
    {
    }
}

/// The days from September 30, 2003 (the first day of the archive) up to,
/// not including, `today`.
pub fn days_with_data_until(today: Date) -> (r: DateRange)
    ensures
        r.start_day() == ymd_to_days(2003, 9, 30),
        r.end_day() == today@,
{
    let first = Date::from_ymd_opt(2003, 9, 30).unwrap();
    DateRange::new(first, today)
}

/// `days_with_data_until` today in UTC, or `None` when the system clock
/// gives no date (see `Date::today`). Which day today is depends on the
/// clock; it is never before 1970.
pub fn days_with_data() -> (r: Option<DateRange>)
    ensures
        r matches Some(range) ==> range.start_day() == ymd_to_days(2003, 9, 30)
            && range.end_day() >= epoch_day(),
{
    match Date::today() {
        Some(today) => Some(days_with_data_until(today)),
        None => None,
    }
}

} // verus!
