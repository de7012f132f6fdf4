use vstd::prelude::*;

verus! {

/// Milliseconds in one calendar day.
pub const MS_PER_DAY: i64 = 86_400_000;

/// A wall-clock date and time, with no time zone: `day` counts calendar
/// days from 1970-01-01 and `ms_of_day` is the time within that day.
#[derive(Clone, Copy, Debug, PartialEq, Eq, Structural)]
pub struct LocalDateTime {
    pub day: i32,
    pub ms_of_day: u32,
}

/// An instant: a wall-clock date and time together with the UTC offset in
/// force at that instant (local time minus UTC).
#[derive(Clone, Copy, Debug, PartialEq, Eq, Structural)]
pub struct Moment {
    pub day: i32,
    pub ms_of_day: u32,
    pub offset_ms: i32,
}

/// Day of the week of a day number, counted from Monday = 0 to Sunday = 6.
/// Day 0 (1970-01-01) was a Thursday.
pub open spec fn weekday_of(day: int) -> int {
    (day + 3) % 7
}

/// Milliseconds since the Unix epoch of the wall-clock time `ms_of_day`
/// on local day `day` under the offset `offset_ms`.
pub open spec fn epoch_ms(day: int, ms_of_day: int, offset_ms: int) -> int {
    day * MS_PER_DAY + ms_of_day - offset_ms
}

/// An offset that a time zone can have: less than a day either way.
pub open spec fn offset_wf(offset_ms: int) -> bool {
    -MS_PER_DAY < offset_ms < MS_PER_DAY
}

impl LocalDateTime {
    pub open spec fn wf(self) -> bool {
        self.ms_of_day < MS_PER_DAY
    }

    pub open spec fn spec_weekday(self) -> int {
        weekday_of(self.day as int)
    }

    /// Builds a date and time; `None` when the time of day is out of range.
    pub fn new(day: i32, ms_of_day: u32) -> (r: Option<LocalDateTime>)
        ensures
            match r {
                Some(d) => d.wf() && d.day == day && d.ms_of_day == ms_of_day,
                None => ms_of_day >= MS_PER_DAY,
            },
    {
        if ms_of_day as i64 <= 86_399_999 {
            Some(LocalDateTime { day, ms_of_day })
        } else {
            None
        }
    }

    /// Day of the week, Monday = 0 through Sunday = 6.
    pub fn weekday(&self) -> (r: u8)
        ensures
            r as int == self.spec_weekday(),
            r < 7,
    {
        let w = (self.day as i64 + 3) % 7;
        let r: i64 = if w < 0 { w + 7 } else { w };
        assert(r == weekday_of(self.day as int)) by {
            assert((self.day as int + 3) % 7 >= 0);
        }
        r as u8
    }

    /// The instant at which this wall-clock time reads under `offset_ms`,
    /// the offset that the time zone has in force then; `None` when the
    /// offset is a day or more.
    pub fn at_offset(&self, offset_ms: i32) -> (r: Option<Moment>)
        requires
            self.wf(),
        ensures
            match r {
                Some(m) => m.wf() && m.day == self.day && m.ms_of_day == self.ms_of_day
                    && m.offset_ms == offset_ms,
                None => !offset_wf(offset_ms as int),
            },
    {
        if -86_400_000 < offset_ms as i64 && offset_ms as i64 <= 86_399_999 {
            Some(Moment { day: self.day, ms_of_day: self.ms_of_day, offset_ms })
        } else {
            None
        }
    }
}

impl Moment {
    pub open spec fn wf(self) -> bool {
        self.ms_of_day < MS_PER_DAY && offset_wf(self.offset_ms as int)
    }

    /// The wall-clock date and time of the instant.
    pub open spec fn spec_local(self) -> LocalDateTime {
        LocalDateTime { day: self.day, ms_of_day: self.ms_of_day }
    }

    /// The instant as milliseconds since the Unix epoch.
    pub open spec fn spec_timestamp_ms(self) -> int {
        epoch_ms(self.day as int, self.ms_of_day as int, self.offset_ms as int)
    }

    /// Builds a moment; `None` when the time of day or the offset is out of range.
    pub fn new(day: i32, ms_of_day: u32, offset_ms: i32) -> (r: Option<Moment>)
        ensures
            match r {
                Some(m) => m.wf() && m.day == day && m.ms_of_day == ms_of_day && m.offset_ms == offset_ms,
                None => !(ms_of_day < MS_PER_DAY && offset_wf(offset_ms as int)),
            },
    {
        if ms_of_day as i64 <= 86_399_999 && -86_400_000 < offset_ms as i64 && offset_ms as i64 <= 86_399_999 {
            Some(Moment { day, ms_of_day, offset_ms })
        } else {
            None
        }
    }

    /// The wall-clock date and time of the instant.
    pub fn local(&self) -> (r: LocalDateTime)
        ensures
            r == self.spec_local(),
    {
        LocalDateTime { day: self.day, ms_of_day: self.ms_of_day }
    }

    /// Milliseconds since the Unix epoch.
    pub fn timestamp_ms(&self) -> (r: i64)
        requires
            self.wf(),
        ensures
            r == self.spec_timestamp_ms(),
    {
        let d: i64 = self.day as i64;
        assert(-185_542_587_187_200_000 <= d * 86_400_000 <= 185_542_587_100_800_000) by (nonlinear_arith)
            requires -2_147_483_648 <= d <= 2_147_483_647;
        d * MS_PER_DAY + self.ms_of_day as i64 - self.offset_ms as i64
    }
}

/// Number of days from a day of weekday `w` to the Monday that starts the
/// week to book: none on a Monday, else the days up to the coming Monday.
pub open spec fn days_to_monday(w: int) -> int {
    if w == 0 { 0 } else { 7 - w }
}

/// The Monday to book from `d`: `d` itself on a Monday, else the same
/// wall-clock time on the coming Monday.
pub open spec fn next_monday_of(d: LocalDateTime) -> LocalDateTime {
    LocalDateTime {
        day: (d.day + days_to_monday(d.spec_weekday())) as i32,
        ms_of_day: d.ms_of_day,
    }
}

/// The week to book from an instant `now`: on a Monday the Monday is `now`
/// itself, same date, same time of day, same instant under the offset in
/// force; on any other day it is a Monday 1 to 6 days later at the same
/// wall-clock time, whatever offset the zone has in force then.
pub proof fn lemma_next_monday_of_instant(now: Moment, offset_ms: int)
    requires
        now.wf(),
        now.day + 6 <= i32::MAX,
    ensures
        next_monday_of(now.spec_local()).spec_weekday() == 0,
        next_monday_of(now.spec_local()).ms_of_day == now.ms_of_day,
        now.spec_local().spec_weekday() == 0 ==> next_monday_of(now.spec_local()) == now.spec_local()
            && epoch_ms(
            next_monday_of(now.spec_local()).day as int,
            next_monday_of(now.spec_local()).ms_of_day as int,
            now.offset_ms as int,
        ) == now.spec_timestamp_ms(),
        now.spec_local().spec_weekday() != 0 ==> now.day + 1 <= next_monday_of(now.spec_local()).day
            <= now.day + 6 && epoch_ms(
            next_monday_of(now.spec_local()).day as int,
            next_monday_of(now.spec_local()).ms_of_day as int,
            offset_ms,
        ) == epoch_ms(now.day as int, now.ms_of_day as int, offset_ms) + (next_monday_of(
            now.spec_local(),
        ).day - now.day) * MS_PER_DAY,
{
    let d = now.spec_local();
    let w = d.spec_weekday();
    assert(0 <= w < 7);
    assert((d.day as int + days_to_monday(w) + 3) % 7 == 0);
    let n = next_monday_of(d);
    assert(n.day as int == d.day + days_to_monday(w));
    assert(epoch_ms(n.day as int, n.ms_of_day as int, offset_ms) == epoch_ms(
        now.day as int,
        now.ms_of_day as int,
        offset_ms,
    ) + (n.day - now.day) * MS_PER_DAY) by (nonlinear_arith)
        requires
            n.day as int == d.day + days_to_monday(w),
            d.day == now.day,
            n.ms_of_day == now.ms_of_day,
    ;
    if w == 0 {
        assert(n =~= d);
    }
}

/// The Monday to book from `now`: `now` itself on a Monday, otherwise the
/// same wall-clock time on the next Monday. The offset in force on that
/// Monday is for the time zone to tell (see `LocalDateTime::at_offset`).
pub fn next_monday(now: &LocalDateTime) -> (r: LocalDateTime)
    requires
        now.wf(),
        now.day + 6 <= i32::MAX,
    ensures
        r.wf(),
        r == next_monday_of(*now),
        r.ms_of_day == now.ms_of_day,
        r.day == now.day + days_to_monday(now.spec_weekday()),
        r.spec_weekday() == 0,
        now.spec_weekday() == 0 ==> r == *now,
        now.spec_weekday() != 0 ==> now.day + 1 <= r.day <= now.day + 6,
{
    let w = now.weekday();
    if w == 0 {
        *now
    } else {
        let n: u8 = 7 - w;
        let r = LocalDateTime { day: (now.day as i64 + n as i64) as i32, ms_of_day: now.ms_of_day };
        assert(weekday_of(r.day as int) == 0) by {
            assert((now.day as int + 3) % 7 == w);
            assert((now.day as int + 7 - w + 3) % 7 == 0);
        }
        r
    }
}

} // verus!
