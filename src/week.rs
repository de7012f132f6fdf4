use vstd::prelude::*;

use crate::calendar::LocalDateTime;

verus! {

/// Number of working days booked per week, Monday through Friday.
pub const WORK_DAYS: u8 = 5;

/// Why booking a day failed.
#[derive(Clone, Copy, Debug, PartialEq, Eq, Structural)]
#[allow(non_camel_case_types)]
pub enum BookingError {
    /// No failure.
    NO_ERROR,
    /// The request could not be sent or its answer not received.
    HTTP_ERROR,
    /// The service rejected the booking (already booked, invalid, ...).
    BOOK_ERROR,
    /// The request body could not be built.
    PAYLOAD_ERROR,
}

/// Only a transport failure stops the rest of the week.
pub open spec fn is_fatal(outcome: Result<(), BookingError>) -> bool {
    outcome == Err::<(), BookingError>(BookingError::HTTP_ERROR)
}

/// Progress of a week's booking: days attempted so far, and whether a
/// fatal failure stopped it.
pub struct WeekProgress {
    pub attempted: nat,
    pub aborted: bool,
}

/// The progress after one more day's outcome.
pub open spec fn step(p: WeekProgress, outcome: Result<(), BookingError>) -> WeekProgress {
    WeekProgress { attempted: p.attempted + 1, aborted: is_fatal(outcome) }
}

/// Whether another day is still to be booked.
pub open spec fn is_active(p: WeekProgress) -> bool {
    !p.aborted && p.attempted < WORK_DAYS
}

/// The progress after the service answered the days' requests with
/// `outcomes`, in order; outcomes past the point where the week stops are
/// never asked for and so change nothing.
pub open spec fn run(outcomes: Seq<Result<(), BookingError>>) -> WeekProgress
    decreases outcomes.len(),
{
    if outcomes.len() == 0 {
        WeekProgress { attempted: 0, aborted: false }
    } else {
        let p = run(outcomes.drop_last());
        if is_active(p) {
            step(p, outcomes.last())
        } else {
            p
        }
    }
}

/// Day `i` of the week that starts on `monday`, at Monday's wall-clock
/// time of day.
pub open spec fn plan_day(monday: LocalDateTime, i: int) -> LocalDateTime {
    LocalDateTime { day: (monday.day + i) as i32, ms_of_day: monday.ms_of_day }
}

/// The days whose booking was requested, in order.
pub open spec fn calls(monday: LocalDateTime, outcomes: Seq<Result<(), BookingError>>) -> Seq<
    LocalDateTime,
> {
    Seq::new(run(outcomes).attempted, |i: int| plan_day(monday, i))
}

/// Every day of the week starting on `monday` is a day number that fits.
pub open spec fn week_fits(monday: LocalDateTime) -> bool {
    monday.day + WORK_DAYS - 1 <= i32::MAX
}

/// What the week comes to once it stopped: `None` while days remain.
pub open spec fn week_result(p: WeekProgress) -> Option<Result<(), BookingError>> {
    if p.aborted {
        Some(Err(BookingError::HTTP_ERROR))
    } else if p.attempted >= WORK_DAYS {
        Some(Ok(()))
    } else {
        None
    }
}

/// The booking of one work week, Monday through Friday, one day at a
/// time. The caller asks for the next day, sends its booking and records
/// the outcome, until a result is available.
pub struct WeekBooking {
    monday: LocalDateTime,
    attempted: u8,
    aborted: bool,
    refused: bool,
}

impl WeekBooking {
    pub closed spec fn spec_monday(&self) -> LocalDateTime {
        self.monday
    }

    pub closed spec fn progress(&self) -> WeekProgress {
        WeekProgress { attempted: self.attempted as nat, aborted: self.aborted }
    }

    /// Whether the week was aborted before any request, as no booking
    /// request could be built for it.
    pub closed spec fn spec_refused(&self) -> bool {
        self.refused
    }

    pub closed spec fn wf(&self) -> bool {
        self.monday.wf() && week_fits(self.monday) && self.attempted <= WORK_DAYS && (self.refused ==> self.aborted
            && self.attempted == 0)
    }

    /// Starts booking the week that begins on `monday`.
    pub fn new(monday: LocalDateTime) -> (r: WeekBooking)
        requires
            monday.wf(),
            week_fits(monday),
        ensures
            r.wf(),
            r.spec_monday() == monday,
            r.progress() == run(Seq::empty()),
            !r.spec_refused(),
    {
        WeekBooking { monday, attempted: 0, aborted: false, refused: false }
    }

    /// A week aborted before its first day: no day is to be booked, and
    /// its result is `Err(PAYLOAD_ERROR)`.
    pub fn refused(monday: LocalDateTime) -> (r: WeekBooking)
        requires
            monday.wf(),
            week_fits(monday),
        ensures
            r.wf(),
            r.spec_monday() == monday,
            r.progress() == (WeekProgress { attempted: 0, aborted: true }),
            r.spec_refused(),
    {
        WeekBooking { monday, attempted: 0, aborted: true, refused: true }
    }

    /// The next day to book, at the Monday's wall-clock time of day;
    /// `None` once the week has stopped. The instant to send is that
    /// wall-clock time under the offset the time zone has in force then.
    pub fn next_day(&self) -> (r: Option<LocalDateTime>)
        requires
            self.wf(),
        ensures
            is_active(self.progress()) <==> r is Some,
            r is Some ==> r->0 == plan_day(self.spec_monday(), self.progress().attempted as int)
                && r->0.wf(),
    {
        if self.aborted || self.attempted >= WORK_DAYS {
            None
        } else {
            Some(LocalDateTime { day: (self.monday.day as i64 + self.attempted as i64) as i32, ms_of_day: self.monday.ms_of_day })
        }
    }

    /// Records what booking the day from `next_day` came to.
    pub fn record(&mut self, outcome: Result<(), BookingError>)
        requires
            old(self).wf(),
            is_active(old(self).progress()),
        ensures
            final(self).wf(),
            final(self).spec_monday() == old(self).spec_monday(),
            !final(self).spec_refused(),
            final(self).progress() == step(old(self).progress(), outcome),
    {
        self.attempted = self.attempted + 1;
        self.aborted = match outcome {
            Err(BookingError::HTTP_ERROR) => true,
            _ => false,
        };
    }

    /// The week's result once it stopped: `Err(PAYLOAD_ERROR)` when it
    /// was refused, `Err(HTTP_ERROR)` after a transport failure, else
    /// `Ok(())` when all five days were tried, however many of them the
    /// service rejected.
    pub fn result(&self) -> (r: Option<Result<(), BookingError>>)
        requires
            self.wf(),
        ensures
            r == if self.spec_refused() {
                Some(Err(BookingError::PAYLOAD_ERROR))
            } else {
                week_result(self.progress())
            },
    {
        if self.refused {
            Some(Err(BookingError::PAYLOAD_ERROR))
        } else if self.aborted {
            Some(Err(BookingError::HTTP_ERROR))
        } else if self.attempted >= WORK_DAYS {
            Some(Ok(()))
        } else {
            None
        }
    }
}

/// Recording the outcome of the next day while the week is active moves
/// its progress from `run(outcomes)` to `run(outcomes.push(outcome))`, as
/// `WeekBooking::record` does: a booking driven through `next_day` and
/// `record` is at every point the `run` of the outcomes recorded so far.
pub proof fn lemma_record_extends_run(
    outcomes: Seq<Result<(), BookingError>>,
    outcome: Result<(), BookingError>,
)
    requires
        is_active(run(outcomes)),
    ensures
        run(outcomes.push(outcome)) == step(run(outcomes), outcome),
{
    assert(outcomes.push(outcome).drop_last() =~= outcomes);
}

/// While no day failed fatally, every outcome moves the week one day on.
proof fn lemma_run_prefix(outcomes: Seq<Result<(), BookingError>>, n: int)
    requires
        0 <= n <= outcomes.len(),
        n <= WORK_DAYS,
        forall|j: int| 0 <= j < n ==> !is_fatal(#[trigger] outcomes[j]),
    ensures
        run(outcomes.take(n)) == (WeekProgress { attempted: n as nat, aborted: false }),
    decreases n,
{
    if n > 0 {
        lemma_run_prefix(outcomes, n - 1);
        assert(outcomes.take(n).drop_last() =~= outcomes.take(n - 1));
    }
}

/// Once the week stopped, later outcomes change nothing.
proof fn lemma_run_stopped(outcomes: Seq<Result<(), BookingError>>, n: int)
    requires
        0 <= n <= outcomes.len(),
        !is_active(run(outcomes.take(n))),
    ensures
        run(outcomes) == run(outcomes.take(n)),
    decreases outcomes.len() - n,
{
    if n < outcomes.len() {
        assert(outcomes.take(n + 1).drop_last() =~= outcomes.take(n));
        lemma_run_stopped(outcomes, n + 1);
    } else {
        assert(outcomes.take(n) =~= outcomes);
    }
}

/// Without a transport failure, a week makes exactly five booking
/// requests, Monday through Friday in that order, each at Monday's
/// wall-clock time of day, and succeeds.
pub proof fn lemma_full_week(monday: LocalDateTime, outcomes: Seq<Result<(), BookingError>>)
    requires
        outcomes.len() == WORK_DAYS,
        forall|j: int| 0 <= j < outcomes.len() ==> !is_fatal(#[trigger] outcomes[j]),
    ensures
        calls(monday, outcomes) =~= Seq::new(WORK_DAYS as nat, |i: int| plan_day(monday, i)),
        week_result(run(outcomes)) == Some(Ok::<(), BookingError>(())),
{
    lemma_run_prefix(outcomes, WORK_DAYS as int);
    assert(outcomes.take(WORK_DAYS as int) =~= outcomes);
}

/// A transport failure on day `k` stops the week there: the requests for
/// days `0..=k` were made, none after, and the week fails.
pub proof fn lemma_transport_error_stops(
    monday: LocalDateTime,
    outcomes: Seq<Result<(), BookingError>>,
    k: int,
)
    requires
        0 <= k < WORK_DAYS,
        k < outcomes.len(),
        is_fatal(outcomes[k]),
        forall|j: int| 0 <= j < k ==> !is_fatal(#[trigger] outcomes[j]),
    ensures
        run(outcomes).attempted == k + 1,
        calls(monday, outcomes) =~= Seq::new((k + 1) as nat, |i: int| plan_day(monday, i)),
        week_result(run(outcomes)) == Some(Err::<(), BookingError>(BookingError::HTTP_ERROR)),
{
    lemma_run_prefix(outcomes, k);
    assert(outcomes.take(k + 1).drop_last() =~= outcomes.take(k));
    lemma_run_stopped(outcomes, k + 1);
}

/// A rejected booking on day `k` does not stop the week: the request for
/// the next day is still made.
pub proof fn lemma_booking_error_continues(outcomes: Seq<Result<(), BookingError>>, k: int)
    requires
        0 <= k < WORK_DAYS - 1,
        k + 1 < outcomes.len(),
        outcomes[k] == Err::<(), BookingError>(BookingError::BOOK_ERROR),
        forall|j: int| 0 <= j < k ==> !is_fatal(#[trigger] outcomes[j]),
    ensures
        run(outcomes).attempted >= k + 2,
{
    assert forall|j: int| 0 <= j < k + 1 implies !is_fatal(#[trigger] outcomes[j]) by {
        if j == k {
            assert(outcomes[k] != Err::<(), BookingError>(BookingError::HTTP_ERROR));
        }
    }
    lemma_run_prefix(outcomes, k + 1);
    lemma_run_monotone(outcomes, k + 1);
}

/// The count of attempted days never goes down as outcomes come in.
proof fn lemma_run_monotone(outcomes: Seq<Result<(), BookingError>>, n: int)
    requires
        0 <= n <= outcomes.len(),
    ensures
        run(outcomes).attempted >= run(outcomes.take(n)).attempted,
        is_active(run(outcomes.take(n))) && n < outcomes.len() ==> run(outcomes).attempted
            > run(outcomes.take(n)).attempted,
    decreases outcomes.len() - n,
{
    if n < outcomes.len() {
        lemma_run_monotone(outcomes, n + 1);
        assert(outcomes.take(n + 1).drop_last() =~= outcomes.take(n));
    } else {
        assert(outcomes.take(n) =~= outcomes);
    }
}

} // verus!
