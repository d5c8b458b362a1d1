//! Time: when generators produce, and when a motion has rested long enough for
//! its result to stand.

use vstd::prelude::*;

verus! {

/// How many seconds pass from one production to the next.
pub const GENERATE_EVERY_SECONDS: i64 = 30;

/// How many minutes a motion's result has to rest before the vote ends.
pub const MOTION_EXPIRATION_MINUTES: i64 = 20;

/// The first second of the year -262143, the earliest that can be represented.
pub const FIRST_SECOND: i64 = -8334601228800;

/// The last second of the year 262142, the latest that can be represented.
pub const LAST_SECOND: i64 = 8210266876799;

/// An instant in universal time: seconds since the start of 1970, and
/// nanoseconds within the second.
#[derive(Clone, Copy, Debug, PartialEq, Eq, Structural)]
pub struct Moment {
    pub secs: i64,
    pub nanos: u32,
}

impl Moment {
    /// Whether the instant can be represented in the calendar.
    pub open spec fn valid(self) -> bool {
        FIRST_SECOND <= self.secs <= LAST_SECOND && self.nanos < 1_000_000_000
    }

    /// The instant in nanoseconds since the start of 1970.
    pub open spec fn instant(self) -> int {
        self.secs * 1_000_000_000 + self.nanos
    }
}

/// The time between two instants, in seconds and nanoseconds.
#[derive(Clone, Copy, Debug, PartialEq, Eq, Structural)]
pub struct Span {
    pub secs: i64,
    pub nanos: i32,
}

impl Span {
    /// The span in nanoseconds.
    pub open spec fn length(self) -> int {
        self.secs * 1_000_000_000 + self.nanos
    }
}

/// Calls the subtraction of two `chrono::DateTime<chrono::Utc>`. The contract
/// claims that the span that results has the length of the difference of the
/// two instants.
#[verifier::external_body]
fn between(later: Moment, earlier: Moment) -> (r: Span)
    requires
        later.valid(),
        earlier.valid(),
    ensures
        r.length() == later.instant() - earlier.instant(),
{
    let a = chrono::DateTime::from_timestamp(later.secs, later.nanos).unwrap();
    let b = chrono::DateTime::from_timestamp(earlier.secs, earlier.nanos).unwrap();
    let span = a - b;
    Span { secs: span.num_seconds(), nanos: span.subsec_nanos() }
}

/// Calls the addition of a `chrono::Duration` of whole seconds to a
/// `chrono::DateTime<chrono::Utc>`. The contract claims that the instant moves
/// by that many seconds.
#[verifier::external_body]
fn seconds_after(t: Moment, seconds: i64) -> (r: Moment)
    requires
        t.valid(),
        FIRST_SECOND <= t.secs + seconds <= LAST_SECOND,
    ensures
        r.secs == t.secs + seconds,
        r.nanos == t.nanos,
{
    let a = chrono::DateTime::from_timestamp(t.secs, t.nanos).unwrap();
    let b = a + chrono::Duration::seconds(seconds);
    Moment { secs: b.timestamp(), nanos: b.timestamp_subsec_nanos() }
}

/// Calls the subtraction of a `chrono::Duration` of whole minutes from a
/// `chrono::DateTime<chrono::Utc>`. The contract claims that the instant moves
/// back by that many minutes.
#[verifier::external_body]
fn minutes_before(t: Moment, minutes: i64) -> (r: Moment)
    requires
        t.valid(),
        FIRST_SECOND <= t.secs - 60 * minutes <= LAST_SECOND,
    ensures
        r.secs == t.secs - 60 * minutes,
        r.nanos == t.nanos,
{
    let a = chrono::DateTime::from_timestamp(t.secs, t.nanos).unwrap();
    let b = a - chrono::Duration::minutes(minutes);
    Moment { secs: b.timestamp(), nanos: b.timestamp_subsec_nanos() }
}

/// The time from one production to the next, in nanoseconds.
pub open spec fn generation_period() -> int {
    GENERATE_EVERY_SECONDS * 1_000_000_000
}

/// The time for which a motion's result has to rest, in nanoseconds.
pub open spec fn resting_time() -> int {
    60 * MOTION_EXPIRATION_MINUTES * 1_000_000_000
}

/// Whether generators are to produce at `now`, when they last did at `last`.
pub fn generation_due(now: Moment, last: Moment) -> (r: bool)
    requires
        now.valid(),
        last.valid(),
    ensures
        r == (now.instant() >= last.instant() + generation_period()),
        r == (now.secs - last.secs > 30 || (now.secs - last.secs == 30 && now.nanos >= last.nanos)),
{
    let span = between(now, last);
    let length: i128 = span.secs as i128 * 1_000_000_000 + span.nanos as i128;
    let period: i128 = GENERATE_EVERY_SECONDS as i128 * 1_000_000_000;
    !(length < period)
}

/// The instant at which a production counts as done, when the one before did
/// at `last`: one period later, however late it really was.
pub fn next_generation(last: Moment) -> (r: Moment)
    requires
        last.valid(),
        last.secs + GENERATE_EVERY_SECONDS <= LAST_SECOND,
    ensures
        r.valid(),
        r.instant() == last.instant() + generation_period(),
        r.secs - last.secs == 30,
        r.nanos == last.nanos,
{
    seconds_after(last, GENERATE_EVERY_SECONDS)
}

/// The instant before which a motion's result has to have changed last, for the
/// vote on it to end at `now`.
pub fn expiration_cutoff(now: Moment) -> (r: Moment)
    requires
        now.valid(),
        now.secs - 60 * MOTION_EXPIRATION_MINUTES >= FIRST_SECOND,
    ensures
        r.valid(),
        r.instant() == now.instant() - resting_time(),
        now.secs - r.secs == 20 * 60,
        r.nanos == now.nanos,
{
    minutes_before(now, MOTION_EXPIRATION_MINUTES)
}

/// The instant of the last production after `n` more of them.
pub open spec fn after_generations(last: int, n: nat) -> int
    decreases n,
{
    if n == 0 {
        last
    } else {
        after_generations(last, (n - 1) as nat) + generation_period()
    }
}

/// Productions are made up for: as long as `n` periods have passed, each of
/// `n` productions in a row finds the next one due.
pub proof fn law_missed_generations_are_made_up(now: int, last: int, n: nat, i: nat)
    requires
        now >= last + n * generation_period(),
        i < n,
    ensures
        after_generations(last, i) == last + i * generation_period(),
        now >= after_generations(last, i) + generation_period(),
    decreases i,
{
    if i > 0 {
        law_missed_generations_are_made_up(now, last, n, (i - 1) as nat);
    }
    assert(i * generation_period() + generation_period() <= n * generation_period())
        by (nonlinear_arith)
        requires
            i + 1 <= n,
            generation_period() >= 0,
    ;
    assert(i > 0 ==> (i - 1) * generation_period() + generation_period() == i
        * generation_period()) by (nonlinear_arith);
}

/// Directly after a production that was due, the next is due only if another
/// whole period has passed.
pub proof fn law_no_early_generation(now: int, last: int)
    ensures
        now >= after_generations(last, 1) + generation_period() <==> now - last >= 2
            * generation_period(),
{
    reveal_with_fuel(after_generations, 2);
}

/// The period is 30 seconds, and the resting time 20 minutes.
pub proof fn law_periods()
    ensures
        generation_period() == 30_000_000_000,
        resting_time() == 1_200_000_000_000,
{
}

/// Instants are ordered by their seconds, and within a second by their
/// nanoseconds; a second has a thousand million of these.
pub proof fn law_order_of_instants(a: Moment, b: Moment, s: Span)
    ensures
        a.nanos < 1_000_000_000 && b.nanos < 1_000_000_000 ==> (a.instant() < b.instant() <==> (a.secs
            < b.secs || (a.secs == b.secs && a.nanos < b.nanos))),
        a.nanos == b.nanos ==> a.instant() - b.instant() == (a.secs - b.secs) * 1_000_000_000,
        a.secs == b.secs ==> a.instant() - b.instant() == a.nanos - b.nanos,
        a.secs == 0 ==> a.instant() == a.nanos,
        s.length() - s.nanos == s.secs * 1_000_000_000,
{
}

/// The instants that the calendar has.
pub proof fn law_instants_of_the_calendar(t: Moment)
    ensures
        t.valid() <==> -8334601228800 <= t.secs <= 8210266876799 && t.nanos < 1_000_000_000,
{
}

} // verus!
