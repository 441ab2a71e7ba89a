//! Instants in UTC, rolling time windows and their lengths.
use vstd::prelude::*;

verus! {

/// Seconds in one day.
pub const SECS_PER_DAY: i64 = 86_400;

/// Largest distance from the epoch, in seconds, of an instant the library
/// handles (2^42 s, about 139,000 years).
pub const MAX_ABS_SECS: i64 = 4_398_046_511_104;

/// Exclusive bound of the sub-second part; values of 1e9 and above stand
/// for a leap second.
pub const NANOS_LIMIT: u32 = 2_000_000_000;

/// A whole number of days, at least `MAX_ABS_SECS` seconds long; adding it
/// makes every admitted second count non-negative without moving the time
/// of day.
pub const DAY_ALIGNED_OFFSET: i64 = 4_398_046_588_800;

/// A point in time in UTC: whole seconds since 1970-01-01T00:00:00Z and the
/// nanoseconds past them.
#[derive(Clone, Copy, Debug, PartialEq, Eq, Structural)]
pub struct Instant {
    pub secs: i64,
    pub nanos: u32,
}

impl Instant {
    pub open spec fn wf(self) -> bool {
        -MAX_ABS_SECS <= self.secs <= MAX_ABS_SECS && self.nanos < NANOS_LIMIT
    }

    /// The chronological order: seconds first, then the sub-second part.
    pub open spec fn spec_le(self, other: Instant) -> bool {
        self.secs < other.secs || (self.secs == other.secs && self.nanos <= other.nanos)
    }

    /// One integer per instant, increasing with time.
    pub open spec fn key(self) -> int {
        (self.secs + MAX_ABS_SECS) * NANOS_LIMIT + self.nanos
    }

    /// The instant `secs` seconds after the epoch.
    pub fn from_secs(secs: i64) -> (r: Instant)
        requires
            -MAX_ABS_SECS <= secs <= MAX_ABS_SECS,
        ensures
            r.secs == secs,
            r.nanos == 0,
            r.wf(),
    {
        Instant { secs, nanos: 0 }
    }

    /// Whether `self` is not later than `other`.
    pub fn le(&self, other: &Instant) -> (r: bool)
        ensures
            r == self.spec_le(*other),
    {
        self.secs < other.secs || (self.secs == other.secs && self.nanos <= other.nanos)
    }

    /// `self.key()` as a machine integer.
    pub fn rank_key(&self) -> (r: u128)
        requires
            self.wf(),
        ensures
            r as int == self.key(),
    {
        let shifted = (self.secs as i128 + MAX_ABS_SECS as i128) as u128;
        assert(shifted * 2_000_000_000 <= 8_796_093_022_208u128 * 2_000_000_000) by (nonlinear_arith)
            requires shifted <= 8_796_093_022_208u128;
        shifted * (NANOS_LIMIT as u128) + self.nanos as u128
    }

    /// The instant `days` whole days earlier.
    pub fn minus_days(&self, days: i64) -> (r: Instant)
        requires
            self.wf(),
            0 <= days <= 366,
        ensures
            r.secs == self.secs - days * SECS_PER_DAY,
            r.nanos == self.nanos,
    {
        Instant { secs: self.secs - days * SECS_PER_DAY, nanos: self.nanos }
    }
}

/// For valid instants the key order is the chronological order.
pub proof fn lemma_key_order(a: Instant, b: Instant)
    requires
        a.wf(),
        b.wf(),
    ensures
        a.spec_le(b) <==> a.key() <= b.key(),
{
    let x = a.secs + MAX_ABS_SECS;
    let y = b.secs + MAX_ABS_SECS;
    if x < y {
        assert(x * NANOS_LIMIT + NANOS_LIMIT <= y * NANOS_LIMIT) by (nonlinear_arith)
            requires x < y;
    } else if y < x {
        assert(y * NANOS_LIMIT + NANOS_LIMIT <= x * NANOS_LIMIT) by (nonlinear_arith)
            requires y < x;
    }
}

/// The day of the year (1 for January 1) of the UTC date that holds the
/// second `secs` after the epoch.
pub uninterp spec fn ordinal_of(secs: int) -> int;

/// Relies on chrono's `DateTime::from_timestamp`, which returns `Some` for
/// every second count within a few hundred thousand years of the epoch, and
/// `Datelike::ordinal`, which numbers the days of a year from 1 to 366.
#[verifier::external_body]
fn day_of_year(secs: i64) -> (r: Option<u32>)
    requires
        -MAX_ABS_SECS <= secs <= MAX_ABS_SECS,
    ensures
        r is Some,
        r.unwrap() as int == ordinal_of(secs as int),
        1 <= r.unwrap() <= 366,
{
    chrono::DateTime::from_timestamp(secs, 0).map(|d| chrono::Datelike::ordinal(&d))
}

/// Seconds since the epoch and sub-second nanoseconds of the RFC 3339
/// date-time `s`, or `None` when `s` is not one.
pub uninterp spec fn rfc3339_instant(s: Seq<char>) -> Option<(i64, u32)>;

/// Relies on chrono's `DateTime::parse_from_rfc3339` with `timestamp` and
/// `timestamp_subsec_nanos`: the parser reads a four-digit year and an
/// offset under a day, so the seconds stay within years -1 to 10000, and
/// the nanoseconds stay under 2e9 (past 1e9 only in a leap second).
#[verifier::external_body]
fn parse_rfc3339(s: &str) -> (r: Option<(i64, u32)>)
    ensures
        r == rfc3339_instant(s@),
        r matches Some((secs, nanos)) ==> -MAX_ABS_SECS <= secs <= MAX_ABS_SECS && nanos < NANOS_LIMIT,
{
    chrono::DateTime::parse_from_rfc3339(s).ok().map(|d| (d.timestamp(), d.timestamp_subsec_nanos()))
}

/// The instant an RFC 3339 text denotes.
pub open spec fn instant_of(s: Seq<char>) -> Option<Instant> {
    match rfc3339_instant(s) {
        Some((secs, nanos)) => Some(Instant { secs, nanos }),
        None => None,
    }
}

/// Reads an RFC 3339 date-time such as `2024-03-10T12:00:00Z`.
pub fn parse_instant(s: &str) -> (r: Option<Instant>)
    ensures
        r == instant_of(s@),
        r matches Some(t) ==> t.wf(),
{
    match parse_rfc3339(s) {
        Some((secs, nanos)) => Some(Instant { secs, nanos }),
        None => None,
    }
}

/// The rolling windows statistics are kept for.
#[derive(Clone, Copy, Debug, PartialEq, Eq, Hash, Structural)]
pub enum TimeWindow {
    Last24Hours,
    Last30Days,
    YearToDate,
}

/// Length in days of `w` at the instant `now`.
pub open spec fn window_days(w: TimeWindow, now: Instant) -> int {
    match w {
        TimeWindow::Last24Hours => 1,
        TimeWindow::Last30Days => 30,
        TimeWindow::YearToDate => ordinal_of(now.secs as int),
    }
}

/// First instant inside window `w` at `now`: `now` less the window's length.
pub open spec fn window_start(w: TimeWindow, now: Instant) -> Instant {
    Instant { secs: (now.secs - window_days(w, now) * SECS_PER_DAY) as i64, nanos: now.nanos }
}

/// Whether an event at `t` falls in window `w` at `now`.
pub open spec fn in_window(w: TimeWindow, now: Instant, t: Instant) -> bool {
    window_start(w, now).spec_le(t)
}

impl TimeWindow {
    /// The window's length in days at `now`; for the year-to-date window the
    /// day of the year of `now`.
    pub fn to_duration(&self, now: Instant) -> (r: i64)
        requires
            now.wf(),
        ensures
            r == window_days(*self, now),
            1 <= r <= 366,
            *self == TimeWindow::YearToDate ==> r == ordinal_of(now.secs as int),
    {
        match self {
            TimeWindow::Last24Hours => 1,
            TimeWindow::Last30Days => 30,
            TimeWindow::YearToDate => {
                let d = day_of_year(now.secs);
                d.unwrap() as i64
            },
        }
    }

    /// Whether an event at `t` is inside this window at `now`.
    pub fn contains(&self, now: Instant, t: Instant) -> (r: bool)
        requires
            now.wf(),
        ensures
            r == in_window(*self, now, t),
    {
        let days = self.to_duration(now);
        now.minus_days(days).le(&t)
    }
}

/// Midnight of January 1 of the year that holds `now`.
pub open spec fn year_start(now: Instant) -> Instant {
    Instant {
        secs: (now.secs - now.secs % SECS_PER_DAY - (ordinal_of(now.secs as int) - 1) * SECS_PER_DAY) as i64,
        nanos: 0,
    }
}

/// The earliest instant any window reaches back to: the earlier of thirty
/// days before `now` and the start of `now`'s year.
pub open spec fn query_start(now: Instant) -> Instant {
    let a = window_start(TimeWindow::Last30Days, now);
    let b = year_start(now);
    if a.spec_le(b) { a } else { b }
}

/// Start of the time range requested from the paginated sources.
pub fn query_start_of(now: Instant) -> (r: Instant)
    requires
        now.wf(),
    ensures
        r == query_start(now),
{
    let ord = day_of_year(now.secs).unwrap() as i64;
    let shifted = (now.secs + DAY_ALIGNED_OFFSET) as u64;
    let tod = (shifted % (SECS_PER_DAY as u64)) as i64;
    proof {
        let x = now.secs as int;
        assert((x + 50_903_317 * 86_400) % 86_400 == x % 86_400) by {
            vstd::arithmetic::div_mod::lemma_mod_multiples_vanish(50_903_317, x, 86_400);
        }
    }
    let jan1 = Instant { secs: now.secs - tod - (ord - 1) * SECS_PER_DAY, nanos: 0 };
    let back30 = now.minus_days(30);
    if back30.le(&jan1) {
        back30
    } else {
        jan1
    }
}

} // verus!
