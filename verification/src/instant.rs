//! Instants on the millisecond line, the grid period, and the two primitives
//! of the time normalizer that are pure arithmetic: the elapsed minutes between
//! two instants and the latest grid point not after "now".

use vstd::prelude::*;
use crate::calendar::{WALL_CLOCK_MIN, WALL_CLOCK_MAX, utc_clock_millis};

verus! {

/// The fixed offset of the local wall clock from UTC, in milliseconds (UTC+8).
/// Timestamps without an explicit offset are read and written on this clock.
pub const LOCAL_OFFSET_MILLIS: i64 = 28_800_000;

pub const MILLIS_PER_MINUTE: i64 = 60_000;

/// The grid period of the upstream verifier, in milliseconds, where none is
/// configured.
pub const DEFAULT_GRID_PERIOD_MILLIS: u64 = 5_000;

/// Whether a count of milliseconds from 1970-01-01T00:00:00 UTC lies in the
/// years 0000 to 9999 of the local wall clock.
pub open spec fn representable(utc_millis: int) -> bool {
    WALL_CLOCK_MIN <= utc_millis + LOCAL_OFFSET_MILLIS <= WALL_CLOCK_MAX
}

/// The signed number of whole minutes from `from` to `to`, cut toward zero.
pub open spec fn elapsed_minutes_spec(from: int, to: int) -> int {
    if to >= from {
        (to - from) / (MILLIS_PER_MINUTE as int)
    } else {
        -((from - to) / (MILLIS_PER_MINUTE as int))
    }
}

/// The number of whole periods that fit between `base` and `now`; zero where
/// `now` lies before `base`.
pub open spec fn grid_steps(base: int, now: int, period: int) -> int
    recommends
        period > 0,
{
    if now < base {
        0
    } else {
        (now - base) / period
    }
}

/// The latest point of the grid `base, base + period, base + 2 * period, ..`
/// that is not after `now`; `base` itself where `now` lies before it.
pub open spec fn quantize_forward_spec(base: int, now: int, period: int) -> int
    recommends
        period > 0,
{
    base + grid_steps(base, now, period) * period
}

/// A point in time: milliseconds from 1970-01-01T00:00:00 UTC, within the
/// years 0000 to 9999 of the local wall clock.
#[derive(Clone, Copy, Debug, PartialEq, Eq, Structural)]
pub struct Instant {
    utc_millis: i64,
}

impl View for Instant {
    type V = int;

    closed spec fn view(&self) -> int {
        self.utc_millis as int
    }
}

impl Instant {
    #[verifier::type_invariant]
    spec fn in_range(self) -> bool {
        representable(self.utc_millis as int)
    }

    /// The instant `utc_millis` milliseconds from the epoch, if the library
    /// can represent it.
    pub fn from_millis(utc_millis: i64) -> (instant: Option<Instant>)
        ensures
            instant is Some <==> representable(utc_millis as int),
            instant is Some ==> instant->0@ == utc_millis,
    {
        if WALL_CLOCK_MIN - LOCAL_OFFSET_MILLIS <= utc_millis && utc_millis <= WALL_CLOCK_MAX
            - LOCAL_OFFSET_MILLIS {
            Some(Instant { utc_millis })
        } else {
            None
        }
    }

    /// The instant at which the local wall clock reads `local_millis`
    /// milliseconds from 1970-01-01T00:00:00, if the library can represent it.
    pub fn from_wall_clock_millis(local_millis: i64) -> (instant: Option<Instant>)
        ensures
            instant is Some <==> representable(local_millis - LOCAL_OFFSET_MILLIS),
            instant is Some ==> instant->0@ == local_millis - LOCAL_OFFSET_MILLIS,
    {
        if WALL_CLOCK_MIN <= local_millis && local_millis <= WALL_CLOCK_MAX {
            Some(Instant { utc_millis: local_millis - LOCAL_OFFSET_MILLIS })
        } else {
            None
        }
    }

    /// The representable instant nearest to `utc_millis`.
    pub fn saturating_from_millis(utc_millis: i64) -> (instant: Instant)
        ensures
            representable(instant@),
            representable(utc_millis as int) ==> instant@ == utc_millis,
            utc_millis + LOCAL_OFFSET_MILLIS < WALL_CLOCK_MIN ==> instant@ == WALL_CLOCK_MIN
                - LOCAL_OFFSET_MILLIS,
            utc_millis + LOCAL_OFFSET_MILLIS > WALL_CLOCK_MAX ==> instant@ == WALL_CLOCK_MAX
                - LOCAL_OFFSET_MILLIS,
    {
        if utc_millis < WALL_CLOCK_MIN - LOCAL_OFFSET_MILLIS {
            Instant { utc_millis: WALL_CLOCK_MIN - LOCAL_OFFSET_MILLIS }
        } else if utc_millis > WALL_CLOCK_MAX - LOCAL_OFFSET_MILLIS {
            Instant { utc_millis: WALL_CLOCK_MAX - LOCAL_OFFSET_MILLIS }
        } else {
            Instant { utc_millis }
        }
    }

    /// The reading of the system clock, brought into the representable range.
    pub fn now() -> (instant: Instant)
        ensures
            representable(instant@),
    {
        Instant::saturating_from_millis(utc_clock_millis())
    }

    /// Milliseconds from 1970-01-01T00:00:00 UTC.
    pub fn millis(&self) -> (utc_millis: i64)
        ensures
            utc_millis == self@,
            representable(self@),
    {
        proof {
            use_type_invariant(self);
        }
        self.utc_millis
    }

    /// Milliseconds from 1970-01-01T00:00:00 on the local wall clock.
    pub fn wall_clock_millis(&self) -> (local_millis: i64)
        ensures
            local_millis == self@ + LOCAL_OFFSET_MILLIS,
            WALL_CLOCK_MIN <= local_millis <= WALL_CLOCK_MAX,
    {
        proof {
            use_type_invariant(self);
        }
        self.utc_millis + LOCAL_OFFSET_MILLIS
    }
}

/// The interval at which the upstream verifier's accepted timestamp advances:
/// a positive number of milliseconds.
#[derive(Clone, Copy, Debug, PartialEq, Eq, Structural)]
pub struct GridPeriod {
    millis: u64,
}

impl View for GridPeriod {
    type V = int;

    closed spec fn view(&self) -> int {
        self.millis as int
    }
}

impl GridPeriod {
    #[verifier::type_invariant]
    spec fn positive(self) -> bool {
        self.millis > 0
    }

    /// A period of `millis` milliseconds; none of zero length.
    pub fn from_millis(millis: u64) -> (period: Option<GridPeriod>)
        ensures
            period is Some <==> millis > 0,
            period is Some ==> period->0@ == millis,
    {
        if millis > 0 {
            Some(GridPeriod { millis })
        } else {
            None
        }
    }

    /// A period of `seconds` seconds; none of zero length, none that does not
    /// fit the millisecond counter.
    pub fn from_seconds(seconds: u64) -> (period: Option<GridPeriod>)
        ensures
            period is Some <==> 0 < seconds * 1000 <= u64::MAX,
            period is Some ==> period->0@ == seconds * 1000,
    {
        if seconds > 0 && seconds <= u64::MAX / 1000 {
            Some(GridPeriod { millis: seconds * 1000 })
        } else {
            None
        }
    }

    /// The period in milliseconds.
    pub fn millis(&self) -> (millis: u64)
        ensures
            millis == self@,
            millis > 0,
    {
        proof {
            use_type_invariant(self);
        }
        self.millis
    }
}

impl Default for GridPeriod {
    /// The default period of five seconds.
    fn default() -> (period: Self)
        ensures
            period@ == DEFAULT_GRID_PERIOD_MILLIS,
    {
        GridPeriod { millis: DEFAULT_GRID_PERIOD_MILLIS }
    }
}

/// Signed whole minutes from `from` to `to`, cut toward zero; negative where
/// `to` lies before `from`.
pub fn elapsed_minutes(from: Instant, to: Instant) -> (minutes: i64)
    ensures
        minutes == elapsed_minutes_spec(from@, to@),
        -6_000_000_000 < minutes < 6_000_000_000,
{
    let a: i64 = from.millis();
    let b: i64 = to.millis();
    if b >= a {
        (b - a) / MILLIS_PER_MINUTE
    } else {
        -((a - b) / MILLIS_PER_MINUTE)
    }
}

/// The latest instant `base + n * period`, `n >= 0`, that is not after `now`;
/// `base` unchanged where `now` lies before it.
pub fn quantize_forward(base: Instant, now: Instant, period: GridPeriod) -> (point: Instant)
    ensures
        point@ == quantize_forward_spec(base@, now@, period@),
        point@ >= base@,
        (point@ - base@) % period@ == 0,
        now@ >= base@ ==> point@ <= now@ < point@ + period@,
        now@ < base@ ==> point@ == base@,
{
    let b: i64 = base.millis();
    let n: i64 = now.millis();
    let p: u64 = period.millis();
    if n < b {
        return base;
    }
    let gap: u64 = (n - b) as u64;
    let steps: u64 = gap / p;
    proof {
        lemma_grid_point(b as int, n as int, p as int);
    }
    let ahead: u64 = steps * p;
    proof {
        use_type_invariant(base);
        use_type_invariant(now);
    }
    Instant { utc_millis: b + (ahead as i64) }
}

/// The grid point of `quantize_forward_spec` lies on the grid of `base`, not
/// before `base`, and, where `now` is not before `base`, in the last period
/// that ends after `now`.
pub proof fn lemma_grid_point(base: int, now: int, period: int)
    requires
        period > 0,
    ensures
        quantize_forward_spec(base, now, period) >= base,
        (quantize_forward_spec(base, now, period) - base) % period == 0,
        now >= base ==> quantize_forward_spec(base, now, period) <= now
            < quantize_forward_spec(base, now, period) + period,
        now < base ==> quantize_forward_spec(base, now, period) == base,
        grid_steps(base, now, period) >= 0,
        now >= base ==> grid_steps(base, now, period) * period == (now - base) - (now - base)
            % period,
{
    let steps = grid_steps(base, now, period);
    if now >= base {
        let gap = now - base;
        assert(gap == period * (gap / period) + gap % period) by (nonlinear_arith)
            requires
                period > 0,
        ;
        assert(0 <= gap % period < period) by (nonlinear_arith)
            requires
                period > 0,
        ;
        assert(gap / period >= 0) by (nonlinear_arith)
            requires
                period > 0,
                gap >= 0,
        ;
        assert(steps * period == period * (gap / period)) by (nonlinear_arith)
            requires
                steps == gap / period,
        ;
        assert((steps * period) % period == 0) by (nonlinear_arith)
            requires
                period > 0,
        ;
    } else {
        assert(0 * period == 0);
        assert(0int % period == 0) by (nonlinear_arith)
            requires
                period > 0,
        ;
    }
}

/// No point of the grid that is not after `now` lies after the one that
/// `quantize_forward_spec` names: it is `base + n * period` for the largest
/// `n >= 0` with `base + n * period <= now`.
pub proof fn lemma_grid_point_is_latest(base: int, now: int, period: int, n: int)
    requires
        period > 0,
        n >= 0,
        base + n * period <= now,
    ensures
        n <= grid_steps(base, now, period),
        base + n * period <= quantize_forward_spec(base, now, period),
{
    let gap = now - base;
    assert(n * period >= 0) by (nonlinear_arith)
        requires
            n >= 0,
            period > 0,
    ;
    assert(n <= gap / period) by (nonlinear_arith)
        requires
            period > 0,
            n * period <= gap,
    ;
    assert(n * period <= grid_steps(base, now, period) * period) by (nonlinear_arith)
        requires
            period > 0,
            n <= grid_steps(base, now, period),
    ;
}

} // verus!
