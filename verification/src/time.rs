//! GPS-time bookkeeping: absolute epochs on the GPS time scale and the
//! disambiguation of truncated broadcast week numbers.
//!
//! GPST is continuous (no leap seconds), so an absolute epoch is exactly
//! `week * NANOS_PER_WEEK + nanoseconds_into_week`; the engine keeps that
//! integer and leaves any conversion to other time scales to the caller.

use vstd::arithmetic::div_mod::{
    lemma_fundamental_div_mod, lemma_fundamental_div_mod_converse_div,
    lemma_fundamental_div_mod_converse_mod,
};
use vstd::prelude::*;

verus! {

pub const NANOS_PER_SECOND: u64 = 1_000_000_000;

pub const SECONDS_PER_WEEK: u64 = 604_800;

pub const NANOS_PER_WEEK: u64 = 604_800 * 1_000_000_000;

/// Broadcast week fields are transmitted modulo this.
pub const BROADCAST_WEEK_MODULUS: u32 = 1024;

/// Highest week number an [`Epoch`] can carry. Keeps every epoch, and every
/// difference of two epochs, within the signed 64-bit nanosecond range.
pub const MAX_WEEK: u32 = 15_000;

/// An absolute timestamp in the GPS time scale, as nanoseconds since the
/// GPST origin.
#[derive(Clone, Copy, PartialEq, Eq, Structural, Debug)]
pub struct Epoch {
    pub nanos: u64,
}

impl Epoch {
    /// The epoch lies within the week range the engine supports.
    pub open spec fn wf(self) -> bool {
        self.nanos < (MAX_WEEK + 1) * NANOS_PER_WEEK
    }

    /// The week this epoch falls in.
    pub open spec fn spec_week(self) -> int {
        self.nanos as int / NANOS_PER_WEEK as int
    }

    /// Composes a week number and nanoseconds into the week into an
    /// absolute GPST epoch.
    pub fn from_time_of_week(week: u32, tow_nanos: u64) -> (t: Epoch)
        requires
            week <= MAX_WEEK,
            tow_nanos < NANOS_PER_WEEK,
        ensures
            t.nanos == week * NANOS_PER_WEEK + tow_nanos,
            t.wf(),
            t.spec_week() == week,
    {
        let nanos: u64 = (week as u64) * NANOS_PER_WEEK + tow_nanos;
        proof {
            lemma_fundamental_div_mod_converse_div(
                nanos as int,
                NANOS_PER_WEEK as int,
                week as int,
                tow_nanos as int,
            );
        }
        Epoch { nanos }
    }

    /// Splits the epoch back into its week number and the nanoseconds
    /// elapsed within that week.
    pub fn to_time_of_week(&self) -> (r: (u32, u64))
        requires
            self.wf(),
        ensures
            r.0 == self.spec_week(),
            r.0 <= MAX_WEEK,
            r.1 == self.nanos % NANOS_PER_WEEK,
            self.nanos == r.0 * NANOS_PER_WEEK + r.1,
    {
        let week: u64 = self.nanos / NANOS_PER_WEEK;
        let tow: u64 = self.nanos % NANOS_PER_WEEK;
        proof {
            lemma_fundamental_div_mod(self.nanos as int, NANOS_PER_WEEK as int);
        }
        (week as u32, tow)
    }

    /// The week this epoch falls in.
    pub fn week(&self) -> (week: u32)
        requires
            self.wf(),
        ensures
            week == self.spec_week(),
            week <= MAX_WEEK,
    {
        self.to_time_of_week().0
    }

    /// Signed difference `self - other` in nanoseconds.
    pub fn nanos_since(&self, other: &Epoch) -> (dt: i64)
        requires
            self.wf(),
            other.wf(),
        ensures
            dt == self.nanos - other.nanos,
    {
        if self.nanos >= other.nanos {
            (self.nanos - other.nanos) as i64
        } else {
            let gap: u64 = other.nanos - self.nanos;
            -(gap as i64)
        }
    }
}

/// Composes a week number and seconds-of-week into an absolute GPST epoch.
pub fn time_of_week_to_epoch(week: u32, seconds: u64) -> (t: Epoch)
    requires
        week <= MAX_WEEK,
        seconds < SECONDS_PER_WEEK,
    ensures
        t.nanos == (week * SECONDS_PER_WEEK + seconds) * NANOS_PER_SECOND,
        t.wf(),
        t.spec_week() == week,
{
    let t = Epoch::from_time_of_week(week, seconds * NANOS_PER_SECOND);
    proof {
        assert(week * NANOS_PER_WEEK + seconds * NANOS_PER_SECOND == (week * SECONDS_PER_WEEK
            + seconds) * NANOS_PER_SECOND) by (nonlinear_arith);
    }
    t
}

/// The candidate absolute weeks a truncated broadcast week field can stand
/// for: the broadcast value plus a whole number of roll-overs.
pub open spec fn week_candidate(broadcast_week: u16, k: int) -> int {
    broadcast_week + 1024 * k
}

/// Distance between two week numbers.
pub open spec fn week_distance(a: int, b: int) -> int {
    if a >= b {
        a - b
    } else {
        b - a
    }
}

/// The week [`resolve_week`] picks, as a function of its inputs: the
/// broadcast value plus the rounded number of whole roll-overs between it
/// and the observed week.
pub open spec fn spec_resolve_week(observed: int, broadcast: int) -> int {
    if observed <= broadcast {
        broadcast
    } else {
        broadcast + ((observed - broadcast + 512) / 1024) * 1024
    }
}

/// Disambiguates a broadcast week field (transmitted modulo 1024) against
/// the receiver's currently observed absolute week: picks the candidate
/// `broadcast_week + 1024 * k`, `k >= 0`, closest to the observed week.
/// When two candidates are equally close, the later one is chosen.
pub fn resolve_week(observed_week: u32, broadcast_week: u16) -> (week: u32)
    requires
        (broadcast_week as u32) < BROADCAST_WEEK_MODULUS,
        observed_week <= MAX_WEEK,
    ensures
        week == spec_resolve_week(observed_week as int, broadcast_week as int),
        week % 1024 == broadcast_week as u32,
        broadcast_week as u32 <= week,
        week <= (if observed_week <= broadcast_week as u32 {
            broadcast_week as int
        } else {
            observed_week + 512
        }),
        forall|k: int|
            0 <= k ==> #[trigger] week_distance(
                observed_week as int,
                week_candidate(broadcast_week, k),
            ) >= week_distance(observed_week as int, week as int),
{
    let wn: u32 = broadcast_week as u32;
    if observed_week <= wn {
        proof {
            lemma_fundamental_div_mod_converse_mod(wn as int, 1024, 0, wn as int);
            assert forall|k: int| 0 <= k implies #[trigger] week_distance(
                observed_week as int,
                week_candidate(broadcast_week, k),
            ) >= week_distance(observed_week as int, wn as int) by {
                assert(1024 * k >= 0);
            }
        }
        wn
    } else {
        let delta: u32 = observed_week - wn;
        let rollover: u32 = (delta + 512) / 1024;
        let week: u32 = wn + rollover * 1024;
        proof {
            lemma_resolve_week_minimal(observed_week as int, wn as int, delta as int);
            lemma_fundamental_div_mod_converse_mod(week as int, 1024, rollover as int, wn as int);
        }
        week
    }
}

/// The rounded roll-over count `(delta + 512) / 1024` lands on a candidate
/// week no farther from the observed week than any other candidate.
proof fn lemma_resolve_week_minimal(observed: int, wn: int, delta: int)
    requires
        0 <= wn < 1024,
        delta == observed - wn,
        1 <= delta,
    ensures
        ({
            let week = wn + ((delta + 512) / 1024) * 1024;
            &&& forall|k: int|
                0 <= k ==> #[trigger] week_distance(observed, wn + 1024 * k) >= week_distance(
                    observed,
                    week,
                )
            &&& wn <= week <= observed + 512
        }),
{
    let q = delta / 1024;
    let r = delta % 1024;
    lemma_fundamental_div_mod(delta, 1024);
    let k0 = (delta + 512) / 1024;
    if r < 512 {
        lemma_fundamental_div_mod_converse_div(delta + 512, 1024, q, r + 512);
        assert(k0 == q);
    } else {
        assert(delta + 512 == (q + 1) * 1024 + (r - 512));
        lemma_fundamental_div_mod_converse_div(delta + 512, 1024, q + 1, r - 512);
        assert(k0 == q + 1);
    }
    let week = wn + k0 * 1024;
    let chosen = week_distance(observed, week);
    assert(chosen == if r < 512 {
        r
    } else {
        1024 - r
    });
    assert forall|k: int| 0 <= k implies #[trigger] week_distance(observed, wn + 1024 * k)
        >= chosen by {
        if k <= q {
            assert(observed - (wn + 1024 * k) == 1024 * (q - k) + r);
            assert(1024 * (q - k) >= 0);
        } else {
            assert((wn + 1024 * k) - observed == 1024 * (k - q) - r);
            assert(1024 * (k - q) >= 1024);
        }
    }
}

/// The engine's absolute-time source: measurements already arrive in GPST,
/// so no correction is applied when moving epochs between components.
pub struct Time {}

impl Time {
    pub fn new() -> (t: Time) {
        Time {  }
    }

    /// Observes a new externally timestamped epoch; the GPST-only engine
    /// keeps no state for it.
    pub fn new_epoch(&mut self, _t: Epoch)
        ensures
            *final(self) == *old(self),
    {
    }

    /// Corrects an epoch into the engine's time scale; GPST in, GPST out.
    pub fn epoch_correction(&self, t: Epoch) -> (r: Epoch)
        ensures
            r == t,
    {
        t
    }
}

} // verus!
