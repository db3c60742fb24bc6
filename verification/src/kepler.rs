//! Broadcast Keplerian elements per satellite, the "latest wins" cache the
//! external solver queries, and the bounded-iteration bookkeeping of the
//! Kepler-equation solve.
//!
//! The element fields are carried in the exact units the navigation
//! message encodes them in (semicircles, square-root metres); the engine
//! stages them, together with the resolved reference epochs and the query
//! offset `t_k`, for the numerical front end to evaluate.

use crate::cache::{
    count_key, has_key, keys_distinct, latched, lemma_latch_latest_wins, lemma_latched_count,
    lemma_latched_distinct, lemma_latched_lookup, lemma_without_key_contains,
    lemma_without_key_push, without_key,
};
use crate::frames::{Binary64, GpsQzssFrame1, GpsQzssFrame2, GpsQzssFrame3};
use crate::gnss::SV;
use crate::time::Epoch;
use vstd::prelude::*;

verus! {

/// The orbital elements of one validated ephemeris set, with the resolved
/// reference epochs.
#[derive(Clone, Copy, PartialEq, Eq, Structural, Debug)]
pub struct SVKepler {
    pub sv: SV,
    /// Eccentricity, dimensionless.
    pub e: Binary64,
    /// Square root of the semi-major axis, square-root metres.
    pub sqrt_a: Binary64,
    /// Mean anomaly at reference time, semicircles.
    pub m0: Binary64,
    /// Inclination at reference time, semicircles.
    pub i0: Binary64,
    /// Cosine correction to the argument of latitude, radians.
    pub cuc: Binary64,
    /// Sine correction to the argument of latitude, radians.
    pub cus: Binary64,
    /// Cosine correction to the orbital radius, metres.
    pub crc: Binary64,
    /// Sine correction to the orbital radius, metres.
    pub crs: Binary64,
    /// Cosine correction to the inclination, radians.
    pub cic: Binary64,
    /// Sine correction to the inclination, radians.
    pub cis: Binary64,
    /// Inclination rate, semicircles per second.
    pub i_dot: Binary64,
    /// Mean-motion correction, semicircles per second.
    pub delta_n: Binary64,
    /// Broadcast week field of the ephemeris set.
    pub week: u16,
    /// Argument of perigee, semicircles.
    pub omega: Binary64,
    /// Longitude of the ascending node at the weekly epoch, semicircles.
    pub omega0: Binary64,
    /// Rate of the node longitude, semicircles per second.
    pub omega_dot: Binary64,
    /// Resolved reference time of clock.
    pub toc_gpst: Epoch,
    /// Resolved reference time of ephemeris.
    pub toe_gpst: Epoch,
    /// Reference time of ephemeris, seconds of week.
    pub toe_s: u32,
}

/// The elements assembled from one validated subframe triple: a plain
/// regrouping of the broadcast fields around the resolved epochs.
pub open spec fn spec_from_gps(
    sv: SV,
    toe_s: u32,
    toc_gpst: Epoch,
    toe_gpst: Epoch,
    frame1: GpsQzssFrame1,
    frame2: GpsQzssFrame2,
    frame3: GpsQzssFrame3,
) -> SVKepler {
    SVKepler {
        sv,
        e: frame2.e,
        sqrt_a: frame2.sqrt_a,
        m0: frame2.m0,
        i0: frame3.i0,
        cuc: frame2.cuc,
        cus: frame2.cus,
        crc: frame3.crc,
        crs: frame2.crs,
        cic: frame3.cic,
        cis: frame3.cis,
        i_dot: frame3.idot,
        delta_n: frame2.dn,
        week: frame1.week,
        omega: frame3.omega,
        omega0: frame3.omega0,
        omega_dot: frame3.omega_dot,
        toc_gpst,
        toe_gpst,
        toe_s,
    }
}

impl SVKepler {
    /// The resolved reference epochs lie in the supported range.
    pub open spec fn wf(self) -> bool {
        &&& self.toc_gpst.wf()
        &&& self.toe_gpst.wf()
    }

    /// Regroups a validated subframe triple and its resolved reference
    /// epochs into one element set.
    pub fn from_gps(
        sv: SV,
        toe_s: u32,
        toc_gpst: Epoch,
        toe_gpst: Epoch,
        frame1: &GpsQzssFrame1,
        frame2: &GpsQzssFrame2,
        frame3: &GpsQzssFrame3,
    ) -> (r: SVKepler)
        ensures
            r == spec_from_gps(sv, toe_s, toc_gpst, toe_gpst, *frame1, *frame2, *frame3),
    {
        SVKepler {
            sv,
            e: frame2.e,
            sqrt_a: frame2.sqrt_a,
            m0: frame2.m0,
            i0: frame3.i0,
            cuc: frame2.cuc,
            cus: frame2.cus,
            crc: frame3.crc,
            crs: frame2.crs,
            cic: frame3.cic,
            cis: frame3.cis,
            i_dot: frame3.idot,
            delta_n: frame2.dn,
            week: frame1.week,
            omega: frame3.omega,
            omega0: frame3.omega0,
            omega_dot: frame3.omega_dot,
            toc_gpst,
            toe_gpst,
            toe_s,
        }
    }
}

/// The satellite an [`SVKepler`] entry belongs to.
pub open spec fn kepler_key() -> spec_fn(SVKepler) -> SV {
    |k: SVKepler| k.sv
}

/// One staged orbit computation: the cached elements of the queried
/// satellite and the signed offset of the query epoch from the reference
/// time of ephemeris. Everything the Kepler propagation needs, fixed
/// before any floating-point work starts.
#[derive(Clone, Copy, PartialEq, Eq, Structural, Debug)]
pub struct OrbitPropagation {
    pub elements: SVKepler,
    /// `query_epoch - toe`, nanoseconds.
    pub t_k_nanos: i64,
}

/// Per-satellite cache of the most recently latched orbital elements:
/// replace-if-present-else-insert, keyed by satellite id.
pub struct KeplerBuffer {
    buffer: Vec<SVKepler>,
}

impl KeplerBuffer {
    /// The cached entries, oldest first.
    pub closed spec fn view(self) -> Seq<SVKepler> {
        self.buffer@
    }

    /// At most one entry per satellite, every entry with its reference
    /// epochs in range.
    pub open spec fn wf(self) -> bool {
        &&& keys_distinct(self@, kepler_key())
        &&& forall|i: int| 0 <= i < self@.len() ==> (#[trigger] self@[i]).wf()
    }

    pub fn new() -> (b: KeplerBuffer)
        ensures
            b@.len() == 0,
            b.wf(),
    {
        KeplerBuffer { buffer: Vec::new() }
    }

    /// How many satellites the cache holds elements for.
    pub fn len(&self) -> (n: usize)
        ensures
            n == self@.len(),
    {
        self.buffer.len()
    }

    /// Stores the latest orbital elements for `kepler.sv`, replacing
    /// whatever the cache held for that satellite.
    pub fn latch(&mut self, kepler: SVKepler)
        requires
            old(self).wf(),
            kepler.wf(),
        ensures
            final(self)@ == latched(old(self)@, kepler_key(), kepler),
            final(self).wf(),
            has_key(final(self)@, kepler_key(), kepler.sv),
            forall|i: int|
                0 <= i < final(self)@.len() && (#[trigger] final(self)@[i]).sv == kepler.sv
                    ==> final(self)@[i] == kepler,
    {
        let ghost key = kepler_key();
        let mut kept: Vec<SVKepler> = Vec::new();
        let n: usize = self.buffer.len();
        let mut i: usize = 0;
        while i < n
            invariant
                i <= n,
                n == self.buffer@.len(),
                kept@ == without_key(self.buffer@.take(i as int), key, kepler.sv),
                key == kepler_key(),
            decreases n - i,
        {
            let entry = self.buffer[i];
            proof {
                assert(self.buffer@.take(i + 1) =~= self.buffer@.take(i as int).push(
                    self.buffer@[i as int],
                ));
                lemma_without_key_push(
                    self.buffer@.take(i as int),
                    key,
                    kepler.sv,
                    self.buffer@[i as int],
                );
            }
            if entry.sv != kepler.sv {
                kept.push(entry);
            }
            i += 1;
        }
        proof {
            assert(self.buffer@.take(n as int) =~= self.buffer@);
            lemma_latched_distinct(self.buffer@, key, kepler);
            lemma_latched_lookup(self.buffer@, key, kepler);
            let w = without_key(self.buffer@, key, kepler.sv);
            assert forall|i: int| 0 <= i < w.push(kepler).len() implies (#[trigger] w.push(
                kepler,
            )[i]).wf() by {
                if i < w.len() {
                    assert(w.push(kepler)[i] == w[i]);
                    assert(w.contains(w[i]));
                    lemma_without_key_contains(self.buffer@, key, kepler.sv, w[i]);
                    let j = choose|j: int|
                        0 <= j < self.buffer@.len() && self.buffer@[j] == w[i];
                    assert(self.buffer@[j].wf());
                }
            }
        }
        kept.push(kepler);
        self.buffer = kept;
    }

    /// The staged orbit computation for `sv` at `epoch`: the cached
    /// elements and the offset from their reference time of ephemeris, or
    /// nothing while no validated elements were latched for that
    /// satellite.
    pub fn next_at(&self, epoch: Epoch, sv: SV) -> (r: Option<OrbitPropagation>)
        requires
            self.wf(),
            epoch.wf(),
        ensures
            r is Some <==> has_key(self@, kepler_key(), sv),
            forall|i: int|
                0 <= i < self@.len() && (#[trigger] self@[i]).sv == sv ==> r == Some(
                    OrbitPropagation {
                        elements: self@[i],
                        t_k_nanos: (epoch.nanos - self@[i].toe_gpst.nanos) as i64,
                    },
                ),
    {
        let n: usize = self.buffer.len();
        let mut i: usize = 0;
        while i < n
            invariant
                i <= n,
                n == self.buffer@.len(),
                self.wf(),
                epoch.wf(),
                forall|j: int| 0 <= j < i ==> (#[trigger] self.buffer@[j]).sv != sv,
            decreases n - i,
        {
            let entry = self.buffer[i];
            if entry.sv == sv {
                let t_k_nanos: i64 = epoch.nanos_since(&entry.toe_gpst);
                proof {
                    assert forall|j: int|
                        0 <= j < self.buffer@.len() && (#[trigger] self.buffer@[j]).sv
                            == sv implies self.buffer@[j] == self.buffer@[i as int] by {
                        assert(kepler_key()(self.buffer@[j]) == self.buffer@[j].sv);
                        assert(kepler_key()(self.buffer@[i as int]) == self.buffer@[i as int].sv);
                    }
                }
                return Some(OrbitPropagation { elements: entry, t_k_nanos });
            }
            i += 1;
        }
        None
    }
}

/// Latching the elements cache is idempotent under repetition for one
/// satellite: however many times a satellite's elements are latched,
/// exactly one entry for it remains, holding the values of the most recent
/// latch.
pub proof fn lemma_kepler_latch_latest(s: Seq<SVKepler>, first: SVKepler, second: SVKepler)
    requires
        first.sv == second.sv,
    ensures
        latched(latched(s, kepler_key(), first), kepler_key(), second) == latched(
            s,
            kepler_key(),
            second,
        ),
        count_key(latched(s, kepler_key(), second), kepler_key(), second.sv) == 1,
        forall|i: int|
            0 <= i < latched(s, kepler_key(), second).len() && (#[trigger] latched(
                s,
                kepler_key(),
                second,
            )[i]).sv == second.sv ==> latched(s, kepler_key(), second)[i] == second,
{
    lemma_latch_latest_wins(s, kepler_key(), first, second);
    lemma_latched_count(s, kepler_key(), second);
    lemma_latched_lookup(s, kepler_key(), second);
}

/// Hard cap on the Kepler-equation fixed-point iteration.
pub const KEPLER_MAX_ITERATIONS: u32 = 30;

/// Outcome of one round of the Kepler-equation solve.
#[derive(Clone, Copy, PartialEq, Eq, Structural, Debug)]
pub enum KeplerStep {
    /// Not converged yet; the iteration may continue.
    Running,
    /// The last update fell below the convergence tolerance.
    Converged,
    /// The iteration cap was reached without convergence: the computed
    /// position must be reported as numerically unreliable, never as a
    /// silent success.
    Diverged,
}

/// Bounded-iteration bookkeeping for the Kepler-equation solve: counts the
/// rounds, reports convergence when the caller's update fell below the
/// tolerance, and turns hitting the cap into a distinguishable
/// non-convergence outcome.
#[derive(Clone, Copy, PartialEq, Eq, Structural, Debug)]
pub struct KeplerSolver {
    pub iterations: u32,
}

impl KeplerSolver {
    pub fn new() -> (s: KeplerSolver)
        ensures
            s.iterations == 0,
    {
        KeplerSolver { iterations: 0 }
    }

    /// Accounts one iteration round. `delta_below_tolerance` tells whether
    /// the round's update `|E_i - E_{i-1}|` fell below the convergence
    /// tolerance. A run of steps can return [`KeplerStep::Running`] at
    /// most [`KEPLER_MAX_ITERATIONS`] - 1 times: the iteration always
    /// terminates, in convergence or in a reported failure.
    pub fn step(&mut self, delta_below_tolerance: bool) -> (st: KeplerStep)
        requires
            old(self).iterations < KEPLER_MAX_ITERATIONS,
        ensures
            final(self).iterations == old(self).iterations + 1,
            st == (if delta_below_tolerance {
                KeplerStep::Converged
            } else if old(self).iterations + 1 == KEPLER_MAX_ITERATIONS {
                KeplerStep::Diverged
            } else {
                KeplerStep::Running
            }),
            st is Running ==> final(self).iterations < KEPLER_MAX_ITERATIONS,
    {
        self.iterations = self.iterations + 1;
        if delta_below_tolerance {
            KeplerStep::Converged
        } else if self.iterations == KEPLER_MAX_ITERATIONS {
            KeplerStep::Diverged
        } else {
            KeplerStep::Running
        }
    }
}

} // verus!
