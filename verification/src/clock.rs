//! Satellite clock state: the broadcast clock polynomial staged for
//! evaluation, and the per-satellite "latest wins" clock cache.

use crate::cache::{
    count_key, has_key, keys_distinct, latched, lemma_latch_latest_wins, lemma_latched_count,
    lemma_latched_distinct, lemma_latched_lookup, lemma_without_key_push, without_key,
};
use crate::frames::Binary64;
use crate::gnss::SV;
use crate::time::Epoch;
use vstd::prelude::*;

verus! {

/// The clock model of one validated ephemeris set: the polynomial
/// coefficients, the resolved reference time of clock and the group delay.
#[derive(Clone, Copy, PartialEq, Eq, Structural, Debug)]
pub struct ClockPolynomial {
    /// Clock bias, seconds.
    pub af0: Binary64,
    /// Clock drift, seconds per second.
    pub af1: Binary64,
    /// Clock drift rate, seconds per squared second.
    pub af2: Binary64,
    /// Reference time of clock as an absolute GPST epoch.
    pub toc_gpst: Epoch,
    /// Group delay, seconds; handed through for the caller to apply per
    /// signal, never folded into the clock offset.
    pub tgd: Binary64,
}

/// Everything the numerical front end needs to evaluate the clock offset
/// at one query epoch: the polynomial and the raw offset of the query
/// epoch from the reference time of clock.
#[derive(Clone, Copy, PartialEq, Eq, Structural, Debug)]
pub struct ClockCorrection {
    pub polynomial: ClockPolynomial,
    /// `query_epoch - toc`, nanoseconds; the seed of the self-reference
    /// iteration.
    pub dt0_nanos: i64,
}

/// Number of fixed-point rounds the clock offset's self-reference
/// correction runs: the polynomial is defined over the corrected transmit
/// time, so it is re-applied a fixed number of times.
pub const CLOCK_ITERATIONS: u32 = 10;

/// The latest latched clock bias of one satellite.
#[derive(Clone, Copy, PartialEq, Eq, Structural, Debug)]
pub struct SvClock {
    pub sv: SV,
    /// Clock bias, seconds.
    pub af0: Binary64,
}

/// The satellite an [`SvClock`] entry belongs to.
pub open spec fn clock_key() -> spec_fn(SvClock) -> SV {
    |c: SvClock| c.sv
}

/// Per-satellite clock cache: replace-if-present-else-insert, keyed by
/// satellite id.
pub struct ClockBuffer {
    pub buffer: Vec<SvClock>,
}

impl ClockBuffer {
    /// At most one entry per satellite.
    pub open spec fn wf(self) -> bool {
        keys_distinct(self.buffer@, clock_key())
    }

    pub fn new() -> (b: ClockBuffer)
        ensures
            b.buffer@.len() == 0,
            b.wf(),
    {
        ClockBuffer { buffer: Vec::new() }
    }

    /// Stores the latest clock bias for `clock.sv`, replacing whatever the
    /// cache held for that satellite.
    pub fn latch(&mut self, clock: SvClock)
        requires
            old(self).wf(),
        ensures
            final(self).buffer@ == latched(old(self).buffer@, clock_key(), clock),
            final(self).wf(),
            has_key(final(self).buffer@, clock_key(), clock.sv),
            forall|i: int|
                0 <= i < final(self).buffer@.len() && (#[trigger] final(self).buffer@[i]).sv
                    == clock.sv ==> final(self).buffer@[i] == clock,
    {
        let ghost key = clock_key();
        let mut kept: Vec<SvClock> = Vec::new();
        let n: usize = self.buffer.len();
        let mut i: usize = 0;
        while i < n
            invariant
                i <= n,
                n == self.buffer@.len(),
                kept@ == without_key(self.buffer@.take(i as int), key, clock.sv),
                key == clock_key(),
            decreases n - i,
        {
            let entry = self.buffer[i];
            proof {
                assert(self.buffer@.take(i + 1) =~= self.buffer@.take(i as int).push(
                    self.buffer@[i as int],
                ));
                lemma_without_key_push(
                    self.buffer@.take(i as int),
                    key,
                    clock.sv,
                    self.buffer@[i as int],
                );
            }
            if entry.sv != clock.sv {
                kept.push(entry);
            }
            i += 1;
        }
        proof {
            assert(self.buffer@.take(n as int) =~= self.buffer@);
            lemma_latched_distinct(self.buffer@, key, clock);
            lemma_latched_lookup(self.buffer@, key, clock);
        }
        kept.push(clock);
        self.buffer = kept;
    }

    /// The latest latched clock bias of `sv`, or nothing while no clock
    /// state was latched for that satellite yet.
    pub fn clock_correction(&self, sv: SV) -> (r: Option<Binary64>)
        requires
            self.wf(),
        ensures
            r is Some <==> has_key(self.buffer@, clock_key(), sv),
            forall|i: int|
                0 <= i < self.buffer@.len() && (#[trigger] self.buffer@[i]).sv == sv ==> r == Some(
                    self.buffer@[i].af0,
                ),
    {
        let n: usize = self.buffer.len();
        let mut i: usize = 0;
        while i < n
            invariant
                i <= n,
                n == self.buffer@.len(),
                self.wf(),
                forall|j: int| 0 <= j < i ==> (#[trigger] self.buffer@[j]).sv != sv,
            decreases n - i,
        {
            let entry = self.buffer[i];
            if entry.sv == sv {
                proof {
                    assert forall|j: int|
                        0 <= j < self.buffer@.len() && (#[trigger] self.buffer@[j]).sv
                            == sv implies self.buffer@[j] == self.buffer@[i as int] by {
                        assert(clock_key()(self.buffer@[j]) == self.buffer@[j].sv);
                        assert(clock_key()(self.buffer@[i as int]) == self.buffer@[i as int].sv);
                    }
                }
                return Some(entry.af0);
            }
            i += 1;
        }
        None
    }
}

/// Latching the clock cache is idempotent under repetition for one
/// satellite: however many times a satellite's clock state is latched,
/// exactly one entry for it remains, holding the values of the most recent
/// latch.
pub proof fn lemma_clock_latch_latest(s: Seq<SvClock>, first: SvClock, second: SvClock)
    requires
        first.sv == second.sv,
    ensures
        latched(latched(s, clock_key(), first), clock_key(), second) == latched(
            s,
            clock_key(),
            second,
        ),
        count_key(latched(s, clock_key(), second), clock_key(), second.sv) == 1,
        forall|i: int|
            0 <= i < latched(s, clock_key(), second).len() && (#[trigger] latched(
                s,
                clock_key(),
                second,
            )[i]).sv == second.sv ==> latched(s, clock_key(), second)[i] == second,
{
    lemma_latch_latest_wins(s, clock_key(), first, second);
    lemma_latched_count(s, clock_key(), second);
    lemma_latched_lookup(s, clock_key(), second);
}

} // verus!
