//! Per-satellite reassembly of the three navigation-message subframes.
//!
//! Subframes of one satellite arrive in any order and are overwritten in
//! place; a read-only snapshot is handed out only while all three slots
//! are populated and tagged as one ephemeris set (the consistency
//! invariant). A satellite may fall back from "validated" to "not yet
//! validated" when a fresh subframe of the next ephemeris set overwrites
//! one slot: that is an ordinary changeover, not an error.

use crate::cache::{has_key, keys_distinct};
use crate::clock::{ClockCorrection, ClockPolynomial};
use crate::frames::{
    iodc_matches_iode, Binary64, GpsQzssFrame, GpsQzssFrame1, GpsQzssFrame2, GpsQzssFrame3,
    GpsQzssHow, GpsQzssSubframe,
};
use crate::gnss::SV;
use crate::kepler::{spec_from_gps, SVKepler};
use crate::time::{
    resolve_week, spec_resolve_week, Epoch, MAX_WEEK, NANOS_PER_SECOND, NANOS_PER_WEEK,
};
use vstd::prelude::*;
use vstd::std_specs::vec::vec_index_mut;

verus! {

/// A validated ephemeris snapshot: all three subframes of one satellite,
/// tagged as one ephemeris set.
#[derive(Clone, Copy, PartialEq, Eq, Structural, Debug)]
pub struct GpsSvEphemeris {
    pub sv: SV,
    pub how: GpsQzssHow,
    pub frame1: GpsQzssFrame1,
    pub frame2: GpsQzssFrame2,
    pub frame3: GpsQzssFrame3,
}

impl GpsSvEphemeris {
    /// The three subframes belong to one ephemeris set: the two
    /// issue-of-data-ephemeris tags agree, and the low-order bits of the
    /// issue-of-data-clock tag agree with them.
    pub open spec fn consistent(self) -> bool {
        &&& self.frame2.iode == self.frame3.iode
        &&& iodc_matches_iode(self.frame1.iodc, self.frame2.iode)
    }

    /// The integer fields lie in the ranges the message format allows.
    pub open spec fn wf(self) -> bool {
        &&& self.frame1.wf()
        &&& self.frame2.wf()
    }

    /// The query epoch's week leaves room for the roll-over resolution.
    pub open spec fn query_epoch_ok(t: Epoch) -> bool {
        &&& t.wf()
        &&& t.spec_week() + 512 <= MAX_WEEK
    }

    /// The absolute week of this ephemeris set, resolved against the week
    /// the query epoch falls in.
    pub open spec fn spec_week_number(self, t_gpst: Epoch) -> int {
        spec_resolve_week(t_gpst.spec_week(), self.frame1.week as int)
    }

    /// The reference time of clock as nanoseconds on the GPS time scale.
    pub open spec fn spec_toc_nanos(self, t_gpst: Epoch) -> int {
        self.spec_week_number(t_gpst) * NANOS_PER_WEEK + self.frame1.toc * NANOS_PER_SECOND
    }

    /// The reference time of ephemeris as nanoseconds on the GPS time
    /// scale.
    pub open spec fn spec_toe_nanos(self, t_gpst: Epoch) -> int {
        self.spec_week_number(t_gpst) * NANOS_PER_WEEK + self.frame2.toe * NANOS_PER_SECOND
    }

    /// The resolved reference time of clock.
    pub open spec fn spec_toc_gpst(self, t_gpst: Epoch) -> Epoch {
        Epoch { nanos: self.spec_toc_nanos(t_gpst) as u64 }
    }

    /// The resolved reference time of ephemeris.
    pub open spec fn spec_toe_gpst(self, t_gpst: Epoch) -> Epoch {
        Epoch { nanos: self.spec_toe_nanos(t_gpst) as u64 }
    }

    /// The clock model staged for evaluation at `t_gpst`: the subframe 1
    /// coefficients, the resolved reference time of clock and the raw
    /// offset of the query epoch from it.
    pub open spec fn spec_clock_correction(self, t_gpst: Epoch) -> ClockCorrection {
        ClockCorrection {
            polynomial: ClockPolynomial {
                af0: self.frame1.af0,
                af1: self.frame1.af1,
                af2: self.frame1.af2,
                toc_gpst: self.spec_toc_gpst(t_gpst),
                tgd: self.frame1.tgd,
            },
            dt0_nanos: (t_gpst.nanos - self.spec_toc_nanos(t_gpst)) as i64,
        }
    }

    /// Resolves the truncated broadcast week against the week the query
    /// epoch falls in.
    fn week_number(t_gpst: Epoch, wn: u16) -> (week: u32)
        requires
            t_gpst.wf(),
            (wn as u32) < 1024,
            t_gpst.spec_week() + 512 <= MAX_WEEK,
        ensures
            week == spec_resolve_week(t_gpst.spec_week(), wn as int),
            week <= MAX_WEEK,
    {
        let current_week: u32 = t_gpst.week();
        resolve_week(current_week, wn)
    }

    /// The reference time of clock as an absolute GPST epoch, with the
    /// broadcast week disambiguated against the query epoch's week.
    pub fn toc_gpst(&self, t_gpst: Epoch) -> (r: Epoch)
        requires
            self.wf(),
            GpsSvEphemeris::query_epoch_ok(t_gpst),
        ensures
            r == self.spec_toc_gpst(t_gpst),
            r.nanos == self.spec_toc_nanos(t_gpst),
            r.wf(),
    {
        let toc_nanos: u64 = (self.frame1.toc as u64) * NANOS_PER_SECOND;
        let week: u32 = Self::week_number(t_gpst, self.frame1.week);
        Epoch::from_time_of_week(week, toc_nanos)
    }

    /// The reference time of ephemeris as an absolute GPST epoch, with the
    /// broadcast week disambiguated against the query epoch's week.
    pub fn toe_gpst(&self, t_gpst: Epoch) -> (r: Epoch)
        requires
            self.wf(),
            GpsSvEphemeris::query_epoch_ok(t_gpst),
        ensures
            r == self.spec_toe_gpst(t_gpst),
            r.nanos == self.spec_toe_nanos(t_gpst),
            r.wf(),
    {
        let toe_nanos: u64 = (self.frame2.toe as u64) * NANOS_PER_SECOND;
        let week: u32 = Self::week_number(t_gpst, self.frame1.week);
        Epoch::from_time_of_week(week, toe_nanos)
    }

    /// Stages the snapshot's clock model for evaluation at `t`: resolves
    /// the reference time of clock and fixes the seed offset
    /// `dt0 = t - toc`. The group delay rides along unmodified; it is
    /// never folded into the clock offset.
    pub fn clock_correction(&self, t: Epoch) -> (r: ClockCorrection)
        requires
            self.wf(),
            GpsSvEphemeris::query_epoch_ok(t),
        ensures
            r == self.spec_clock_correction(t),
    {
        let toc = self.toc_gpst(t);
        let dt0_nanos: i64 = t.nanos_since(&toc);
        ClockCorrection {
            polynomial: ClockPolynomial {
                af0: self.frame1.af0,
                af1: self.frame1.af1,
                af2: self.frame1.af2,
                toc_gpst: toc,
                tgd: self.frame1.tgd,
            },
            dt0_nanos,
        }
    }

    /// Derives the snapshot's orbital elements, with both reference times
    /// resolved to absolute epochs.
    pub fn to_kepler(&self, t_gpst: Epoch) -> (r: SVKepler)
        requires
            self.wf(),
            GpsSvEphemeris::query_epoch_ok(t_gpst),
        ensures
            r == spec_from_gps(
                self.sv,
                self.frame2.toe,
                self.spec_toc_gpst(t_gpst),
                self.spec_toe_gpst(t_gpst),
                self.frame1,
                self.frame2,
                self.frame3,
            ),
            r.wf(),
    {
        let toe_s: u32 = self.frame2.toe;
        let toc = self.toc_gpst(t_gpst);
        let toe = self.toe_gpst(t_gpst);
        SVKepler::from_gps(self.sv, toe_s, toc, toe, &self.frame1, &self.frame2, &self.frame3)
    }
}

/// The per-satellite accumulator: up to one instance of each subframe
/// variant, each overwritten in place whenever a fresh instance arrives.
#[derive(Clone, Copy, PartialEq, Eq, Structural, Debug)]
pub struct GpsPendingSvEphemeris {
    pub sv: SV,
    pub how: GpsQzssHow,
    pub frame1: Option<GpsQzssFrame1>,
    pub frame2: Option<GpsQzssFrame2>,
    pub frame3: Option<GpsQzssFrame3>,
}

impl GpsPendingSvEphemeris {
    /// Whatever subframes are present lie in the message format's ranges.
    pub open spec fn wf(self) -> bool {
        &&& (self.frame1 is Some ==> self.frame1->0.wf())
        &&& (self.frame2 is Some ==> self.frame2->0.wf())
    }

    /// All three subframe slots are populated.
    pub open spec fn complete(self) -> bool {
        &&& self.frame1 is Some
        &&& self.frame2 is Some
        &&& self.frame3 is Some
    }

    /// The accumulator can hand out a snapshot: all three slots populated
    /// and tagged as one ephemeris set.
    pub open spec fn valid(self) -> bool {
        &&& self.complete()
        &&& self.frame2->0.iode == self.frame3->0.iode
        &&& iodc_matches_iode(self.frame1->0.iodc, self.frame2->0.iode)
    }

    /// The snapshot a valid accumulator hands out.
    pub open spec fn snapshot(self) -> GpsSvEphemeris {
        GpsSvEphemeris {
            sv: self.sv,
            how: self.how,
            frame1: self.frame1->0,
            frame2: self.frame2->0,
            frame3: self.frame3->0,
        }
    }

    /// A fresh accumulator holding its first subframe.
    pub open spec fn spec_new(sv: SV, frame: GpsQzssFrame) -> GpsPendingSvEphemeris {
        match frame.subframe {
            GpsQzssSubframe::Ephemeris1(f1) => GpsPendingSvEphemeris {
                sv,
                how: frame.how,
                frame1: Some(f1),
                frame2: None,
                frame3: None,
            },
            GpsQzssSubframe::Ephemeris2(f2) => GpsPendingSvEphemeris {
                sv,
                how: frame.how,
                frame1: None,
                frame2: Some(f2),
                frame3: None,
            },
            GpsQzssSubframe::Ephemeris3(f3) => GpsPendingSvEphemeris {
                sv,
                how: frame.how,
                frame1: None,
                frame2: None,
                frame3: Some(f3),
            },
        }
    }

    /// The accumulator after a subframe arrival: the matching slot is
    /// overwritten, the other two keep their contents.
    pub open spec fn spec_update(self, frame: GpsQzssFrame) -> GpsPendingSvEphemeris {
        match frame.subframe {
            GpsQzssSubframe::Ephemeris1(f1) => GpsPendingSvEphemeris {
                sv: self.sv,
                how: frame.how,
                frame1: Some(f1),
                frame2: self.frame2,
                frame3: self.frame3,
            },
            GpsQzssSubframe::Ephemeris2(f2) => GpsPendingSvEphemeris {
                sv: self.sv,
                how: frame.how,
                frame1: self.frame1,
                frame2: Some(f2),
                frame3: self.frame3,
            },
            GpsQzssSubframe::Ephemeris3(f3) => GpsPendingSvEphemeris {
                sv: self.sv,
                how: frame.how,
                frame1: self.frame1,
                frame2: self.frame2,
                frame3: Some(f3),
            },
        }
    }

    /// Starts accumulating for `sv` from its first decoded frame.
    pub fn new(sv: SV, frame: GpsQzssFrame) -> (r: GpsPendingSvEphemeris)
        requires
            frame.wf(),
        ensures
            r == GpsPendingSvEphemeris::spec_new(sv, frame),
            r.wf(),
    {
        match frame.subframe {
            GpsQzssSubframe::Ephemeris1(f1) => GpsPendingSvEphemeris {
                sv,
                how: frame.how,
                frame1: Some(f1),
                frame2: None,
                frame3: None,
            },
            GpsQzssSubframe::Ephemeris2(f2) => GpsPendingSvEphemeris {
                sv,
                how: frame.how,
                frame1: None,
                frame2: Some(f2),
                frame3: None,
            },
            GpsQzssSubframe::Ephemeris3(f3) => GpsPendingSvEphemeris {
                sv,
                how: frame.how,
                frame1: None,
                frame2: None,
                frame3: Some(f3),
            },
        }
    }

    /// Stores the decoded frame in the matching slot; never blocks, never
    /// fails.
    pub fn update(&mut self, frame: GpsQzssFrame)
        requires
            old(self).wf(),
            frame.wf(),
        ensures
            *final(self) == old(self).spec_update(frame),
            final(self).wf(),
    {
        self.how = frame.how;
        match frame.subframe {
            GpsQzssSubframe::Ephemeris1(f1) => {
                self.frame1 = Some(f1);
            },
            GpsQzssSubframe::Ephemeris2(f2) => {
                self.frame2 = Some(f2);
            },
            GpsQzssSubframe::Ephemeris3(f3) => {
                self.frame3 = Some(f3);
            },
        }
    }

    /// Hands out a snapshot exactly when all three slots are populated and
    /// the issue-of-data tags pair them as one ephemeris set; anything
    /// else is "not yet ready", never an error. With no intervening
    /// update, repeated calls return the same result: the outcome is a
    /// function of the accumulator state alone.
    pub fn validate(&self) -> (r: Option<GpsSvEphemeris>)
        ensures
            r is Some <==> self.valid(),
            r is Some ==> r->0 == self.snapshot(),
            self.wf() && r is Some ==> r->0.wf(),
    {
        if let Some(frame1) = self.frame1.as_ref() {
            if let Some(frame2) = self.frame2.as_ref() {
                if let Some(frame3) = self.frame3.as_ref() {
                    if frame2.iode == frame3.iode {
                        if frame1.iodc % 256 == frame2.iode as u16 {
                            return Some(
                                GpsSvEphemeris {
                                    sv: self.sv,
                                    how: self.how,
                                    frame1: *frame1,
                                    frame2: *frame2,
                                    frame3: *frame3,
                                },
                            );
                        }
                    }
                }
            }
        }
        None
    }
}

/// A satellite whose subframe 3 has not arrived is never ready: no
/// snapshot, and so no position and no clock model, can come from it.
pub proof fn lemma_incomplete_never_ready(p: GpsPendingSvEphemeris)
    requires
        p.frame3 is None,
    ensures
        !p.valid(),
{
}

/// The satellite a pending accumulator belongs to.
pub open spec fn pending_key() -> spec_fn(GpsPendingSvEphemeris) -> SV {
    |p: GpsPendingSvEphemeris| p.sv
}

/// All tracked satellites' accumulators, keyed by satellite id.
pub struct EphemerisBuffer {
    pub buffer: Vec<GpsPendingSvEphemeris>,
}

impl EphemerisBuffer {
    /// At most one accumulator per satellite, each well formed.
    pub open spec fn wf(self) -> bool {
        &&& keys_distinct(self.buffer@, pending_key())
        &&& forall|i: int| 0 <= i < self.buffer@.len() ==> (#[trigger] self.buffer@[i]).wf()
    }

    pub fn new() -> (b: EphemerisBuffer)
        ensures
            b.buffer@.len() == 0,
            b.wf(),
    {
        EphemerisBuffer { buffer: Vec::new() }
    }

    /// Routes a decoded frame to its satellite's accumulator, creating the
    /// accumulator on the satellite's first frame.
    pub fn update(&mut self, sv: SV, frame: GpsQzssFrame)
        requires
            old(self).wf(),
            frame.wf(),
        ensures
            final(self).wf(),
            has_key(final(self).buffer@, pending_key(), sv),
            has_key(old(self).buffer@, pending_key(), sv) ==> {
                &&& final(self).buffer@.len() == old(self).buffer@.len()
                &&& (forall|j: int|
                    0 <= j < old(self).buffer@.len() && (#[trigger] old(self).buffer@[j]).sv != sv
                        ==> final(self).buffer@[j] == old(self).buffer@[j])
                &&& (forall|j: int|
                    0 <= j < old(self).buffer@.len() && (#[trigger] old(self).buffer@[j]).sv == sv
                        ==> final(self).buffer@[j] == old(self).buffer@[j].spec_update(frame))
            },
            !has_key(old(self).buffer@, pending_key(), sv) ==> final(self).buffer@ == old(
                self,
            ).buffer@.push(GpsPendingSvEphemeris::spec_new(sv, frame)),
    {
        let n: usize = self.buffer.len();
        let mut i: usize = 0;
        while i < n
            invariant
                i <= n,
                n == self.buffer@.len(),
                *self == *old(self),
                self.wf(),
                frame.wf(),
                forall|j: int| 0 <= j < i ==> (#[trigger] self.buffer@[j]).sv != sv,
            decreases n - i,
        {
            if self.buffer[i].sv == sv {
                proof {
                    assert forall|j: int|
                        0 <= j < self.buffer@.len() && (#[trigger] self.buffer@[j]).sv
                            == sv implies j == i as int by {
                        assert(pending_key()(self.buffer@[j]) == self.buffer@[j].sv);
                        assert(pending_key()(self.buffer@[i as int]) == self.buffer@[i as int].sv);
                    }
                    assert(has_key(self.buffer@, pending_key(), sv)) by {
                        assert(pending_key()(self.buffer@[i as int]) == sv);
                    }
                }
                let entry = vec_index_mut(&mut self.buffer, i);
                entry.update(frame);
                proof {
                    assert forall|j: int| 0 <= j < self.buffer@.len() implies (
                    #[trigger] self.buffer@[j]).wf() by {
                        if j != i as int {
                            assert(self.buffer@[j] == old(self).buffer@[j]);
                        }
                    }
                    assert forall|j1: int, j2: int|
                        0 <= j1 < j2 < self.buffer@.len() implies pending_key()(
                        #[trigger] self.buffer@[j1],
                    ) != pending_key()(#[trigger] self.buffer@[j2]) by {
                        assert(self.buffer@[j1].sv == old(self).buffer@[j1].sv);
                        assert(self.buffer@[j2].sv == old(self).buffer@[j2].sv);
                        assert(pending_key()(old(self).buffer@[j1]) != pending_key()(
                            old(self).buffer@[j2],
                        ));
                    }
                }
                return ;
            }
            i += 1;
        }
        let fresh = GpsPendingSvEphemeris::new(sv, frame);
        self.buffer.push(fresh);
        proof {
            let s = self.buffer@;
            assert(s[s.len() - 1].sv == sv);
            assert(has_key(s, pending_key(), sv)) by {
                assert(pending_key()(s[s.len() - 1]) == sv);
            }
            assert(!has_key(old(self).buffer@, pending_key(), sv)) by {
                assert forall|j: int| 0 <= j < old(self).buffer@.len() implies pending_key()(
                    #[trigger] old(self).buffer@[j],
                ) != sv by {
                    assert(old(self).buffer@[j].sv != sv);
                }
            }
            assert forall|j1: int, j2: int| 0 <= j1 < j2 < s.len() implies pending_key()(
                #[trigger] s[j1],
            ) != pending_key()(#[trigger] s[j2]) by {
                if j2 < s.len() - 1 {
                    assert(pending_key()(old(self).buffer@[j1]) != pending_key()(
                        old(self).buffer@[j2],
                    ));
                } else {
                    assert(s[j1].sv != sv);
                }
            }
        }
    }

    /// The staged clock model of `sv` at `t`, or nothing while the
    /// satellite has no validated ephemeris.
    pub fn clock_correction(&self, t: Epoch, sv: SV) -> (r: Option<ClockCorrection>)
        requires
            self.wf(),
            GpsSvEphemeris::query_epoch_ok(t),
        ensures
            r is Some <==> exists|i: int|
                0 <= i < self.buffer@.len() && (#[trigger] self.buffer@[i]).sv == sv
                    && self.buffer@[i].valid(),
            forall|i: int|
                0 <= i < self.buffer@.len() && (#[trigger] self.buffer@[i]).sv == sv
                    && self.buffer@[i].valid() ==> r == Some(
                    self.buffer@[i].snapshot().spec_clock_correction(t),
                ),
    {
        let n: usize = self.buffer.len();
        let mut i: usize = 0;
        while i < n
            invariant
                i <= n,
                n == self.buffer@.len(),
                self.wf(),
                GpsSvEphemeris::query_epoch_ok(t),
                forall|j: int| 0 <= j < i ==> (#[trigger] self.buffer@[j]).sv != sv,
            decreases n - i,
        {
            let entry = &self.buffer[i];
            if entry.sv == sv {
                proof {
                    assert forall|j: int|
                        0 <= j < self.buffer@.len() && (#[trigger] self.buffer@[j]).sv
                            == sv implies j == i as int by {
                        assert(pending_key()(self.buffer@[j]) == self.buffer@[j].sv);
                        assert(pending_key()(self.buffer@[i as int]) == self.buffer@[i as int].sv);
                    }
                }
                return match entry.validate() {
                    Some(validated) => Some(validated.clock_correction(t)),
                    None => None,
                };
            }
            i += 1;
        }
        None
    }

    /// The group delay of `sv`'s validated ephemeris, handed through as a
    /// duration for the caller to apply per signal, or nothing while the
    /// satellite has no validated ephemeris.
    pub fn tgd(&self, sv: SV) -> (r: Option<Binary64>)
        requires
            self.wf(),
        ensures
            r is Some <==> exists|i: int|
                0 <= i < self.buffer@.len() && (#[trigger] self.buffer@[i]).sv == sv
                    && self.buffer@[i].valid(),
            forall|i: int|
                0 <= i < self.buffer@.len() && (#[trigger] self.buffer@[i]).sv == sv
                    && self.buffer@[i].valid() ==> r == Some(
                    self.buffer@[i].snapshot().frame1.tgd,
                ),
    {
        let n: usize = self.buffer.len();
        let mut i: usize = 0;
        while i < n
            invariant
                i <= n,
                n == self.buffer@.len(),
                self.wf(),
                forall|j: int| 0 <= j < i ==> (#[trigger] self.buffer@[j]).sv != sv,
            decreases n - i,
        {
            let entry = &self.buffer[i];
            if entry.sv == sv {
                proof {
                    assert forall|j: int|
                        0 <= j < self.buffer@.len() && (#[trigger] self.buffer@[j]).sv
                            == sv implies j == i as int by {
                        assert(pending_key()(self.buffer@[j]) == self.buffer@[j].sv);
                        assert(pending_key()(self.buffer@[i as int]) == self.buffer@[i as int].sv);
                    }
                }
                return match entry.validate() {
                    Some(validated) => Some(validated.frame1.tgd),
                    None => None,
                };
            }
            i += 1;
        }
        None
    }
}

} // verus!
