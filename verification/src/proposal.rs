//! Grouping of one epoch's raw measurements into per-satellite candidate
//! bundles for the external solver.
//!
//! A measurement naming an unsupported constellation identifier is
//! reported and skipped, and processing continues; measurements of one
//! satellite fold into a single candidate, later values overwriting
//! earlier ones.

use crate::cache::{has_key, keys_distinct};
use crate::frames::Binary64;
use crate::gnss::{constellation_of, Error, SV};
use crate::time::Epoch;
use vstd::prelude::*;
use vstd::std_specs::vec::vec_index_mut;

verus! {

/// One raw measurement as the receiver reports it: the wire-format
/// constellation identifier, the slot number and the two observables.
#[derive(Clone, Copy, PartialEq, Eq, Structural, Debug)]
pub struct RawMeasurement {
    pub gnss_id: u8,
    pub sv_id: u8,
    /// Measured pseudo range, metres.
    pub pseudo_range_m: Binary64,
    /// Measured ambiguous phase range, metres.
    pub phase_range_m: Binary64,
}

/// One satellite's measurement bundle at one epoch.
#[derive(Clone, Copy, PartialEq, Eq, Structural, Debug)]
pub struct Candidate {
    pub sv: SV,
    pub t: Epoch,
    /// Measured pseudo range, metres.
    pub pseudo_range_m: Binary64,
    /// Measured ambiguous phase range, metres.
    pub phase_range_m: Binary64,
}

/// The satellite a candidate bundles measurements for.
pub open spec fn candidate_key() -> spec_fn(Candidate) -> SV {
    |c: Candidate| c.sv
}

/// The candidate one measurement contributes at epoch `t`.
pub open spec fn spec_candidate_of(t: Epoch, sv: SV, m: RawMeasurement) -> Candidate {
    Candidate { sv, t, pseudo_range_m: m.pseudo_range_m, phase_range_m: m.phase_range_m }
}

/// The candidates and the reported errors after folding in a prefix of
/// the raw measurements, in arrival order: a supported measurement lands
/// in its satellite's candidate (created on first sight, overwritten by
/// later measurements of the same satellite), an unsupported one adds an
/// error and changes no candidate.
pub open spec fn spec_build(t: Epoch, ms: Seq<RawMeasurement>) -> (Seq<Candidate>, Seq<Error>)
    decreases ms.len(),
{
    if ms.len() == 0 {
        (Seq::<Candidate>::empty(), Seq::<Error>::empty())
    } else {
        let prefix = spec_build(t, ms.drop_last());
        let m = ms.last();
        match constellation_of(m.gnss_id) {
            Err(e) => (prefix.0, prefix.1.push(e)),
            Ok(c) => {
                let sv = SV { constellation: c, prn: m.sv_id };
                if has_key(prefix.0, candidate_key(), sv) {
                    (
                        prefix.0.map_values(
                            |cd: Candidate|
                                if cd.sv == sv {
                                    spec_candidate_of(t, sv, m)
                                } else {
                                    cd
                                },
                        ),
                        prefix.1,
                    )
                } else {
                    (prefix.0.push(spec_candidate_of(t, sv, m)), prefix.1)
                }
            },
        }
    }
}

/// Folds one epoch's raw measurements into per-satellite candidates,
/// reporting each measurement whose constellation identifier the engine
/// does not support and going on with the rest.
pub fn build_proposal(t: Epoch, measurements: &Vec<RawMeasurement>) -> (r: (
    Vec<Candidate>,
    Vec<Error>,
))
    ensures
        (r.0@, r.1@) == spec_build(t, measurements@),
        keys_distinct(r.0@, candidate_key()),
{
    let mut cands: Vec<Candidate> = Vec::new();
    let mut errs: Vec<Error> = Vec::new();
    let n: usize = measurements.len();
    let mut i: usize = 0;
    while i < n
        invariant
            i <= n,
            n == measurements@.len(),
            (cands@, errs@) == spec_build(t, measurements@.take(i as int)),
            keys_distinct(cands@, candidate_key()),
        decreases n - i,
    {
        let m = measurements[i];
        proof {
            assert(measurements@.take(i + 1) =~= measurements@.take(i as int).push(
                measurements@[i as int],
            ));
            assert(measurements@.take(i + 1).drop_last() =~= measurements@.take(i as int));
        }
        match crate::gnss::gnss_rtk_id(m.gnss_id) {
            Err(e) => {
                errs.push(e);
            },
            Ok(constellation) => {
                let sv = SV::new(constellation, m.sv_id);
                let fresh = Candidate {
                    sv,
                    t,
                    pseudo_range_m: m.pseudo_range_m,
                    phase_range_m: m.phase_range_m,
                };
                let len: usize = cands.len();
                let mut j: usize = 0;
                let mut found: bool = false;
                while j < len
                    invariant_except_break
                        !found,
                    invariant
                        j <= len,
                        len == cands@.len(),
                        forall|w: int| 0 <= w < j ==> (#[trigger] cands@[w]).sv != sv,
                    ensures
                        found ==> j < len && cands@[j as int].sv == sv,
                        !found ==> forall|w: int|
                            0 <= w < len ==> (#[trigger] cands@[w]).sv != sv,
                    decreases len - j,
                {
                    if cands[j].sv == sv {
                        found = true;
                        break ;
                    }
                    j += 1;
                }
                if found {
                    proof {
                        assert(has_key(cands@, candidate_key(), sv)) by {
                            assert(candidate_key()(cands@[j as int]) == sv);
                        }
                    }
                    let ghost before = cands@;
                    let entry = vec_index_mut(&mut cands, j);
                    *entry = fresh;
                    proof {
                        let mapped = before.map_values(
                            |cd: Candidate|
                                if cd.sv == sv {
                                    spec_candidate_of(t, sv, m)
                                } else {
                                    cd
                                },
                        );
                        assert forall|w: int| 0 <= w < before.len() implies cands@[w]
                            == mapped[w] by {
                            if w != j as int {
                                assert(candidate_key()(before[w]) == before[w].sv);
                                assert(candidate_key()(before[j as int]) == sv);
                                if w < j as int {
                                    assert(before[w].sv != sv);
                                } else {
                                    assert(before[w].sv != sv);
                                }
                            }
                        }
                        assert(cands@ =~= mapped);
                        assert forall|w1: int, w2: int|
                            0 <= w1 < w2 < cands@.len() implies candidate_key()(
                            #[trigger] cands@[w1],
                        ) != candidate_key()(#[trigger] cands@[w2]) by {
                            assert(cands@[w1].sv == before[w1].sv);
                            assert(cands@[w2].sv == before[w2].sv);
                            assert(candidate_key()(before[w1]) != candidate_key()(before[w2]));
                        }
                    }
                } else {
                    proof {
                        assert(!has_key(cands@, candidate_key(), sv)) by {
                            assert forall|w: int| 0 <= w < cands@.len() implies candidate_key()(
                                #[trigger] cands@[w],
                            ) != sv by {
                                assert(cands@[w].sv != sv);
                            }
                        }
                    }
                    cands.push(fresh);
                    proof {
                        let s = cands@;
                        assert forall|w1: int, w2: int|
                            0 <= w1 < w2 < s.len() implies candidate_key()(#[trigger] s[w1])
                            != candidate_key()(#[trigger] s[w2]) by {
                            if w2 < s.len() - 1 {
                            } else {
                                assert(s[w1].sv != sv);
                            }
                        }
                    }
                }
            },
        }
        i += 1;
    }
    proof {
        assert(measurements@.take(n as int) =~= measurements@);
    }
    (cands, errs)
}

} // verus!
