//! End-to-end checks of the subframe assembler, the validation invariant,
//! the clock staging and the per-satellite element caches.

use rt_navi::clock::{ClockBuffer, SvClock};
use rt_navi::ephemeris::{EphemerisBuffer, GpsPendingSvEphemeris, GpsSvEphemeris};
use rt_navi::frames::{
    Binary64, GpsQzssFrame, GpsQzssFrame1, GpsQzssFrame2, GpsQzssFrame3, GpsQzssHow,
    GpsQzssSubframe,
};
use rt_navi::gnss::{Constellation, SV};
use rt_navi::kepler::{KeplerBuffer, KeplerSolver, KeplerStep, KEPLER_MAX_ITERATIONS};
use rt_navi::time::{Epoch, NANOS_PER_WEEK};

fn b64(x: f64) -> Binary64 {
    Binary64 { bits: x.to_bits() }
}

fn how(tow: u32) -> GpsQzssHow {
    GpsQzssHow { tow, alert: false, anti_spoofing: false }
}

fn frame1(week: u16, iodc: u16, toc: u32, af0: f64, af1: f64, af2: f64) -> GpsQzssFrame1 {
    GpsQzssFrame1 {
        week,
        iodc,
        toc,
        tgd: b64(4.65e-9),
        af2: b64(af2),
        af1: b64(af1),
        af0: b64(af0),
    }
}

fn frame2(iode: u8, toe: u32, sqrt_a: f64, e: f64, m0: f64) -> GpsQzssFrame2 {
    GpsQzssFrame2 {
        toe,
        iode,
        m0: b64(m0),
        dn: b64(0.0),
        cuc: b64(0.0),
        cus: b64(0.0),
        crs: b64(0.0),
        e: b64(e),
        sqrt_a: b64(sqrt_a),
    }
}

fn frame3(iode: u8, i0: f64, omega0: f64, omega: f64) -> GpsQzssFrame3 {
    GpsQzssFrame3 {
        cic: b64(0.0),
        cis: b64(0.0),
        crc: b64(0.0),
        i0: b64(i0),
        iode,
        idot: b64(0.0),
        omega0: b64(omega0),
        omega: b64(omega),
        omega_dot: b64(0.0),
    }
}

fn wrap1(f: GpsQzssFrame1) -> GpsQzssFrame {
    GpsQzssFrame { how: how(1), subframe: GpsQzssSubframe::Ephemeris1(f) }
}

fn wrap2(f: GpsQzssFrame2) -> GpsQzssFrame {
    GpsQzssFrame { how: how(2), subframe: GpsQzssSubframe::Ephemeris2(f) }
}

fn wrap3(f: GpsQzssFrame3) -> GpsQzssFrame {
    GpsQzssFrame { how: how(3), subframe: GpsQzssSubframe::Ephemeris3(f) }
}

fn gps(prn: u8) -> SV {
    SV::new(Constellation::GPS, prn)
}

/// The reference scenario: broadcast week field 142 resolves to week 2190
/// against a query epoch in that week.
fn scenario_pending() -> GpsPendingSvEphemeris {
    let mut pending = GpsPendingSvEphemeris::new(gps(7), wrap1(frame1(142, 5, 0, 1.0e-5, 0.0, 0.0)));
    pending.update(wrap2(frame2(5, 0, 5153.6, 0.001, 0.0)));
    pending.update(wrap3(frame3(5, 0.95, 0.0, 0.0)));
    pending
}

#[test]
fn validate_needs_all_three_subframes() {
    let f1 = wrap1(frame1(142, 5, 0, 1.0e-5, 0.0, 0.0));
    let f2 = wrap2(frame2(5, 0, 5153.6, 0.001, 0.0));
    let f3 = wrap3(frame3(5, 0.95, 0.0, 0.0));

    let mut pending = GpsPendingSvEphemeris::new(gps(7), f1);
    assert!(pending.validate().is_none());
    pending.update(f2);
    assert!(pending.validate().is_none());
    pending.update(f3);
    assert!(pending.validate().is_some());
}

#[test]
fn validate_rejects_iode_mismatch() {
    let mut pending = scenario_pending();
    assert!(pending.validate().is_some());
    // An ephemeris changeover overwrites subframe 2 with the next set.
    pending.update(wrap2(frame2(6, 7200, 5153.6, 0.001, 0.0)));
    assert!(pending.validate().is_none());
    pending.update(wrap3(frame3(6, 0.95, 0.0, 0.0)));
    // Subframes 2 and 3 agree again, but the clock tag still pairs with
    // the old set.
    assert!(pending.validate().is_none());
    pending.update(wrap1(frame1(142, 6, 7200, 1.0e-5, 0.0, 0.0)));
    assert!(pending.validate().is_some());
}

#[test]
fn validate_checks_low_bits_of_iodc() {
    // 0x105 and 0x005 share their low byte: both pair with IODE 5.
    let mut pending = scenario_pending();
    pending.update(wrap1(frame1(142, 0x105, 0, 1.0e-5, 0.0, 0.0)));
    assert!(pending.validate().is_some());
    pending.update(wrap1(frame1(142, 6, 0, 1.0e-5, 0.0, 0.0)));
    assert!(pending.validate().is_none());
}

#[test]
fn validate_is_repeatable() {
    let pending = scenario_pending();
    let a = pending.validate().unwrap();
    let b = pending.validate().unwrap();
    assert_eq!(a, b);
}

#[test]
fn snapshot_carries_the_scenario_fields() {
    let snapshot = scenario_pending().validate().unwrap();
    assert_eq!(snapshot.sv, gps(7));
    assert_eq!(snapshot.frame1.af0, b64(1.0e-5));
    assert_eq!(snapshot.frame2.sqrt_a, b64(5153.6));
    assert_eq!(snapshot.frame2.e, b64(0.001));
    assert_eq!(snapshot.frame3.i0, b64(0.95));
}

#[test]
fn clock_staging_at_toc_seeds_zero_offset() {
    let snapshot = scenario_pending().validate().unwrap();
    // Query exactly at the reference time of clock: week 2190, 0 s.
    let t = Epoch::from_time_of_week(2190, 0);
    let staged = snapshot.clock_correction(t);
    assert_eq!(staged.dt0_nanos, 0);
    assert_eq!(staged.polynomial.af0, b64(1.0e-5));
    assert_eq!(staged.polynomial.af1, b64(0.0));
    assert_eq!(staged.polynomial.af2, b64(0.0));
    assert_eq!(staged.polynomial.toc_gpst.nanos, 2190 * NANOS_PER_WEEK);
    assert_eq!(staged.polynomial.tgd, b64(4.65e-9));
}

#[test]
fn week_rollover_resolution_spans_the_truncated_field() {
    let snapshot = scenario_pending().validate().unwrap();
    let t = Epoch::from_time_of_week(2190, 3_600_000_000_000);
    // 142 + 2 * 1024 = 2190: the resolved toc lands in the query's week.
    assert_eq!(snapshot.toc_gpst(t).nanos, 2190 * NANOS_PER_WEEK);
    assert_eq!(snapshot.toe_gpst(t).nanos, 2190 * NANOS_PER_WEEK);
    let staged = snapshot.clock_correction(t);
    assert_eq!(staged.dt0_nanos, 3_600_000_000_000);
}

#[test]
fn to_kepler_stages_the_raw_elements() {
    let snapshot = scenario_pending().validate().unwrap();
    let t = Epoch::from_time_of_week(2190, 0);
    let elements = snapshot.to_kepler(t);
    assert_eq!(elements.sv, gps(7));
    assert_eq!(elements.sqrt_a, b64(5153.6));
    assert_eq!(elements.e, b64(0.001));
    assert_eq!(elements.m0, b64(0.0));
    assert_eq!(elements.i0, b64(0.95));
    assert_eq!(elements.week, 142);
    assert_eq!(elements.toe_s, 0);
    assert_eq!(elements.toe_gpst.nanos, 2190 * NANOS_PER_WEEK);
    assert_eq!(elements.toc_gpst.nanos, 2190 * NANOS_PER_WEEK);
}

#[test]
fn ephemeris_buffer_routes_frames_per_satellite() {
    let mut buffer = EphemerisBuffer::new();
    let t = Epoch::from_time_of_week(2190, 0);

    buffer.update(gps(7), wrap1(frame1(142, 5, 0, 1.0e-5, 0.0, 0.0)));
    buffer.update(gps(9), wrap1(frame1(142, 3, 0, 2.0e-5, 0.0, 0.0)));
    buffer.update(gps(7), wrap2(frame2(5, 0, 5153.6, 0.001, 0.0)));
    buffer.update(gps(7), wrap3(frame3(5, 0.95, 0.0, 0.0)));

    let staged = buffer.clock_correction(t, gps(7)).unwrap();
    assert_eq!(staged.polynomial.af0, b64(1.0e-5));
    // Satellite 9 has two slots empty: no clock model yet.
    assert!(buffer.clock_correction(t, gps(9)).is_none());
    assert!(buffer.clock_correction(t, gps(11)).is_none());

    assert_eq!(buffer.tgd(gps(7)), Some(b64(4.65e-9)));
    assert_eq!(buffer.tgd(gps(9)), None);
}

#[test]
fn incomplete_satellite_never_produces_a_position() {
    // Only subframes 1 and 2: never ready, nothing to latch, no position.
    let mut pending =
        GpsPendingSvEphemeris::new(gps(7), wrap1(frame1(142, 5, 0, 1.0e-5, 0.0, 0.0)));
    pending.update(wrap2(frame2(5, 0, 5153.6, 0.001, 0.0)));
    assert!(pending.validate().is_none());

    let cache = KeplerBuffer::new();
    let t = Epoch::from_time_of_week(2190, 0);
    assert!(cache.next_at(t, gps(7)).is_none());
}

#[test]
fn kepler_cache_is_latest_wins() {
    let snapshot = scenario_pending().validate().unwrap();
    let t = Epoch::from_time_of_week(2190, 0);
    let first = snapshot.to_kepler(t);

    let mut newer = first;
    newer.e = b64(0.002);

    let mut cache = KeplerBuffer::new();
    cache.latch(first);
    cache.latch(newer);
    cache.latch(newer);
    assert_eq!(cache.len(), 1);

    let staged = cache.next_at(t, gps(7)).unwrap();
    assert_eq!(staged.elements.e, b64(0.002));
    assert_eq!(staged.t_k_nanos, 0);
}

#[test]
fn orbit_staging_is_deterministic() {
    let snapshot = scenario_pending().validate().unwrap();
    let t = Epoch::from_time_of_week(2190, 1_234_000_000_000);
    let mut cache = KeplerBuffer::new();
    cache.latch(snapshot.to_kepler(t));

    let a = cache.next_at(t, gps(7)).unwrap();
    let b = cache.next_at(t, gps(7)).unwrap();
    assert_eq!(a, b);
    assert_eq!(a.t_k_nanos, 1_234_000_000_000);
}

#[test]
fn kepler_cache_answers_per_satellite() {
    let snapshot = scenario_pending().validate().unwrap();
    let t = Epoch::from_time_of_week(2190, 0);
    let mut cache = KeplerBuffer::new();
    cache.latch(snapshot.to_kepler(t));
    assert!(cache.next_at(t, gps(7)).is_some());
    assert!(cache.next_at(t, gps(8)).is_none());
}

#[test]
fn clock_cache_is_latest_wins() {
    let mut cache = ClockBuffer::new();
    cache.latch(SvClock { sv: gps(7), af0: b64(1.0e-5) });
    cache.latch(SvClock { sv: gps(7), af0: b64(3.0e-5) });
    cache.latch(SvClock { sv: gps(9), af0: b64(2.0e-5) });
    assert_eq!(cache.buffer.len(), 2);
    assert_eq!(cache.clock_correction(gps(7)), Some(b64(3.0e-5)));
    assert_eq!(cache.clock_correction(gps(9)), Some(b64(2.0e-5)));
    assert_eq!(cache.clock_correction(gps(11)), None);
}

#[test]
fn kepler_solver_reports_convergence() {
    let mut solver = KeplerSolver::new();
    assert_eq!(solver.step(false), KeplerStep::Running);
    assert_eq!(solver.step(false), KeplerStep::Running);
    assert_eq!(solver.step(true), KeplerStep::Converged);
    assert_eq!(solver.iterations, 3);
}

#[test]
fn kepler_solver_reports_divergence_at_the_cap() {
    // A near-parabolic orbit may never pass the tolerance check: the cap
    // must surface as a distinguishable failure, not a silent success.
    let mut solver = KeplerSolver::new();
    let mut outcome = solver.step(false);
    while outcome == KeplerStep::Running {
        outcome = solver.step(false);
    }
    assert_eq!(outcome, KeplerStep::Diverged);
    assert_eq!(solver.iterations, KEPLER_MAX_ITERATIONS);
}

#[test]
fn pending_new_fills_the_matching_slot() {
    let p1 = GpsPendingSvEphemeris::new(gps(1), wrap1(frame1(142, 5, 0, 0.0, 0.0, 0.0)));
    assert!(p1.frame1.is_some() && p1.frame2.is_none() && p1.frame3.is_none());
    let p2 = GpsPendingSvEphemeris::new(gps(1), wrap2(frame2(5, 0, 5153.6, 0.001, 0.0)));
    assert!(p2.frame1.is_none() && p2.frame2.is_some() && p2.frame3.is_none());
    let p3 = GpsPendingSvEphemeris::new(gps(1), wrap3(frame3(5, 0.95, 0.0, 0.0)));
    assert!(p3.frame1.is_none() && p3.frame2.is_none() && p3.frame3.is_some());
}

#[test]
fn snapshot_type_is_plain_data() {
    let snapshot: GpsSvEphemeris = scenario_pending().validate().unwrap();
    let copy = snapshot;
    assert_eq!(copy, snapshot);
}
