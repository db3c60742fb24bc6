//! Checks of the time resolver, the constellation mapping, the
//! measurement-proposal grouping and the interactive state.

use rt_navi::config::{SerialOpts, SerialPortOpts};
use rt_navi::frames::Binary64;
use rt_navi::gnss::{gnss_rtk_id, Constellation, Error, SV};
use rt_navi::proposal::{build_proposal, RawMeasurement};
use rt_navi::rt_navi::RtNavi;
use rt_navi::time::{
    resolve_week, time_of_week_to_epoch, Epoch, Time, NANOS_PER_SECOND, NANOS_PER_WEEK,
    SECONDS_PER_WEEK,
};

fn b64(x: f64) -> Binary64 {
    Binary64 { bits: x.to_bits() }
}

#[test]
fn resolve_week_picks_the_closest_rollover() {
    // 2190 = 142 + 2 * 1024: the observed week is itself a candidate.
    assert_eq!(resolve_week(2190, 142), 2190);
    // Candidates 142, 1166, 2190, 3214; 2300 is closest to 2190.
    assert_eq!(resolve_week(2300, 142), 2190);
    // 2800 is closest to 3214 (distance 414, against 610 for 2190).
    assert_eq!(resolve_week(2800, 142), 3214);
}

#[test]
fn resolve_week_takes_the_later_candidate_on_a_tie() {
    // 654 sits exactly between 142 and 1166.
    assert_eq!(resolve_week(654, 142), 1166);
}

#[test]
fn resolve_week_with_observed_at_or_below_broadcast() {
    assert_eq!(resolve_week(142, 142), 142);
    assert_eq!(resolve_week(100, 142), 142);
    assert_eq!(resolve_week(0, 1023), 1023);
}

#[test]
fn epoch_composition_and_split_roundtrip() {
    let t = Epoch::from_time_of_week(2190, 123_456_789);
    assert_eq!(t.nanos, 2190 * NANOS_PER_WEEK + 123_456_789);
    assert_eq!(t.to_time_of_week(), (2190, 123_456_789));
    assert_eq!(t.week(), 2190);
}

#[test]
fn time_of_week_to_epoch_counts_in_seconds() {
    let t = time_of_week_to_epoch(2190, 7200);
    assert_eq!(t.nanos, (2190 * SECONDS_PER_WEEK + 7200) * NANOS_PER_SECOND);
}

#[test]
fn epoch_differences_are_signed() {
    let a = Epoch::from_time_of_week(2190, 1_000_000_000);
    let b = Epoch::from_time_of_week(2190, 4_000_000_000);
    assert_eq!(b.nanos_since(&a), 3_000_000_000);
    assert_eq!(a.nanos_since(&b), -3_000_000_000);
    assert_eq!(a.nanos_since(&a), 0);
}

#[test]
fn time_source_passes_epochs_through() {
    let mut source = Time::new();
    let t = Epoch::from_time_of_week(2190, 42);
    source.new_epoch(t);
    assert_eq!(source.epoch_correction(t), t);
}

#[test]
fn constellation_ids_map_like_the_wire_format() {
    assert_eq!(gnss_rtk_id(0), Ok(Constellation::GPS));
    assert_eq!(gnss_rtk_id(1), Ok(Constellation::SBAS));
    assert_eq!(gnss_rtk_id(2), Ok(Constellation::Galileo));
    assert_eq!(gnss_rtk_id(3), Ok(Constellation::BeiDou));
    assert_eq!(gnss_rtk_id(5), Ok(Constellation::QZSS));
    assert_eq!(gnss_rtk_id(6), Ok(Constellation::Glonass));
    assert_eq!(gnss_rtk_id(4), Err(Error::NonSupportedGnss(4)));
    assert_eq!(gnss_rtk_id(7), Err(Error::NonSupportedGnss(7)));
}

fn meas(gnss_id: u8, sv_id: u8, pr: f64, cp: f64) -> RawMeasurement {
    RawMeasurement { gnss_id, sv_id, pseudo_range_m: b64(pr), phase_range_m: b64(cp) }
}

#[test]
fn proposal_groups_measurements_per_satellite() {
    let t = Epoch::from_time_of_week(2190, 0);
    let measurements = vec![
        meas(0, 3, 2.0e7, 2.1e7),
        meas(5, 1, 3.0e7, 3.1e7),
        // A later measurement of the same satellite overwrites the first.
        meas(0, 3, 2.5e7, 2.6e7),
    ];
    let (candidates, errors) = build_proposal(t, &measurements);
    assert!(errors.is_empty());
    assert_eq!(candidates.len(), 2);
    assert_eq!(candidates[0].sv, SV::new(Constellation::GPS, 3));
    assert_eq!(candidates[0].pseudo_range_m, b64(2.5e7));
    assert_eq!(candidates[0].phase_range_m, b64(2.6e7));
    assert_eq!(candidates[1].sv, SV::new(Constellation::QZSS, 1));
    assert_eq!(candidates[0].t, t);
}

#[test]
fn proposal_skips_unsupported_constellations() {
    let t = Epoch::from_time_of_week(2190, 0);
    let measurements = vec![
        meas(0, 3, 2.0e7, 2.1e7),
        meas(4, 9, 9.0e7, 9.1e7),
        meas(6, 2, 4.0e7, 4.1e7),
    ];
    let (candidates, errors) = build_proposal(t, &measurements);
    assert_eq!(errors, vec![Error::NonSupportedGnss(4)]);
    assert_eq!(candidates.len(), 2);
    assert_eq!(candidates[1].sv, SV::new(Constellation::Glonass, 2));
}

#[test]
fn quit_keys_raise_the_quit_flag() {
    let mut app = RtNavi::new();
    assert!(!app.should_quit);
    app.on_left_key_press();
    app.on_right_key_press();
    app.on_key_press('x');
    assert!(!app.should_quit);
    app.on_key_press('q');
    assert!(app.should_quit);

    let mut app = RtNavi::new();
    app.on_key_press('Q');
    assert!(app.should_quit);
}

#[test]
fn serial_options_hold_their_fields() {
    let opts = SerialOpts::new(String::from("/dev/ttyACM0"), 9600);
    assert_eq!(opts.port, "/dev/ttyACM0");
    assert_eq!(opts.baud, 9600);
    let port_opts = SerialPortOpts { port_name: String::from("/dev/ttyUSB0"), port_baud: 115_200 };
    assert_eq!(port_opts.port_name, "/dev/ttyUSB0");
    assert_eq!(port_opts.port_baud, 115_200);
}
