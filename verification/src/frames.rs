//! Decoded GPS / QZSS navigation-message subframes, as the external
//! decoder hands them to the engine.
//!
//! The engine reasons about the integer fields only (weeks, seconds of
//! week, issue-of-data tags). The real-valued broadcast coefficients are
//! carried as opaque IEEE-754 binary64 words ([`Binary64`]) in the exact
//! units the message encodes them in (semicircles for the angular terms,
//! square-root metres for the semi-major axis); interpreting them is the
//! numerical front end's job.

use crate::time::SECONDS_PER_WEEK;
use vstd::prelude::*;

verus! {

/// An IEEE-754 binary64 value carried opaquely by its bit pattern.
#[derive(Clone, Copy, PartialEq, Eq, Structural, Debug)]
pub struct Binary64 {
    pub bits: u64,
}

impl Binary64 {
    pub fn from_bits(bits: u64) -> (r: Binary64)
        ensures
            r == (Binary64 { bits }),
    {
        Binary64 { bits }
    }
}

/// Hand-over word accompanying each subframe.
#[derive(Clone, Copy, PartialEq, Eq, Structural, Debug)]
pub struct GpsQzssHow {
    /// Time-of-week count at which the next subframe starts.
    pub tow: u32,
    pub alert: bool,
    pub anti_spoofing: bool,
}

/// Subframe 1: clock terms, broadcast week and reference time of clock.
#[derive(Clone, Copy, PartialEq, Eq, Structural, Debug)]
pub struct GpsQzssFrame1 {
    /// 10-bit week counter, no roll-over compensation.
    pub week: u16,
    /// 10-bit issue of data, clock.
    pub iodc: u16,
    /// Reference time of clock, seconds of week.
    pub toc: u32,
    /// Group delay, seconds.
    pub tgd: Binary64,
    /// Clock drift rate, seconds per squared second.
    pub af2: Binary64,
    /// Clock drift, seconds per second.
    pub af1: Binary64,
    /// Clock bias, seconds.
    pub af0: Binary64,
}

impl GpsQzssFrame1 {
    /// The integer fields lie in the ranges the message format allows.
    pub open spec fn wf(self) -> bool {
        &&& (self.week as u32) < 1024
        &&& (self.toc as u64) < SECONDS_PER_WEEK
    }
}

/// Subframe 2: the in-plane orbital parameters.
#[derive(Clone, Copy, PartialEq, Eq, Structural, Debug)]
pub struct GpsQzssFrame2 {
    /// Reference time of ephemeris, seconds of week.
    pub toe: u32,
    /// 8-bit issue of data, ephemeris.
    pub iode: u8,
    /// Mean anomaly at reference time, semicircles.
    pub m0: Binary64,
    /// Mean-motion correction, semicircles per second.
    pub dn: Binary64,
    /// Cosine correction to the argument of latitude, radians.
    pub cuc: Binary64,
    /// Sine correction to the argument of latitude, radians.
    pub cus: Binary64,
    /// Sine correction to the orbital radius, metres.
    pub crs: Binary64,
    /// Eccentricity, dimensionless.
    pub e: Binary64,
    /// Square root of the semi-major axis, square-root metres.
    pub sqrt_a: Binary64,
}

impl GpsQzssFrame2 {
    /// The integer fields lie in the ranges the message format allows.
    pub open spec fn wf(self) -> bool {
        (self.toe as u64) < SECONDS_PER_WEEK
    }
}

/// Subframe 3: the orbital-plane orientation parameters.
#[derive(Clone, Copy, PartialEq, Eq, Structural, Debug)]
pub struct GpsQzssFrame3 {
    /// Cosine correction to the inclination, radians.
    pub cic: Binary64,
    /// Sine correction to the inclination, radians.
    pub cis: Binary64,
    /// Cosine correction to the orbital radius, metres.
    pub crc: Binary64,
    /// Inclination at reference time, semicircles.
    pub i0: Binary64,
    /// 8-bit issue of data, ephemeris.
    pub iode: u8,
    /// Inclination rate, semicircles per second.
    pub idot: Binary64,
    /// Longitude of the ascending node at the weekly epoch, semicircles.
    pub omega0: Binary64,
    /// Argument of perigee, semicircles.
    pub omega: Binary64,
    /// Rate of the node longitude, semicircles per second.
    pub omega_dot: Binary64,
}

/// The tagged subframe payload.
#[derive(Clone, Copy, PartialEq, Eq, Structural, Debug)]
pub enum GpsQzssSubframe {
    Ephemeris1(GpsQzssFrame1),
    Ephemeris2(GpsQzssFrame2),
    Ephemeris3(GpsQzssFrame3),
}

impl GpsQzssSubframe {
    /// The carried frame's integer fields lie in the ranges the message
    /// format allows.
    pub open spec fn wf(self) -> bool {
        match self {
            GpsQzssSubframe::Ephemeris1(f1) => f1.wf(),
            GpsQzssSubframe::Ephemeris2(f2) => f2.wf(),
            GpsQzssSubframe::Ephemeris3(_) => true,
        }
    }
}

/// One decoded navigation-message frame: hand-over word plus payload.
#[derive(Clone, Copy, PartialEq, Eq, Structural, Debug)]
pub struct GpsQzssFrame {
    pub how: GpsQzssHow,
    pub subframe: GpsQzssSubframe,
}

impl GpsQzssFrame {
    pub open spec fn wf(self) -> bool {
        self.subframe.wf()
    }
}

/// The low-order bits of an issue-of-data-clock tag agree with an
/// issue-of-data-ephemeris tag: frames so tagged belong to one ephemeris
/// set.
pub open spec fn iodc_matches_iode(iodc: u16, iode: u8) -> bool {
    iodc % 256 == iode as u16
}

} // verus!
