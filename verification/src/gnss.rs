//! Satellite identities and the constellation identifier mapping used by
//! the receiver's measurement pipeline.

use vstd::prelude::*;

verus! {

/// Constellations the receiver recognises in decoded measurements.
#[derive(Clone, Copy, PartialEq, Eq, Structural, Debug)]
pub enum Constellation {
    GPS,
    SBAS,
    Galileo,
    BeiDou,
    QZSS,
    Glonass,
}

/// A satellite vehicle identifier: constellation plus slot number.
#[derive(Clone, Copy, PartialEq, Eq, Structural, Debug)]
pub struct SV {
    pub constellation: Constellation,
    pub prn: u8,
}

impl SV {
    pub fn new(constellation: Constellation, prn: u8) -> (sv: SV)
        ensures
            sv == (SV { constellation, prn }),
    {
        SV { constellation, prn }
    }
}

/// Per-measurement error conditions reported upward; none of them is fatal
/// to the engine.
#[derive(Clone, Copy, PartialEq, Eq, Structural, Debug)]
pub enum Error {
    /// The measurement names a constellation identifier the engine does not
    /// support; that single measurement is skipped.
    NonSupportedGnss(u8),
}

/// The constellation denoted by a numeric identifier of the receiver's
/// wire format, or the error reported for an unsupported identifier.
pub open spec fn constellation_of(gnss_id: u8) -> Result<Constellation, Error> {
    match gnss_id {
        0u8 => Ok(Constellation::GPS),
        1u8 => Ok(Constellation::SBAS),
        2u8 => Ok(Constellation::Galileo),
        3u8 => Ok(Constellation::BeiDou),
        5u8 => Ok(Constellation::QZSS),
        6u8 => Ok(Constellation::Glonass),
        _ => Err(Error::NonSupportedGnss(gnss_id)),
    }
}

/// Maps the receiver's numeric constellation identifier to the engine's
/// constellation, reporting unsupported identifiers per measurement.
pub fn gnss_rtk_id(gnss_id: u8) -> (r: Result<Constellation, Error>)
    ensures
        r == constellation_of(gnss_id),
{
    match gnss_id {
        0 => Ok(Constellation::GPS),
        1 => Ok(Constellation::SBAS),
        2 => Ok(Constellation::Galileo),
        3 => Ok(Constellation::BeiDou),
        5 => Ok(Constellation::QZSS),
        6 => Ok(Constellation::Glonass),
        id => Err(Error::NonSupportedGnss(id)),
    }
}

} // verus!
