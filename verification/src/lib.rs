//! Satellite-state reconstruction engine of a real-time GNSS receiver.
//!
//! The library turns decoded navigation-message subframes into validated
//! per-satellite ephemeris snapshots, resolves truncated broadcast week
//! numbers against the receiver's observed week, and caches the latest
//! orbital elements and clock polynomial per satellite for an external
//! positioning solver to query.
//!
//! Real-valued broadcast coefficients are carried as opaque IEEE-754
//! binary64 bit words ([`frames::Binary64`]); the engine's own reasoning is
//! over the integer fields (weeks, seconds of week, issue-of-data tags,
//! satellite identities), which is where the assembly, consistency and
//! caching guarantees live. Evaluating the polynomials and Kepler's
//! equation is left to the (unverified) numerical front end around the
//! library.

pub mod cache;
pub mod clock;
pub mod config;
pub mod ephemeris;
pub mod frames;
pub mod gnss;
pub mod kepler;
pub mod ntrip;
pub mod proposal;
pub mod rt_navi;
pub mod time;

pub use gnss::{Constellation, Error, SV};
pub use time::{Epoch, Time};
