//! Series tables of the VSOP87D planetary theory.
//!
//! VSOP87D gives the heliocentric ecliptic longitude, latitude and distance of
//! a planet as polynomials in time whose coefficients are sums of periodic
//! terms. Every planet comes with one series of terms per coordinate and per
//! power of time, and not every planet populates every power.
//!
//! This crate holds the part of the theory that is exact bookkeeping:
//!
//! - [`planet`] says which powers of time each planet populates for each
//!   coordinate, and which coordinate is an angle to be reduced;
//! - [`layout`] places the series of one planet in a single flat run of terms
//!   and says where each series starts and ends in it;
//! - [`table`] keeps the terms of a planet in such a run and hands every
//!   series back exactly as it was given;
//! - [`theory`] keeps the tables of all eight planets and finds the table of
//!   a planet.
//!
//! The terms themselves are opaque here. Summing them is left to the caller,
//! who evaluates each series that a table hands out.

pub mod layout;
pub mod planet;
pub mod table;
pub mod theory;
