//! Orientations, stored canonically in radians.
//!
//! An [`Angle`] holds an exact decimal radian value.  Degrees are a
//! convenience view: conversion multiplies or divides by a decimal π
//! constant, so common CAD angles survive the round trip to the working
//! precision, with no binary floating point involved.

use crate::dec::{div_of, mul_of, pi_v, Dec, DecV, NumericOverflow};
use vstd::prelude::*;

verus! {

/// The radian value that converting `d` degrees yields: `d * π / 180`, with
/// each operation performed by `rust_decimal` at its working precision.
pub open spec fn rad_of_deg(d: DecV) -> Option<DecV> {
    match mul_of(d, pi_v()) {
        Some(p) => div_of(p, DecV { m: 180, s: 0 }),
        None => None,
    }
}

/// The degree value that converting `r` radians yields: `r * 180 / π`, with
/// each operation performed by `rust_decimal` at its working precision.
pub open spec fn deg_of_rad(r: DecV) -> Option<DecV> {
    match mul_of(r, DecV { m: 180, s: 0 }) {
        Some(p) => div_of(p, pi_v()),
        None => None,
    }
}

/// An orientation.  The stored radian value is kept verbatim: angles are not
/// normalized into `[0, 2π)`.
#[derive(Clone, Copy, Debug)]
pub struct Angle {
    radians: Dec,
}

impl View for Angle {
    type V = DecV;

    closed spec fn view(&self) -> DecV {
        self.radians@
    }
}

impl Angle {
    /// Stores `radians` verbatim.
    pub fn from_radians(radians: Dec) -> (a: Self)
        ensures
            a@ == radians@,
    {
        Angle { radians }
    }

    /// The stored radian value, verbatim.
    pub fn to_radians(self) -> (r: Dec)
        ensures
            r@ == self@,
    {
        self.radians
    }

    /// The orientation `degrees * π / 180` radians, or `Err` when the
    /// product leaves the representable range.
    pub fn from_degrees(degrees: Dec) -> (r: Result<Angle, NumericOverflow>)
        ensures
            match r {
                Ok(a) => rad_of_deg(degrees@) == Some(a@),
                Err(_) => rad_of_deg(degrees@) is None,
            },
    {
        let num = match degrees.checked_mul(Dec::pi()) {
            Some(p) => p,
            None => {
                return Err(NumericOverflow);
            },
        };
        match num.checked_div(Dec::from_int(180)) {
            Some(q) => Ok(Angle { radians: q }),
            None => Err(NumericOverflow),
        }
    }

    /// The stored orientation as degrees, `radians * 180 / π`, or `Err` when
    /// the product leaves the representable range.
    pub fn to_degrees(self) -> (r: Result<Dec, NumericOverflow>)
        ensures
            match r {
                Ok(d) => deg_of_rad(self@) == Some(d@),
                Err(_) => deg_of_rad(self@) is None,
            },
    {
        let num = match self.radians.checked_mul(Dec::from_int(180)) {
            Some(p) => p,
            None => {
                return Err(NumericOverflow);
            },
        };
        match num.checked_div(Dec::pi()) {
            Some(q) => Ok(q),
            None => Err(NumericOverflow),
        }
    }
}

impl Default for Angle {
    /// The zero orientation: along the positive x axis.
    fn default() -> (a: Angle)
        ensures
            a@ == (DecV { m: 0, s: 0 }),
    {
        Angle { radians: Dec::default() }
    }
}

} // verus!
