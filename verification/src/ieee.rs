//! The one arithmetic operation the capture pipeline performs on its
//! scalars: adding the fixed center-of-mass offset to a position value.
//!
//! Scalars are IEEE-754 double bit patterns held in `u64`. Their sum is
//! a pure function of the two patterns, named by [`sum_bits`] and
//! computed by a software implementation of the IEEE-754 rules.

use vstd::prelude::*;
use rustc_apfloat::Float;

verus! {

/// The bit pattern of the IEEE-754 double-precision sum (round to
/// nearest, ties to even) of the two values with bit patterns `a`
/// and `b`.
pub uninterp spec fn sum_bits(a: u64, b: u64) -> u64;

/// Relies on rustc_apfloat's `Double`: `from_bits`, `add_r` with
/// round-to-nearest-ties-to-even, and `to_bits`. The result depends on
/// the two bit patterns alone.
#[verifier::external_body]
fn add_bits(a: u64, b: u64) -> (r: u64)
    ensures
        r == sum_bits(a, b),
{
    let x = rustc_apfloat::ieee::Double::from_bits(a as u128);
    let y = rustc_apfloat::ieee::Double::from_bits(b as u128);
    x.add_r(y, rustc_apfloat::Round::NearestTiesToEven).value.to_bits() as u64
}

/// The component-wise IEEE-754 sum of two bit-pattern vectors.
pub open spec fn spec_offset(p: crate::record::Vec3, cm: crate::record::Vec3) -> crate::record::Vec3 {
    crate::record::Vec3 {
        x: sum_bits(p.x, cm.x),
        y: sum_bits(p.y, cm.y),
        z: sum_bits(p.z, cm.z),
    }
}

/// Adds the center-of-mass offset `cm` to the position vector `p`,
/// component-wise.
pub fn offset(p: crate::record::Vec3, cm: crate::record::Vec3) -> (r: crate::record::Vec3)
    ensures
        r == spec_offset(p, cm),
{
    crate::record::Vec3 {
        x: add_bits(p.x, cm.x),
        y: add_bits(p.y, cm.y),
        z: add_bits(p.z, cm.z),
    }
}

} // verus!
