//! Verified logic of a brute-force ray caster: choosing the nearest hit among
//! a scene's shapes, the shadow decision, the row-major pixel order of the
//! rendered image, dimension-checked vector arithmetic and the integer side of
//! reading a text mesh.
//!
//! The geometry and shading themselves are floating-point arithmetic and stay
//! with the caller. Hit distances come in as the bits of IEEE 754 doubles, so
//! that every decision taken on them is proved here against the doubles' own
//! order.
use vstd::prelude::*;

pub mod distance;
pub mod grid;
pub mod hit;
pub mod obj;
pub mod vector;

verus! {

} // verus!
