//! Scalars and the arithmetic the geometry compiler is parameterized over.
//!
//! A vertex scalar is the bit pattern of an IEEE-754 single-precision value,
//! carried as a `u32`.  The geometry compiler never does arithmetic on
//! scalars itself: placing a point and deciding whether two scalars are
//! near enough to share a buffer slot are supplied by an implementation of
//! [`VertexMath`], and remapping texture coordinates into an atlas region by
//! an implementation of [`TexRemap`].  The compiler's contracts hold for
//! every implementation; [`ExactMath`] is the implementation of both traits
//! that leaves points in place and matches scalars exactly.

use vstd::prelude::*;

verus! {

/// The bit pattern of floating-point positive zero, the third position
/// coordinate of a two-dimensional vertex.
pub const ZERO_BITS: u32 = 0;

/// A placement of points together with the scalar equivalence used to
/// deduplicate vertex records.
///
/// `map_spec` is the mathematical placement; `map_point` must compute it.
/// Two calls on the same scalars therefore return the same scalars, which
/// is what makes deduplication reproducible.  `eq_spec` is the equivalence;
/// it must at least relate every scalar to itself, so that a record matches
/// a stored copy of itself.
pub trait VertexMath: Sized {
    /// The placement, as a function from a point to a point.
    spec fn map_spec(&self, x: u32, y: u32, z: u32) -> (u32, u32, u32);

    /// The scalar equivalence used when scanning for an existing slot.
    spec fn eq_spec(a: u32, b: u32) -> bool;

    /// Every scalar is equivalent to itself.
    proof fn eq_spec_reflexive(a: u32)
        ensures
            Self::eq_spec(a, a),
    ;

    /// Place one point.
    fn map_point(&self, x: u32, y: u32, z: u32) -> (r: (u32, u32, u32))
        ensures
            r == self.map_spec(x, y, z),
    ;

    /// Decide the scalar equivalence.
    fn scalar_eq(a: u32, b: u32) -> (r: bool)
        ensures
            r == Self::eq_spec(a, b),
    ;
}

/// A remapping of texture coordinates, applied by the group compiler when a
/// shape is placed into a shared atlas region.
pub trait TexRemap: Sized {
    /// The remapping, as a function from a coordinate pair to a pair.
    spec fn remap_spec(&self, u: u32, v: u32) -> (u32, u32);

    /// Remap one coordinate pair.
    fn remap(&self, u: u32, v: u32) -> (r: (u32, u32))
        ensures
            r == self.remap_spec(u, v),
    ;
}

/// The identity placement with exact scalar matching, and the identity
/// texture remapping.
///
/// Two scalars are equivalent exactly when their bit patterns are equal.
#[derive(Clone, Copy, Debug)]
pub struct ExactMath;

impl VertexMath for ExactMath {
    open spec fn map_spec(&self, x: u32, y: u32, z: u32) -> (u32, u32, u32) {
        (x, y, z)
    }

    open spec fn eq_spec(a: u32, b: u32) -> bool {
        a == b
    }

    proof fn eq_spec_reflexive(a: u32) {
    }

    fn map_point(&self, x: u32, y: u32, z: u32) -> (r: (u32, u32, u32)) {
        (x, y, z)
    }

    fn scalar_eq(a: u32, b: u32) -> (r: bool) {
        a == b
    }
}

impl TexRemap for ExactMath {
    open spec fn remap_spec(&self, u: u32, v: u32) -> (u32, u32) {
        (u, v)
    }

    fn remap(&self, u: u32, v: u32) -> (r: (u32, u32)) {
        (u, v)
    }
}

} // verus!
