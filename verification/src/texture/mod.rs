//! Textures: which colour of a pattern a surface point shows.
use vstd::prelude::*;
use crate::scalar::Scalar;

pub mod bitmap;

pub use bitmap::Image;

verus! {

/// One of the two colours of a checker pattern.
#[derive(Debug, Clone, Copy, PartialEq, Eq, Structural)]
pub enum Tile {
    Primary,
    Secondary,
}

/// The colour of a checker pattern at a point of the unit square: the
/// square is cut in half along each coordinate, and the two quarters in
/// which exactly one coordinate lies in its lower half show the primary
/// colour.
pub open spec fn spec_checker_tile(u: Scalar, v: Scalar) -> Tile {
    if u.spec_lt(Scalar::spec_half()) != v.spec_lt(Scalar::spec_half()) {
        Tile::Primary
    } else {
        Tile::Secondary
    }
}

/// Picks the colour of a checker pattern at a point of the unit square.
#[verifier::when_used_as_spec(spec_checker_tile)]
pub fn checker_tile(u: Scalar, v: Scalar) -> (tile: Tile)
    ensures
        tile == spec_checker_tile(u, v),
{
    if u.lt(Scalar::half()) != v.lt(Scalar::half()) {
        Tile::Primary
    } else {
        Tile::Secondary
    }
}

/// The pattern looks the same from either diagonal: swapping the two
/// coordinates of a point keeps its colour.
pub proof fn lemma_checker_is_symmetric(u: Scalar, v: Scalar)
    ensures
        spec_checker_tile(u, v) == spec_checker_tile(v, u),
{
}

/// Crossing the middle of the square along one coordinate changes the
/// colour.
pub proof fn lemma_checker_alternates(u: Scalar, across: Scalar, v: Scalar)
    requires
        u.spec_lt(Scalar::spec_half()),
        across.spec_ge(Scalar::spec_half()),
    ensures
        spec_checker_tile(u, v) != spec_checker_tile(across, v),
        spec_checker_tile(v, u) != spec_checker_tile(v, across),
{
}

} // verus!
