//! The plane: whether a ray meets its front.
use vstd::prelude::*;
use crate::scalar::Scalar;

verus! {

/// A ray with origin `o` and direction `u` meets the front of the plane
/// through `p` with normal `n` at `t = (o - p).n / -(u.n)`. It is a hit
/// unless the denominator `-(u.n)` is below the tolerance, the ray running
/// along the plane or away from its front, or `t` is.
pub open spec fn spec_front_hit(denominator: Scalar, t: Scalar) -> bool {
    !denominator.spec_lt(Scalar::spec_epsilon()) && !t.spec_lt(Scalar::spec_epsilon())
}

/// Decides whether a ray hits the front of a plane, from the denominator of
/// the ray parameter and the parameter itself.
#[verifier::when_used_as_spec(spec_front_hit)]
pub fn front_hit(denominator: Scalar, t: Scalar) -> (hit: bool)
    ensures
        hit == spec_front_hit(denominator, t),
        denominator is Num && t is Num ==> (hit <==> denominator.spec_ge(Scalar::spec_epsilon())
            && t.spec_ge(Scalar::spec_epsilon())),
{
    if denominator.lt(Scalar::epsilon()) {
        return false;
    }
    !t.lt(Scalar::epsilon())
}

} // verus!
