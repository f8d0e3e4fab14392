//! The sphere: which root of the ray's quadratic is the hit.
use vstd::prelude::*;
use crate::scalar::Scalar;

verus! {

/// A candidate for the ray parameter of a hit, for the quadratic
/// `a t^2 + b t + c = 0` with discriminant `d`.
#[derive(Debug, Clone, Copy, PartialEq, Eq, Structural)]
pub enum Root {
    /// The one root of a vanishing discriminant, `-b / 2a`.
    Double,
    /// `(-b + sqrt(d)) / 2a`.
    Plus,
    /// `(-b - sqrt(d)) / 2a`.
    Minus,
}

/// The value of a candidate.
pub open spec fn root_value(root: Root, double: Scalar, plus: Scalar, minus: Scalar) -> Scalar {
    match root {
        Root::Double => double,
        Root::Plus => plus,
        Root::Minus => minus,
    }
}

/// The root at which a ray hits the sphere. A negative discriminant leaves
/// none. A discriminant of zero leaves the double root, unless it is
/// negative. Else each of the two roots is dropped where it is negative, and
/// of two that stay the smaller is taken, the one after the minus sign where
/// neither is smaller.
pub open spec fn spec_nearest_root(
    discriminant: Scalar,
    double: Scalar,
    plus: Scalar,
    minus: Scalar,
) -> Option<Root> {
    let zero = Scalar::spec_zero();
    if discriminant.spec_lt(zero) {
        None
    } else if discriminant.spec_same(zero) {
        if double.spec_lt(zero) {
            None
        } else {
            Some(Root::Double)
        }
    } else if plus.spec_lt(zero) && minus.spec_lt(zero) {
        None
    } else if plus.spec_lt(zero) {
        Some(Root::Minus)
    } else if minus.spec_lt(zero) {
        Some(Root::Plus)
    } else if plus.spec_lt(minus) {
        Some(Root::Plus)
    } else {
        Some(Root::Minus)
    }
}

/// Chooses the hit among the roots of the ray's quadratic.
///
/// Of the roots that the discriminant admits, the result is the smallest that
/// is not negative; there is none exactly when the discriminant is negative
/// or every root it admits is.
pub fn nearest_root(discriminant: Scalar, double: Scalar, plus: Scalar, minus: Scalar) -> (root:
    Option<Root>)
    ensures
        root == spec_nearest_root(discriminant, double, plus, minus),
        discriminant.spec_lt(Scalar::spec_zero()) ==> root is None,
        discriminant.spec_same(Scalar::spec_zero()) ==> (root is None <==> double.spec_lt(
            Scalar::spec_zero(),
        )) && (root is Some ==> root == Some(Root::Double)),
        discriminant.spec_gt(Scalar::spec_zero()) && plus is Num && minus is Num ==> {
            &&& root is None <==> plus.key() < 0 && minus.key() < 0
            &&& root matches Some(r) ==> {
                let t = root_value(r, double, plus, minus);
                &&& r != Root::Double
                &&& t.key() >= 0
                &&& plus.key() >= 0 ==> t.key() <= plus.key()
                &&& minus.key() >= 0 ==> t.key() <= minus.key()
            }
        },
{
    let zero = Scalar::zero();
    if discriminant.lt(zero) {
        return None;
    }
    if discriminant.same(zero) {
        if double.lt(zero) {
            return None;
        }
        return Some(Root::Double);
    }
    if plus.lt(zero) && minus.lt(zero) {
        return None;
    }
    if plus.lt(zero) {
        Some(Root::Minus)
    } else if minus.lt(zero) {
        Some(Root::Plus)
    } else if plus.lt(minus) {
        Some(Root::Plus)
    } else {
        Some(Root::Minus)
    }
}

/// A ray that starts outside the sphere and runs towards it hits it at the
/// nearer of its two crossings: where neither root is negative, the root
/// chosen is the smaller, and of a ray aimed at the centre from the distance
/// `d` that is the root `d - r`, which the minus sign gives.
pub proof fn lemma_outside_ray_takes_near_root(
    discriminant: Scalar,
    double: Scalar,
    plus: Scalar,
    minus: Scalar,
)
    requires
        discriminant.spec_gt(Scalar::spec_zero()),
        Scalar::spec_zero().spec_le(minus),
        minus.spec_le(plus),
    ensures
        spec_nearest_root(discriminant, double, plus, minus) == Some(Root::Minus),
{
}

/// A ray whose line passes the sphere by, or which has the whole sphere
/// behind it, hits nothing.
pub proof fn lemma_missed_sphere_has_no_root(
    discriminant: Scalar,
    double: Scalar,
    plus: Scalar,
    minus: Scalar,
)
    requires
        discriminant.spec_lt(Scalar::spec_zero()) || (discriminant.spec_gt(Scalar::spec_zero())
            && plus.spec_lt(Scalar::spec_zero()) && minus.spec_lt(Scalar::spec_zero())),
    ensures
        spec_nearest_root(discriminant, double, plus, minus) is None,
{
}

} // verus!
