//! Shapes: which of a ray's candidate crossings counts as the hit.
use vstd::prelude::*;

pub mod cube;
pub mod intersection;
pub mod plane;
pub mod polygon;
pub mod sphere;

verus! {

/// One of the three coordinate axes.
#[derive(Debug, Copy, Clone, PartialEq, Eq, Structural)]
pub enum Axis {
    X,
    Y,
    Z,
}

impl Axis {
    /// The place of the axis' coordinate in a triple.
    pub open spec fn spec_index(self) -> usize {
        match self {
            Axis::X => 0,
            Axis::Y => 1,
            Axis::Z => 2,
        }
    }

    /// The two rows of a rotation about this axis that are not the identity's,
    /// in the order that makes a positive angle turn counter-clockwise when
    /// seen from the axis' tip: the axes that follow this one, cyclically.
    pub open spec fn spec_turning(self) -> (usize, usize) {
        match self {
            Axis::X => (1, 2),
            Axis::Y => (2, 0),
            Axis::Z => (0, 1),
        }
    }

    #[verifier::when_used_as_spec(spec_index)]
    pub fn index(self) -> (i: usize)
        ensures
            i == self.spec_index(),
            i < 3,
    {
        match self {
            Axis::X => 0,
            Axis::Y => 1,
            Axis::Z => 2,
        }
    }

    /// Rows `(a, b)` of the rotation about this axis: the matrix has the
    /// cosine at `[a][a]` and `[b][b]`, the negated sine at `[a][b]` and the
    /// sine at `[b][a]`.
    #[verifier::when_used_as_spec(spec_turning)]
    pub fn turning(self) -> (rows: (usize, usize))
        ensures
            rows == self.spec_turning(),
            rows.0 == (self.spec_index() + 1) % 3,
            rows.1 == (self.spec_index() + 2) % 3,
    {
        match self {
            Axis::X => (1, 2),
            Axis::Y => (2, 0),
            Axis::Z => (0, 1),
        }
    }
}

/// Three exact numbers, one along each axis: what the rounded coordinates
/// of a vector stand for.
pub type Triple = (int, int, int);

/// The number at a place of a triple.
pub open spec fn along(v: Triple, place: usize) -> int {
    if place == 0 {
        v.0
    } else if place == 1 {
        v.1
    } else {
        v.2
    }
}

/// The square of a vector's length.
pub open spec fn norm(v: Triple) -> int {
    v.0 * v.0 + v.1 * v.1 + v.2 * v.2
}

/// The dot product.
pub open spec fn dot(v: Triple, w: Triple) -> int {
    v.0 * w.0 + v.1 * w.1 + v.2 * w.2
}

impl Axis {
    /// The component along this axis of the cross product of two vectors:
    /// the two turning axes take their numbers from the two vectors
    /// crosswise.
    pub open spec fn crossed(self, v: Triple, w: Triple) -> int {
        let (a, b) = self.spec_turning();
        along(v, a) * along(w, b) - along(v, b) * along(w, a)
    }

    /// What the rotation about this axis makes of a vector along one of
    /// the three axes, where `c` and `s` are the cosine and the sine of
    /// the angle: row `place` of the rotation's matrix, times the vector.
    pub open spec fn turned(self, c: int, s: int, v: Triple, place: usize) -> int {
        let (a, b) = self.spec_turning();
        if place == a {
            c * along(v, a) - s * along(v, b)
        } else if place == b {
            s * along(v, a) + c * along(v, b)
        } else {
            along(v, place)
        }
    }
}

/// The cross product of two vectors.
pub open spec fn cross(v: Triple, w: Triple) -> Triple {
    (Axis::X.crossed(v, w), Axis::Y.crossed(v, w), Axis::Z.crossed(v, w))
}

/// A vector turned about an axis.
pub open spec fn rotate(axis: Axis, c: int, s: int, v: Triple) -> Triple {
    (axis.turned(c, s, v, 0), axis.turned(c, s, v, 1), axis.turned(c, s, v, 2))
}

/// The cross product of two vectors is perpendicular to both, and turns
/// round when they are exchanged.
pub proof fn lemma_cross_is_perpendicular(v: Triple, w: Triple)
    ensures
        dot(v, cross(v, w)) == 0,
        dot(w, cross(v, w)) == 0,
        cross(w, v) == (-cross(v, w).0, -cross(v, w).1, -cross(v, w).2),
{
    lemma_triple_products(v.0, v.1, v.2, w.0, w.1, w.2);
    lemma_triple_products(w.0, w.1, w.2, v.0, v.1, v.2);
}

/// The six products of a number of one triple with two of another, each
/// spread and regrouped so that equal products read alike.
proof fn lemma_triple_products(x0: int, x1: int, x2: int, y0: int, y1: int, y2: int)
    ensures
        x0 * (x1 * y2 - x2 * y1) + x1 * (x2 * y0 - x0 * y2) + x2 * (x0 * y1 - x1 * y0) == 0,
        y0 * (x1 * y2 - x2 * y1) + y1 * (x2 * y0 - x0 * y2) + y2 * (x0 * y1 - x1 * y0) == 0,
        x1 * y2 - x2 * y1 == -(y1 * x2 - y2 * x1),
        x2 * y0 - x0 * y2 == -(y2 * x0 - y0 * x2),
        x0 * y1 - x1 * y0 == -(y0 * x1 - y1 * x0),
{
    assert(x0 * (x1 * y2 - x2 * y1) == x0 * x1 * y2 - x0 * x2 * y1) by (nonlinear_arith);
    assert(x1 * (x2 * y0 - x0 * y2) == x1 * x2 * y0 - x0 * x1 * y2) by (nonlinear_arith);
    assert(x2 * (x0 * y1 - x1 * y0) == x0 * x2 * y1 - x1 * x2 * y0) by (nonlinear_arith);
    assert(y0 * (x1 * y2 - x2 * y1) == x1 * y0 * y2 - x2 * y0 * y1) by (nonlinear_arith);
    assert(y1 * (x2 * y0 - x0 * y2) == x2 * y0 * y1 - x0 * y1 * y2) by (nonlinear_arith);
    assert(y2 * (x0 * y1 - x1 * y0) == x0 * y1 * y2 - x1 * y0 * y2) by (nonlinear_arith);
    assert(x1 * y2 == y2 * x1 && x2 * y1 == y1 * x2) by (nonlinear_arith);
    assert(x2 * y0 == y0 * x2 && x0 * y2 == y2 * x0) by (nonlinear_arith);
    assert(x0 * y1 == y1 * x0 && x1 * y0 == y0 * x1) by (nonlinear_arith);
}

/// A rotation keeps lengths as far as its cosine and sine are such: the
/// squared length of the part of a vector that lies across the axis is
/// multiplied by `c * c + s * s`, and the part along the axis stays as it
/// is. With a true cosine and sine, whose squares add up to one, the
/// vector keeps its length.
pub proof fn lemma_rotation_keeps_length(axis: Axis, c: int, s: int, v: Triple)
    ensures
        ({
            let (a, b) = axis.spec_turning();
            let turned = rotate(axis, c, s, v);
            &&& along(turned, axis.spec_index()) == along(v, axis.spec_index())
            &&& norm(turned) == (c * c + s * s) * (along(v, a) * along(v, a) + along(v, b) * along(
                v,
                b,
            )) + along(v, axis.spec_index()) * along(v, axis.spec_index())
            &&& c * c + s * s == 1 ==> norm(turned) == norm(v)
        }),
{
    let (a, b) = axis.spec_turning();
    let across = along(v, a) * along(v, a) + along(v, b) * along(v, b);
    lemma_turn_keeps_length(c, s, along(v, a), along(v, b));
    assert((c * c + s * s) == 1 ==> (c * c + s * s) * across == across) by (nonlinear_arith);
}

/// The turn of a pair of numbers by a cosine and a sine.
proof fn lemma_turn_keeps_length(c: int, s: int, x: int, y: int)
    ensures
        (c * x - s * y) * (c * x - s * y) + (s * x + c * y) * (s * x + c * y) == (c * c + s * s)
            * (x * x + y * y),
{
    lemma_square_of_two(c * x, s * y);
    lemma_square_of_two(s * x, c * y);
    lemma_product_of_products(c, x, s, y);
    lemma_product_of_products(c, x, c, x);
    lemma_product_of_products(s, y, s, y);
    lemma_product_of_products(s, x, s, x);
    lemma_product_of_products(c, y, c, y);
    lemma_product_of_sums(c * c, s * s, x * x, y * y);
}

/// The squares of a difference and of a sum.
proof fn lemma_square_of_two(p: int, q: int)
    ensures
        (p - q) * (p - q) == p * p - 2 * (p * q) + q * q,
        (p + q) * (p + q) == p * p + 2 * (p * q) + q * q,
{
    assert((p - q) * (p - q) == p * p - 2 * (p * q) + q * q) by (nonlinear_arith);
    assert((p + q) * (p + q) == p * p + 2 * (p * q) + q * q) by (nonlinear_arith);
}

/// A product of two products, its factors paired the other way.
proof fn lemma_product_of_products(a: int, x: int, b: int, y: int)
    ensures
        (a * x) * (b * y) == (a * b) * (x * y),
        (a * x) * (b * y) == (b * x) * (a * y),
{
    assert((a * x) * (b * y) == (a * b) * (x * y)) by (nonlinear_arith);
    assert((a * x) * (b * y) == (b * x) * (a * y)) by (nonlinear_arith);
}

/// A product of two sums.
proof fn lemma_product_of_sums(a: int, b: int, x: int, y: int)
    ensures
        (a + b) * (x + y) == a * x + a * y + b * x + b * y,
{
    assert((a + b) * (x + y) == a * x + a * y + b * x + b * y) by (nonlinear_arith);
}

} // verus!
