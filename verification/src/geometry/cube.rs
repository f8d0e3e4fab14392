//! The axis-aligned box: the slab test, and the face that a surface point
//! belongs to.
use vstd::prelude::*;
use crate::geometry::Axis;
use crate::scalar::Scalar;

verus! {

/// One axis' share of a ray against a box: the ray parameters at which the
/// ray crosses the two planes that bound the box along that axis.
#[derive(Debug, Clone, Copy, PartialEq, Eq, Structural)]
pub struct Slab {
    /// Parameter at the plane that a ray along this direction meets first.
    pub near: Scalar,
    /// Parameter at the other plane.
    pub far: Scalar,
    /// The ray runs against the axis, so the first plane is the upper one.
    pub reversed: bool,
}

impl Slab {
    /// The slab of a ray whose inverse direction along the axis is `inverse`
    /// and which crosses the lower plane at `at_lower`, the upper at `at_upper`.
    pub open spec fn spec_new(inverse: Scalar, at_lower: Scalar, at_upper: Scalar) -> Slab {
        if inverse.spec_lt(Scalar::spec_zero()) {
            Slab { near: at_upper, far: at_lower, reversed: true }
        } else {
            Slab { near: at_lower, far: at_upper, reversed: false }
        }
    }

    /// Both crossings are numbers, and the near one does not come after the far one.
    pub open spec fn ordered(self) -> bool {
        self.near.spec_le(self.far)
    }

    /// Picks the near and the far plane by the sign of the inverse direction.
    #[verifier::when_used_as_spec(spec_new)]
    pub fn new(inverse: Scalar, at_lower: Scalar, at_upper: Scalar) -> (slab: Slab)
        ensures
            slab == Slab::spec_new(inverse, at_lower, at_upper),
    {
        if inverse.lt(Scalar::zero()) {
            Slab { near: at_upper, far: at_lower, reversed: true }
        } else {
            Slab { near: at_lower, far: at_upper, reversed: false }
        }
    }
}

/// Where a ray meets a box.
#[derive(Debug, Clone, Copy, PartialEq, Eq, Structural)]
pub struct BoxHit {
    /// The axis that the face hit is perpendicular to.
    pub axis: Axis,
    /// The face is the upper one of its axis, with the normal along the axis;
    /// else the lower one, with the normal against it.
    pub upper: bool,
    /// The ray starts inside the box and the hit is where it leaves.
    pub exit: bool,
}

/// The stretch of a ray that lies inside the slabs clipped so far, and the
/// axes whose planes bound it.
#[derive(Debug, Clone, Copy, PartialEq, Eq, Structural)]
pub struct Span {
    pub enter: Scalar,
    pub leave: Scalar,
    pub enter_axis: Axis,
    pub leave_axis: Axis,
}

/// The stretch inside the first slab.
pub open spec fn first_span(x: Slab) -> Span {
    Span { enter: x.near, leave: x.far, enter_axis: Axis::X, leave_axis: Axis::X }
}

/// Clips a stretch by one more slab: nothing is left where either begins
/// after the other has ended; else the later entry and the earlier exit stay,
/// the stretch keeping its own bound where the two are level.
pub open spec fn clip(span: Span, slab: Slab, axis: Axis) -> Option<Span> {
    if span.enter.spec_gt(slab.far) || slab.near.spec_gt(span.leave) {
        None
    } else {
        Some(
            Span {
                enter: if slab.near.spec_gt(span.enter) {
                    slab.near
                } else {
                    span.enter
                },
                enter_axis: if slab.near.spec_gt(span.enter) {
                    axis
                } else {
                    span.enter_axis
                },
                leave: if slab.far.spec_lt(span.leave) {
                    slab.far
                } else {
                    span.leave
                },
                leave_axis: if slab.far.spec_lt(span.leave) {
                    axis
                } else {
                    span.leave_axis
                },
            },
        )
    }
}

/// The slab that belongs to an axis.
pub open spec fn slab_of(axis: Axis, x: Slab, y: Slab, z: Slab) -> Slab {
    match axis {
        Axis::X => x,
        Axis::Y => y,
        Axis::Z => z,
    }
}

/// The face through which a stretch is entered or left.
pub open spec fn face_of(span: Span, exit: bool, x: Slab, y: Slab, z: Slab) -> BoxHit {
    if exit {
        BoxHit {
            axis: span.leave_axis,
            upper: !slab_of(span.leave_axis, x, y, z).reversed,
            exit: true,
        }
    } else {
        BoxHit {
            axis: span.enter_axis,
            upper: slab_of(span.enter_axis, x, y, z).reversed,
            exit: false,
        }
    }
}

/// The slab method: the three slabs are clipped against each other in turn.
/// A stretch that ends before the ray's origin is no hit; one that begins
/// before it is left through its far end; any other is entered at its near end.
pub open spec fn spec_box_hit(x: Slab, y: Slab, z: Slab) -> Option<BoxHit> {
    match clip(first_span(x), y, Axis::Y) {
        None => None,
        Some(xy) => match clip(xy, z, Axis::Z) {
            None => None,
            Some(span) => if span.leave.spec_lt(Scalar::spec_zero()) {
                None
            } else {
                Some(face_of(span, span.enter.spec_lt(Scalar::spec_zero()), x, y, z))
            },
        },
    }
}

/// The ray parameter of a hit: the near or the far crossing of its axis.
pub open spec fn hit_parameter(hit: BoxHit, x: Slab, y: Slab, z: Slab) -> Scalar {
    if hit.exit {
        slab_of(hit.axis, x, y, z).far
    } else {
        slab_of(hit.axis, x, y, z).near
    }
}

fn clip_by(span: Span, slab: Slab, axis: Axis) -> (r: Option<Span>)
    ensures
        r == clip(span, slab, axis),
{
    if span.enter.gt(slab.far) || slab.near.gt(span.leave) {
        return None;
    }
    let mut clipped = span;
    if slab.near.gt(span.enter) {
        clipped.enter = slab.near;
        clipped.enter_axis = axis;
    }
    if slab.far.lt(span.leave) {
        clipped.leave = slab.far;
        clipped.leave_axis = axis;
    }
    Some(clipped)
}

fn pick(axis: Axis, x: Slab, y: Slab, z: Slab) -> (slab: Slab)
    ensures
        slab == slab_of(axis, x, y, z),
{
    match axis {
        Axis::X => x,
        Axis::Y => y,
        Axis::Z => z,
    }
}

/// Tests a ray against a box, given the ray's slab along each axis.
pub fn box_hit(x: Slab, y: Slab, z: Slab) -> (hit: Option<BoxHit>)
    ensures
        hit == spec_box_hit(x, y, z),
{
    let first = Span { enter: x.near, leave: x.far, enter_axis: Axis::X, leave_axis: Axis::X };
    let xy = match clip_by(first, y, Axis::Y) {
        None => {
            return None;
        },
        Some(span) => span,
    };
    let span = match clip_by(xy, z, Axis::Z) {
        None => {
            return None;
        },
        Some(span) => span,
    };
    if span.leave.lt(Scalar::zero()) {
        return None;
    }
    if span.enter.lt(Scalar::zero()) {
        let slab = pick(span.leave_axis, x, y, z);
        return Some(BoxHit { axis: span.leave_axis, upper: !slab.reversed, exit: true });
    }
    let slab = pick(span.enter_axis, x, y, z);
    Some(BoxHit { axis: span.enter_axis, upper: slab.reversed, exit: false })
}

/// The latest of the three near crossings.
pub open spec fn latest_near(x: Slab, y: Slab, z: Slab) -> int {
    let xy = if y.near.key() > x.near.key() {
        y.near.key()
    } else {
        x.near.key()
    };
    if z.near.key() > xy {
        z.near.key()
    } else {
        xy
    }
}

/// The earliest of the three far crossings.
pub open spec fn earliest_far(x: Slab, y: Slab, z: Slab) -> int {
    let xy = if y.far.key() < x.far.key() {
        y.far.key()
    } else {
        x.far.key()
    };
    if z.far.key() < xy {
        z.far.key()
    } else {
        xy
    }
}

/// A ray hits a box exactly when it is inside all three slabs at once, at or
/// after its origin: the latest entry does not come after the earliest exit,
/// and that exit is not behind the origin. A ray that misses the box's volume
/// gets no hit.
pub proof fn lemma_box_hit_iff_slabs_overlap(x: Slab, y: Slab, z: Slab)
    requires
        x.ordered(),
        y.ordered(),
        z.ordered(),
    ensures
        spec_box_hit(x, y, z) is Some <==> latest_near(x, y, z) <= earliest_far(x, y, z)
            && earliest_far(x, y, z) >= 0,
{
}

/// The hit is the first point of the ray that is in the box: where the ray
/// starts outside, the latest entry, through the first axis that attains it;
/// where it starts inside, the earliest exit, through the first axis that
/// attains that. The face is the one that the ray meets there.
pub proof fn lemma_box_hit_is_first_crossing(x: Slab, y: Slab, z: Slab)
    requires
        x.ordered(),
        y.ordered(),
        z.ordered(),
        spec_box_hit(x, y, z) is Some,
    ensures
        ({
            let hit = spec_box_hit(x, y, z).unwrap();
            let t = hit_parameter(hit, x, y, z);
            &&& t is Num
            &&& t.key() >= 0
            &&& hit.exit <==> latest_near(x, y, z) < 0
            &&& !hit.exit ==> t.key() == latest_near(x, y, z)
            &&& hit.exit ==> t.key() == earliest_far(x, y, z)
            &&& hit.upper == (hit.exit != slab_of(hit.axis, x, y, z).reversed)
            &&& forall|a: Axis|
                #![trigger slab_of(a, x, y, z)]
                a.spec_index() < hit.axis.spec_index() ==> if hit.exit {
                    slab_of(a, x, y, z).far.key() > t.key()
                } else {
                    slab_of(a, x, y, z).near.key() < t.key()
                }
        }),
{
    let hit = spec_box_hit(x, y, z).unwrap();
    let t = hit_parameter(hit, x, y, z);
    assert forall|a: Axis|
        #![trigger slab_of(a, x, y, z)]
        a.spec_index() < hit.axis.spec_index() implies if hit.exit {
        slab_of(a, x, y, z).far.key() > t.key()
    } else {
        slab_of(a, x, y, z).near.key() < t.key()
    } by {
        match a {
            Axis::X => {},
            Axis::Y => {},
            Axis::Z => {},
        }
    }
}

/// A ray that runs along one axis from outside the box, and between the
/// planes of the other two axes, enters through the face of its own axis that
/// looks back at it: the lower face where it runs with the axis, the upper
/// where it runs against it.
pub proof fn lemma_axis_ray_enters_facing_face(axis: Axis, x: Slab, y: Slab, z: Slab)
    requires
        slab_of(axis, x, y, z).ordered(),
        slab_of(axis, x, y, z).near.key() >= 0,
        forall|other: Axis|
            other != axis ==> (#[trigger] slab_of(other, x, y, z)).near
                == Scalar::spec_neg_infinity() && slab_of(other, x, y, z).far
                == Scalar::spec_infinity(),
        slab_of(axis, x, y, z).near.finite_or_infinite(),
        slab_of(axis, x, y, z).far.finite_or_infinite(),
    ensures
        spec_box_hit(x, y, z) == Some(
            BoxHit { axis, upper: slab_of(axis, x, y, z).reversed, exit: false },
        ),
{
    assert(slab_of(Axis::X, x, y, z) == x);
    assert(slab_of(Axis::Y, x, y, z) == y);
    assert(slab_of(Axis::Z, x, y, z) == z);
}

/// A face of the box, by the direction it looks in.
#[derive(Debug, Clone, Copy, PartialEq, Eq, Structural)]
pub enum CubeFace {
    PosX,
    NegX,
    PosY,
    NegY,
    PosZ,
    NegZ,
}

/// How a face lies in the unfolded cube: a cross of four columns and three
/// rows, with the four side faces in the middle row.
#[derive(Debug, Clone, Copy, PartialEq, Eq, Structural)]
pub struct FaceLayout {
    /// The coordinate that runs along the face's horizontal edge.
    pub u_axis: Axis,
    /// That coordinate runs from right to left.
    pub u_flipped: bool,
    /// The coordinate that runs along the face's vertical edge.
    pub v_axis: Axis,
    /// That coordinate runs from top to bottom.
    pub v_flipped: bool,
    /// The face's column in the cross, from the left.
    pub column: usize,
    /// The face's row in the cross, from the bottom.
    pub row: usize,
}

/// Number of columns of the unfolded cube.
pub const LAYOUT_COLUMNS: usize = 4;

/// Number of rows of the unfolded cube.
pub const LAYOUT_ROWS: usize = 3;

/// The face that a point of the box's surface belongs to: the one along the
/// coordinate of largest magnitude, on the side of that coordinate's sign.
/// Between coordinates of equal magnitude x goes before y, and y before z; a
/// point with no such coordinate (the centre, or one that is not a number)
/// falls to the face that looks against z.
pub open spec fn spec_dominant_face(x: Scalar, y: Scalar, z: Scalar) -> CubeFace {
    let zero = Scalar::spec_zero();
    if x.spec_outweighs(y) && x.spec_outweighs(z) && x.spec_gt(zero) {
        CubeFace::PosX
    } else if x.spec_outweighs(y) && x.spec_outweighs(z) && x.spec_lt(zero) {
        CubeFace::NegX
    } else if y.spec_outweighs(x) && y.spec_outweighs(z) && y.spec_gt(zero) {
        CubeFace::PosY
    } else if y.spec_outweighs(x) && y.spec_outweighs(z) && y.spec_lt(zero) {
        CubeFace::NegY
    } else if z.spec_outweighs(x) && z.spec_outweighs(y) && z.spec_gt(zero) {
        CubeFace::PosZ
    } else {
        CubeFace::NegZ
    }
}

/// Finds the face of a surface point from its three coordinates.
pub fn dominant_face(x: Scalar, y: Scalar, z: Scalar) -> (face: CubeFace)
    ensures
        face == spec_dominant_face(x, y, z),
{
    let zero = Scalar::zero();
    let x_leads = x.outweighs(y) && x.outweighs(z);
    let y_leads = y.outweighs(x) && y.outweighs(z);
    let z_leads = z.outweighs(x) && z.outweighs(y);
    if x_leads && x.gt(zero) {
        CubeFace::PosX
    } else if x_leads && x.lt(zero) {
        CubeFace::NegX
    } else if y_leads && y.gt(zero) {
        CubeFace::PosY
    } else if y_leads && y.lt(zero) {
        CubeFace::NegY
    } else if z_leads && z.gt(zero) {
        CubeFace::PosZ
    } else {
        CubeFace::NegZ
    }
}

impl CubeFace {
    /// The axis that the face is perpendicular to.
    pub open spec fn spec_axis(self) -> Axis {
        match self {
            CubeFace::PosX | CubeFace::NegX => Axis::X,
            CubeFace::PosY | CubeFace::NegY => Axis::Y,
            CubeFace::PosZ | CubeFace::NegZ => Axis::Z,
        }
    }

    /// The face's place and bearing in the unfolded cube.
    pub open spec fn spec_layout(self) -> FaceLayout {
        match self {
            CubeFace::PosX => FaceLayout {
                u_axis: Axis::Z,
                u_flipped: false,
                v_axis: Axis::Y,
                v_flipped: false,
                column: 2,
                row: 1,
            },
            CubeFace::NegX => FaceLayout {
                u_axis: Axis::Z,
                u_flipped: true,
                v_axis: Axis::Y,
                v_flipped: false,
                column: 0,
                row: 1,
            },
            CubeFace::PosY => FaceLayout {
                u_axis: Axis::X,
                u_flipped: false,
                v_axis: Axis::Z,
                v_flipped: false,
                column: 1,
                row: 2,
            },
            CubeFace::NegY => FaceLayout {
                u_axis: Axis::X,
                u_flipped: false,
                v_axis: Axis::Z,
                v_flipped: true,
                column: 1,
                row: 0,
            },
            CubeFace::PosZ => FaceLayout {
                u_axis: Axis::X,
                u_flipped: true,
                v_axis: Axis::Y,
                v_flipped: false,
                column: 3,
                row: 1,
            },
            CubeFace::NegZ => FaceLayout {
                u_axis: Axis::X,
                u_flipped: false,
                v_axis: Axis::Y,
                v_flipped: false,
                column: 1,
                row: 1,
            },
        }
    }

    #[verifier::when_used_as_spec(spec_axis)]
    pub fn axis(self) -> (axis: Axis)
        ensures
            axis == self.spec_axis(),
    {
        match self {
            CubeFace::PosX | CubeFace::NegX => Axis::X,
            CubeFace::PosY | CubeFace::NegY => Axis::Y,
            CubeFace::PosZ | CubeFace::NegZ => Axis::Z,
        }
    }

    /// Where the face lies in the unfolded cube, and which coordinates run
    /// along its edges.
    #[verifier::when_used_as_spec(spec_layout)]
    pub fn layout(self) -> (layout: FaceLayout)
        ensures
            layout == self.spec_layout(),
            layout.column < LAYOUT_COLUMNS,
            layout.row < LAYOUT_ROWS,
            layout.u_axis != self.spec_axis(),
            layout.v_axis != self.spec_axis(),
            layout.u_axis != layout.v_axis,
    {
        let (u_axis, u_flipped, v_axis, v_flipped, column, row) = match self {
            CubeFace::PosX => (Axis::Z, false, Axis::Y, false, 2usize, 1usize),
            CubeFace::NegX => (Axis::Z, true, Axis::Y, false, 0usize, 1usize),
            CubeFace::PosY => (Axis::X, false, Axis::Z, false, 1usize, 2usize),
            CubeFace::NegY => (Axis::X, false, Axis::Z, true, 1usize, 0usize),
            CubeFace::PosZ => (Axis::X, true, Axis::Y, false, 3usize, 1usize),
            CubeFace::NegZ => (Axis::X, false, Axis::Y, false, 1usize, 1usize),
        };
        FaceLayout { u_axis, u_flipped, v_axis, v_flipped, column, row }
    }
}

/// No two faces share a cell of the unfolded cube.
pub proof fn lemma_layout_cells_differ(a: CubeFace, b: CubeFace)
    requires
        a != b,
    ensures
        a.spec_layout().column != b.spec_layout().column || a.spec_layout().row
            != b.spec_layout().row,
{
}

/// The face found for a point lies along a coordinate that no other
/// coordinate exceeds in magnitude, on the side of that coordinate's sign;
/// this for every point that has a coordinate other than zero.
pub proof fn lemma_dominant_face_leads(x: Scalar, y: Scalar, z: Scalar)
    requires
        x is Num,
        y is Num,
        z is Num,
        x.key() != 0 || y.key() != 0 || z.key() != 0,
    ensures
        ({
            let face = spec_dominant_face(x, y, z);
            let lead = match face.spec_axis() {
                Axis::X => x,
                Axis::Y => y,
                Axis::Z => z,
            };
            &&& lead.magnitude() >= x.magnitude()
            &&& lead.magnitude() >= y.magnitude()
            &&& lead.magnitude() >= z.magnitude()
            &&& lead.key() > 0 <==> (face == CubeFace::PosX || face == CubeFace::PosY || face
                == CubeFace::PosZ)
        }),
{
}

} // verus!
