//! Polygon meshes: which vertex lists make faces, which points lie inside a
//! face, how far a mesh reaches, and which of its faces a ray hits.
use vstd::prelude::*;
use crate::geometry::cube::BoxHit;
use crate::geometry::intersection::{comparable, all_missed, is_nearest, nearest, Incomparable};
use crate::scalar::{Scalar, INFINITY_KEY};

verus! {

/// Number of vertices that a face has at least.
pub const MIN_VERTICES: usize = 3;

/// Why a list of vertices makes no face.
#[derive(Debug, Clone, Copy, PartialEq, Eq, Structural)]
pub enum MeshError {
    /// The face has fewer than three vertices.
    NotEnoughVertices,
    /// The face names a vertex that the mesh does not have.
    UnknownVertex,
}

impl MeshError {
    /// The error in words.
    pub fn message(&self) -> (text: String)
        ensures
            text@ == match *self {
                MeshError::NotEnoughVertices => "Not enough vertices"@,
                MeshError::UnknownVertex => "Unknown vertex"@,
            },
    {
        match self {
            MeshError::NotEnoughVertices => String::from_str("Not enough vertices"),
            MeshError::UnknownVertex => String::from_str("Unknown vertex"),
        }
    }
}

/// Accepts a face by the number of its vertices.
pub fn check_face(vertices: usize) -> (checked: Result<(), MeshError>)
    ensures
        checked is Ok <==> vertices >= MIN_VERTICES,
        checked is Err ==> checked == Err::<(), MeshError>(MeshError::NotEnoughVertices),
{
    if vertices < MIN_VERTICES {
        Err(MeshError::NotEnoughVertices)
    } else {
        Ok(())
    }
}

/// The edges of a face of `count` vertices, each by the places of its two
/// ends: every vertex is joined to the next, and the last to the first.
pub open spec fn spec_edges(count: int) -> Seq<(usize, usize)> {
    Seq::new(count as nat, |i: int| (i as usize, ((i + 1) % count) as usize))
}

/// Lists the edges of a face in the order of its vertices.
pub fn edges(count: usize) -> (list: Vec<(usize, usize)>)
    ensures
        list@ == spec_edges(count as int),
{
    let mut list: Vec<(usize, usize)> = Vec::new();
    let mut i: usize = 0;
    while i < count
        invariant
            i <= count,
            list@.len() == i,
            forall|k: int| 0 <= k < i ==> #[trigger] list@[k] == spec_edges(count as int)[k],
        decreases count - i,
    {
        let next = if i + 1 == count {
            0
        } else {
            i + 1
        };
        assert(next == (i + 1) % (count as int)) by (nonlinear_arith)
            requires
                0 <= i < count,
                next == if i + 1 == count {
                    0
                } else {
                    i + 1
                },
        ;
        list.push((i, next));
        i = i + 1;
    }
    assert(list@ =~= spec_edges(count as int));
    list
}

/// The edges of a face close a loop: each vertex starts one edge and ends
/// the edge before it.
pub proof fn lemma_edges_close(count: int, i: int)
    requires
        0 <= i < count,
        count <= usize::MAX,
    ensures
        spec_edges(count).len() == count,
        spec_edges(count)[i].0 == i,
        spec_edges(count)[(i + count - 1) % count].1 == i,
{
    let before = (i + count - 1) % count;
    if i == 0 {
        assert(before == count - 1) by (nonlinear_arith)
            requires
                before == (count - 1) % count,
                count > 0,
        ;
        assert((before + 1) % count == 0) by (nonlinear_arith)
            requires
                before == count - 1,
                count > 0,
        ;
    } else {
        assert(before == i - 1) by (nonlinear_arith)
            requires
                before == (i - 1 + count) % count,
                0 < i < count,
        ;
        assert((before + 1) % count == i) by (nonlinear_arith)
            requires
                before == i - 1,
                0 < i < count,
        ;
    }
}

/// A point of a face's plane lies inside the face when it lies on the inner
/// side of every edge. `turns` holds for each edge the turn that the point
/// makes against it, measured along the face's normal; the point counts as
/// inside while no turn is at or beyond the tolerance on the outer side.
pub open spec fn spec_inside(turns: Seq<Scalar>) -> bool {
    forall|i: int| 0 <= i < turns.len() ==> (#[trigger] turns[i]).spec_gt(Scalar::spec_neg_epsilon())
}

/// Tests a point of a face's plane against the face's edges.
pub fn inside(turns: &Vec<Scalar>) -> (r: bool)
    ensures
        r == spec_inside(turns@),
{
    let mut i: usize = 0;
    while i < turns.len()
        invariant
            i <= turns.len(),
            forall|k: int| 0 <= k < i ==> (#[trigger] turns@[k]).spec_gt(Scalar::spec_neg_epsilon()),
        decreases turns.len() - i,
    {
        if !turns[i].gt(Scalar::neg_epsilon()) {
            return false;
        }
        i = i + 1;
    }
    true
}

/// A ray hits a face where it hits the front of the face's plane at a point
/// inside the face. Where the plane is missed the turns are not looked at.
pub fn face_hit(on_plane: bool, turns: &Vec<Scalar>) -> (hit: bool)
    ensures
        hit == (on_plane && spec_inside(turns@)),
{
    on_plane && inside(turns)
}

/// What keeps a list of vertex numbers from being a face of a mesh of
/// `vertex_count` vertices. A number outside the mesh is found before the
/// vertices are counted.
pub open spec fn face_fault(vertex_count: int, face: Seq<i32>) -> Option<MeshError> {
    if exists|k: int| 0 <= k < face.len() && !(0 <= #[trigger] face[k] < vertex_count) {
        Some(MeshError::UnknownVertex)
    } else if face.len() < MIN_VERTICES {
        Some(MeshError::NotEnoughVertices)
    } else {
        None
    }
}

/// The vertices of a face as the mesh lists them: in the opposite order, so
/// that the face's winding is turned round.
pub open spec fn rewound(face: Seq<i32>) -> Seq<usize> {
    Seq::new(face.len(), |k: int| face[face.len() - 1 - k] as usize)
}

fn resolve_face(vertex_count: usize, face: &Vec<i32>) -> (r: Result<Vec<usize>, MeshError>)
    ensures
        r is Ok <==> face_fault(vertex_count as int, face@) is None,
        r matches Ok(list) ==> list@ == rewound(face@),
        r matches Err(e) ==> face_fault(vertex_count as int, face@) == Some(e),
{
    let mut list: Vec<usize> = Vec::new();
    let n = face.len();
    let mut k: usize = 0;
    while k < n
        invariant
            n == face.len(),
            k <= n,
            list@.len() == k,
            forall|j: int| 0 <= j < k ==> #[trigger] list@[j] == rewound(face@)[j],
            forall|j: int| n - k <= j < n ==> 0 <= #[trigger] face@[j] < vertex_count,
        decreases n - k,
    {
        let number = face[n - 1 - k];
        if number < 0 {
            return Err(MeshError::UnknownVertex);
        }
        let place = number as usize;
        if place >= vertex_count {
            return Err(MeshError::UnknownVertex);
        }
        list.push(place);
        k = k + 1;
    }
    if n < MIN_VERTICES {
        return Err(MeshError::NotEnoughVertices);
    }
    assert(list@ =~= rewound(face@));
    Ok(list)
}

/// Turns the faces of a mesh file, lists of vertex numbers, into faces of
/// the mesh. Each face comes out with its vertices in the opposite order. The
/// first list that is no face fails the whole mesh.
pub fn resolve_faces(vertex_count: usize, faces: &Vec<Vec<i32>>) -> (r: Result<
    Vec<Vec<usize>>,
    MeshError,
>)
    ensures
        r is Ok <==> forall|f: int|
            0 <= f < faces@.len() ==> face_fault(vertex_count as int, (#[trigger] faces@[f])@)
                is None,
        r matches Ok(out) ==> {
            &&& out@.len() == faces@.len()
            &&& forall|f: int| 0 <= f < out@.len() ==> (#[trigger] out@[f])@ == rewound(faces@[f]@)
        },
        r matches Err(e) ==> exists|f: int|
            {
                &&& 0 <= f < faces@.len()
                &&& face_fault(vertex_count as int, (#[trigger] faces@[f])@) == Some(e)
                &&& forall|g: int|
                    0 <= g < f ==> face_fault(vertex_count as int, (#[trigger] faces@[g])@) is None
            },
{
    let mut out: Vec<Vec<usize>> = Vec::new();
    let mut f: usize = 0;
    while f < faces.len()
        invariant
            f <= faces.len(),
            out@.len() == f,
            forall|g: int|
                0 <= g < f ==> face_fault(vertex_count as int, (#[trigger] faces@[g])@) is None,
            forall|g: int| 0 <= g < f ==> (#[trigger] out@[g])@ == rewound(faces@[g]@),
        decreases faces.len() - f,
    {
        match resolve_face(vertex_count, &faces[f]) {
            Ok(list) => {
                out.push(list);
            },
            Err(e) => {
                assert(face_fault(vertex_count as int, faces@[f as int]@) == Some(e));
                return Err(e);
            },
        }
        f = f + 1;
    }
    Ok(out)
}

/// Place `i` holds the lowest of the values: a number below infinity that no
/// number among them is below, and the first such.
pub open spec fn is_lowest(values: Seq<Scalar>, i: int) -> bool {
    &&& 0 <= i < values.len()
    &&& values[i].spec_lt(Scalar::spec_infinity())
    &&& forall|j: int|
        0 <= j < values.len() && (#[trigger] values[j]) is Num ==> values[i].key()
            <= values[j].key()
    &&& forall|j: int|
        0 <= j < i && (#[trigger] values[j]) is Num ==> values[i].key() < values[j].key()
}

/// Place `i` holds the highest of the values: a number above negative
/// infinity that no number among them is above, and the first such.
pub open spec fn is_highest(values: Seq<Scalar>, i: int) -> bool {
    &&& 0 <= i < values.len()
    &&& values[i].spec_gt(Scalar::spec_neg_infinity())
    &&& forall|j: int|
        0 <= j < values.len() && (#[trigger] values[j]) is Num ==> values[i].key()
            >= values[j].key()
    &&& forall|j: int|
        0 <= j < i && (#[trigger] values[j]) is Num ==> values[i].key() > values[j].key()
}

/// Finds where a box around the values begins along one axis. `None` says
/// that no value pulls the bound in from infinity, where it starts.
pub fn lowest(values: &Vec<Scalar>) -> (found: Option<usize>)
    ensures
        found is None <==> forall|j: int|
            0 <= j < values@.len() ==> !(#[trigger] values@[j]).spec_lt(Scalar::spec_infinity()),
        found matches Some(i) ==> is_lowest(values@, i as int),
{
    let mut found: Option<usize> = None;
    let mut bound: i64 = INFINITY_KEY;
    let mut k: usize = 0;
    while k < values.len()
        invariant
            k <= values.len(),
            bound <= INFINITY_KEY,
            found is None ==> bound == INFINITY_KEY,
            found is None <==> forall|j: int|
                0 <= j < k ==> !(#[trigger] values@[j]).spec_lt(Scalar::spec_infinity()),
            forall|j: int| 0 <= j < k && (#[trigger] values@[j]) is Num ==> bound <= values@[j].key(),
            found matches Some(i) ==> {
                &&& i < k
                &&& values@[i as int] == Scalar::Num(bound)
                &&& bound < INFINITY_KEY
                &&& forall|j: int|
                    0 <= j < i && (#[trigger] values@[j]) is Num ==> bound < values@[j].key()
            },
        decreases values.len() - k,
    {
        if let Scalar::Num(key) = values[k] {
            if key < bound {
                bound = key;
                found = Some(k);
            }
        }
        k = k + 1;
    }
    found
}

/// Finds where a box around the values ends along one axis. `None` says that
/// no value pulls the bound in from negative infinity, where it starts.
pub fn highest(values: &Vec<Scalar>) -> (found: Option<usize>)
    ensures
        found is None <==> forall|j: int|
            0 <= j < values@.len() ==> !(#[trigger] values@[j]).spec_gt(
                Scalar::spec_neg_infinity(),
            ),
        found matches Some(i) ==> is_highest(values@, i as int),
{
    let mut found: Option<usize> = None;
    let mut bound: i64 = -INFINITY_KEY;
    let mut k: usize = 0;
    while k < values.len()
        invariant
            k <= values.len(),
            bound >= -INFINITY_KEY,
            found is None ==> bound == -INFINITY_KEY,
            found is None <==> forall|j: int|
                0 <= j < k ==> !(#[trigger] values@[j]).spec_gt(Scalar::spec_neg_infinity()),
            forall|j: int| 0 <= j < k && (#[trigger] values@[j]) is Num ==> bound >= values@[j].key(),
            found matches Some(i) ==> {
                &&& i < k
                &&& values@[i as int] == Scalar::Num(bound)
                &&& bound > -INFINITY_KEY
                &&& forall|j: int|
                    0 <= j < i && (#[trigger] values@[j]) is Num ==> bound > values@[j].key()
            },
        decreases values.len() - k,
    {
        if let Scalar::Num(key) = values[k] {
            if key > bound {
                bound = key;
                found = Some(k);
            }
        }
        k = k + 1;
    }
    found
}

/// Picks the face of a mesh that a ray hits. A ray that misses the box
/// around the mesh hits no face, and the faces are not looked at; else the
/// nearest hit among the faces counts.
pub fn mesh_hit(bounding: Option<BoxHit>, faces: &Vec<Option<Scalar>>) -> (found: Result<
    Option<usize>,
    Incomparable,
>)
    ensures
        bounding is None ==> found == Ok::<Option<usize>, Incomparable>(None),
        bounding is Some ==> {
            &&& found is Err <==> !comparable(faces@)
            &&& found matches Ok(None) ==> all_missed(faces@)
            &&& found matches Ok(Some(i)) ==> is_nearest(faces@, i as int)
        },
{
    if bounding.is_none() {
        return Ok(None);
    }
    nearest(faces)
}

} // verus!
