use raytox::algebra::{cofactor, invertible, Term};
use raytox::geometry::sphere::{nearest_root, Root};
use raytox::scalar::Scalar;

fn scalar(x: f64) -> Scalar {
    Scalar::from_bits(x.to_bits())
}

type Matrix = [[f64; 4]; 4];
type Triple = [f64; 3];

fn scaling(by: Triple) -> Matrix {
    [
        [by[0], 0.0, 0.0, 0.0],
        [0.0, by[1], 0.0, 0.0],
        [0.0, 0.0, by[2], 0.0],
        [0.0, 0.0, 0.0, 1.0],
    ]
}

fn translated(mut m: Matrix, by: Triple) -> Matrix {
    for row in 0..3 {
        m[row][3] += by[row];
    }
    m
}

fn inverse(m: &Matrix) -> Option<Matrix> {
    let product = |t: &Term| {
        let product = m[t.first.row][t.first.column]
            * m[t.second.row][t.second.column]
            * m[t.third.row][t.third.column];
        if t.negative {
            -product
        } else {
            product
        }
    };
    let mut inv = [[0.0; 4]; 4];
    for i in 0..4 {
        for j in 0..4 {
            let terms = cofactor(i, j);
            inv[i][j] = terms[1..].iter().fold(product(&terms[0]), |sum, t| sum + product(t));
        }
    }
    let det = m[0][0] * inv[0][0] + m[0][1] * inv[1][0] + m[0][2] * inv[2][0] + m[0][3] * inv[3][0];
    if !invertible(scalar(det)) {
        return None;
    }
    for row in inv.iter_mut() {
        for entry in row.iter_mut() {
            *entry *= 1.0 / det;
        }
    }
    Some(inv)
}

fn transpose(m: &Matrix) -> Matrix {
    let mut t = [[0.0; 4]; 4];
    for i in 0..4 {
        for j in 0..4 {
            t[i][j] = m[j][i];
        }
    }
    t
}

/// A matrix times a direction, whose fourth coordinate is 0.
fn direction(m: &Matrix, v: Triple) -> Triple {
    let row = |r: usize| m[r][0] * v[0] + m[r][1] * v[1] + m[r][2] * v[2];
    [row(0), row(1), row(2)]
}

/// A matrix times a point, whose fourth coordinate is 1.
fn point(m: &Matrix, p: Triple) -> Triple {
    let row = |r: usize| m[r][0] * p[0] + m[r][1] * p[1] + m[r][2] * p[2] + m[r][3];
    [row(0), row(1), row(2)]
}

fn dot(a: Triple, b: Triple) -> f64 {
    a[0] * b[0] + a[1] * b[1] + a[2] * b[2]
}

fn sub(a: Triple, b: Triple) -> Triple {
    [a[0] - b[0], a[1] - b[1], a[2] - b[2]]
}

fn normalize(a: Triple) -> Triple {
    let length = dot(a, a).sqrt();
    [a[0] / length, a[1] / length, a[2] / length]
}

type Hit = (f64, Triple, Triple);

fn unit_sphere(o: Triple, u: Triple) -> Option<Hit> {
    let a = dot(u, u);
    let b = 2.0 * dot(u, o);
    let c = dot(o, o) - 1.0;
    let discrim = b * b - 4.0 * a * c;
    let double = -b / (2.0 * a);
    let plus = (-b + discrim.sqrt()) / (2.0 * a);
    let minus = (-b - discrim.sqrt()) / (2.0 * a);
    let t = match nearest_root(scalar(discrim), scalar(double), scalar(plus), scalar(minus))? {
        Root::Double => double,
        Root::Plus => plus,
        Root::Minus => minus,
    };
    let p = [o[0] + t * u[0], o[1] + t * u[1], o[2] + t * u[2]];
    Some((t, p, p))
}

/// Intersects a ray with a unit sphere under a transform: the ray is
/// carried into the sphere's own space, and the hit back out of it.
fn intersect(transform: &Matrix, origin: Triple, dir: Triple) -> Option<Hit> {
    let inv = inverse(transform).expect("could not invert transform");
    let (_, position, normal) = unit_sphere(point(&inv, origin), direction(&inv, dir))?;
    let lifted = point(transform, position);
    let new_normal = direction(&transpose(&inv), normal);
    let t = dot(sub(lifted, origin), sub(lifted, origin)).sqrt();
    Some((t, lifted, normalize(new_normal)))
}

#[test]
fn scale() {
    let transform = scaling([2.0, 2.0, 2.0]);
    assert_eq!(
        intersect(&transform, [0.0, 0.0, -10.0], [0.0, 0.0, 1.0]),
        Some((8.0, [0.0, 0.0, -2.0], [0.0, 0.0, -1.0]))
    );
}

#[test]
fn lifted_hit_lies_at_its_distance_along_the_ray() {
    let transform = translated(scaling([5.0, 5.0, 5.0]), [0.0, 0.0, 10.0]);
    let origin = [0.0, 0.0, 0.0];
    let dir = [0.0, 0.0, 1.0];
    let (t, position, normal) = intersect(&transform, origin, dir).unwrap();
    assert_eq!((t, position, normal), (5.0, [0.0, 0.0, 5.0], [0.0, 0.0, -1.0]));
    assert_eq!(
        [origin[0] + t * dir[0], origin[1] + t * dir[1], origin[2] + t * dir[2]],
        position
    );
}

#[test]
fn distance_does_not_depend_on_the_length_of_the_direction() {
    let transform = translated(scaling([4.0, 4.0, 4.0]), [0.0, 0.0, 8.0]);
    let (t, position, _) = intersect(&transform, [0.0, 0.0, 0.0], [0.0, 0.0, 2.0]).unwrap();
    assert_eq!((t, position), (4.0, [0.0, 0.0, 4.0]));
}

#[test]
fn squashed_sphere_keeps_outward_normals() {
    // Under an uneven scale the normal is carried by the transposed
    // inverse, and made a unit vector again.
    let transform = scaling([1.0, 4.0, 1.0]);
    let (t, position, normal) = intersect(&transform, [0.0, 10.0, 0.0], [0.0, -1.0, 0.0]).unwrap();
    assert_eq!((t, position, normal), (6.0, [0.0, 4.0, 0.0], [0.0, 1.0, 0.0]));
}

#[test]
fn flattened_entity_has_no_inverse() {
    assert_eq!(inverse(&scaling([1.0, 0.0, 1.0])), None);
    assert_eq!(inverse(&translated(scaling([0.0, 0.0, 0.0]), [1.0, 2.0, 3.0])), None);
}
