use raytox::algebra::{approx_equal, cofactor, degenerate, invertible, Cell, Term};
use raytox::geometry::Axis;
use raytox::scalar::Scalar;

fn scalar(x: f64) -> Scalar {
    Scalar::from_bits(x.to_bits())
}

fn differences(a: &[f64], b: &[f64]) -> Vec<Scalar> {
    a.iter().zip(b.iter()).map(|(x, y)| scalar(x - y)).collect()
}

#[test]
fn zero_determinant_has_no_inverse() {
    assert!(!invertible(scalar(0.0)));
    assert!(!invertible(scalar(-0.0)));
    assert!(invertible(scalar(1.0)));
    assert!(invertible(scalar(-131479.0)));
    assert!(invertible(scalar(5e-324)));
    assert!(invertible(scalar(f64::NAN)));
}

#[test]
fn short_vectors_are_degenerate() {
    assert!(degenerate(scalar(0.0)));
    assert!(degenerate(scalar(0.9e-6)));
    assert!(!degenerate(scalar(1e-6)));
    assert!(!degenerate(scalar(1.0)));
    assert!(!degenerate(scalar(f64::NAN)));
}

#[test]
fn matrices_are_equal_within_tolerance() {
    let m = [6.0, 3.0, 65.0, 12.0];
    assert!(approx_equal(&differences(&m, &m)));
    assert!(approx_equal(&differences(&m, &[6.0000005, 3.0, 64.9999995, 12.0])));
    assert!(!approx_equal(&differences(&m, &[6.00001, 3.0, 65.0, 12.0])));
    assert!(!approx_equal(&differences(&m, &[6.0, 3.0, 65.0, 11.0])));
    assert!(!approx_equal(&differences(&m, &[6.0, f64::NAN, 65.0, 12.0])));
    assert!(approx_equal(&vec![scalar(1e-6), scalar(-1e-6)]));
    assert!(approx_equal(&Vec::new()));
}

#[test]
fn inverse_entries_match_their_fractions() {
    // The first row of the inverse of a matrix with determinant -131479,
    // from its cofactors.
    let cofactors = [4705.0, 9184.0, -34779.0, -6683.0];
    let determinant = -131479.0;
    assert!(invertible(scalar(determinant)));
    let inverse: Vec<f64> = cofactors.iter().map(|c| c * (1.0 / determinant)).collect();
    let expected = [
        -4705.0 / 131479.0,
        -9184.0 / 131479.0,
        34779.0 / 131479.0,
        6683.0 / 131479.0,
    ];
    assert!(approx_equal(&differences(&inverse, &expected)));
}

#[test]
fn axes_index_their_coordinates() {
    assert_eq!(Axis::X.index(), 0);
    assert_eq!(Axis::Y.index(), 1);
    assert_eq!(Axis::Z.index(), 2);
}

#[test]
fn rotations_turn_the_next_axis_towards_the_one_after() {
    assert_eq!(Axis::X.turning(), (1, 2));
    assert_eq!(Axis::Y.turning(), (2, 0));
    assert_eq!(Axis::Z.turning(), (0, 1));
}


fn cell(row: usize, column: usize) -> Cell {
    Cell { row, column }
}

#[test]
fn cofactor_lists_signed_products() {
    assert_eq!(
        cofactor(0, 0),
        vec![
            Term { negative: false, first: cell(1, 1), second: cell(2, 2), third: cell(3, 3) },
            Term { negative: true, first: cell(1, 1), second: cell(2, 3), third: cell(3, 2) },
            Term { negative: true, first: cell(2, 1), second: cell(1, 2), third: cell(3, 3) },
            Term { negative: false, first: cell(2, 1), second: cell(1, 3), third: cell(3, 2) },
            Term { negative: false, first: cell(3, 1), second: cell(1, 2), third: cell(2, 3) },
            Term { negative: true, first: cell(3, 1), second: cell(1, 3), third: cell(2, 2) },
        ]
    );
    assert_eq!(
        cofactor(1, 0),
        vec![
            Term { negative: true, first: cell(1, 0), second: cell(2, 2), third: cell(3, 3) },
            Term { negative: false, first: cell(1, 0), second: cell(2, 3), third: cell(3, 2) },
            Term { negative: false, first: cell(2, 0), second: cell(1, 2), third: cell(3, 3) },
            Term { negative: true, first: cell(2, 0), second: cell(1, 3), third: cell(3, 2) },
            Term { negative: true, first: cell(3, 0), second: cell(1, 2), third: cell(2, 3) },
            Term { negative: false, first: cell(3, 0), second: cell(1, 3), third: cell(2, 2) },
        ]
    );
    assert_eq!(
        cofactor(3, 3),
        vec![
            Term { negative: false, first: cell(0, 0), second: cell(1, 1), third: cell(2, 2) },
            Term { negative: true, first: cell(0, 0), second: cell(1, 2), third: cell(2, 1) },
            Term { negative: true, first: cell(1, 0), second: cell(0, 1), third: cell(2, 2) },
            Term { negative: false, first: cell(1, 0), second: cell(0, 2), third: cell(2, 1) },
            Term { negative: false, first: cell(2, 0), second: cell(0, 1), third: cell(1, 2) },
            Term { negative: true, first: cell(2, 0), second: cell(0, 2), third: cell(1, 1) },
        ]
    );
}

#[test]
fn cofactor_takes_one_entry_of_each_row_and_column_left() {
    for i in 0..4 {
        for j in 0..4 {
            let terms = cofactor(i, j);
            assert_eq!(terms.len(), 6);
            for term in terms.iter() {
                let mut rows = vec![term.first.row, term.second.row, term.third.row];
                let mut columns = vec![term.first.column, term.second.column, term.third.column];
                rows.sort();
                columns.sort();
                assert_eq!(rows, (0..4).filter(|r| *r != j).collect::<Vec<usize>>());
                assert_eq!(columns, (0..4).filter(|c| *c != i).collect::<Vec<usize>>());
            }
            for n in 0..6 {
                for k in 0..n {
                    assert_ne!(
                        (terms[n].first, terms[n].second, terms[n].third),
                        (terms[k].first, terms[k].second, terms[k].third)
                    );
                }
            }
        }
    }
}

const SAMPLE: [[i64; 4]; 4] = [[6, 3, 65, 12], [3, 43, 5, 9], [5, 1, 8, 4], [2, 56, 11, 0]];

fn adjugate(m: &[[i64; 4]; 4]) -> [[i64; 4]; 4] {
    let mut adj = [[0; 4]; 4];
    for i in 0..4 {
        for j in 0..4 {
            adj[i][j] = cofactor(i, j)
                .iter()
                .map(|t| {
                    let product = m[t.first.row][t.first.column]
                        * m[t.second.row][t.second.column]
                        * m[t.third.row][t.third.column];
                    if t.negative {
                        -product
                    } else {
                        product
                    }
                })
                .sum();
        }
    }
    adj
}

#[test]
fn matrix_times_adjugate_is_determinant_times_identity() {
    let adj = adjugate(&SAMPLE);
    assert_eq!(
        adj,
        [
            [-4705, -9184, 34779, 6683],
            [-259, 724, -852, 1821],
            [2174, -2016, -1986, 1467],
            [1598, 15331, -6419, -11743],
        ]
    );
    let det: i64 = (0..4).map(|k| SAMPLE[0][k] * adj[k][0]).sum();
    assert_eq!(det, 131479);
    for i in 0..4 {
        for j in 0..4 {
            let right: i64 = (0..4).map(|k| SAMPLE[i][k] * adj[k][j]).sum();
            let left: i64 = (0..4).map(|k| adj[i][k] * SAMPLE[k][j]).sum();
            assert_eq!(right, if i == j { det } else { 0 });
            assert_eq!(left, if i == j { det } else { 0 });
        }
    }
}

fn adjugate_wide(m: &[[i128; 4]; 4]) -> [[i128; 4]; 4] {
    let mut adj = [[0; 4]; 4];
    for i in 0..4 {
        for j in 0..4 {
            adj[i][j] = cofactor(i, j)
                .iter()
                .map(|t| {
                    let product = m[t.first.row][t.first.column]
                        * m[t.second.row][t.second.column]
                        * m[t.third.row][t.third.column];
                    if t.negative {
                        -product
                    } else {
                        product
                    }
                })
                .sum();
        }
    }
    adj
}

#[test]
fn adjugate_of_adjugate_gives_the_matrix_back() {
    let mut m = [[0i128; 4]; 4];
    for i in 0..4 {
        for j in 0..4 {
            m[i][j] = SAMPLE[i][j] as i128;
        }
    }
    let adj = adjugate_wide(&m);
    let twice = adjugate_wide(&adj);
    let det: i128 = (0..4).map(|k| m[0][k] * adj[k][0]).sum();
    let det_of_adjugate: i128 = (0..4).map(|k| adj[0][k] * twice[k][0]).sum();
    assert_eq!(det, 131479);
    assert_eq!(det_of_adjugate, det * det * det);
    for i in 0..4 {
        for j in 0..4 {
            assert_eq!(det * twice[i][j], det_of_adjugate * m[i][j]);
            assert_eq!(twice[i][j], det * det * m[i][j]);
        }
    }
}

#[test]
fn singular_matrix_has_zero_determinant() {
    let singular = [[1, 2, 3, 4], [2, 4, 6, 8], [0, 1, 0, 1], [5, 0, 0, 2]];
    let adj = adjugate(&singular);
    let det: i64 = (0..4).map(|k| singular[0][k] * adj[k][0]).sum();
    assert_eq!(det, 0);
    assert!(!invertible(scalar(det as f64)));
}

/// Inverts a matrix as a ray tracer does: the rounded sums here, the
/// products of each cofactor and the verdict on the determinant from the
/// library.
fn inverse(m: &[[f64; 4]; 4]) -> Option<[[f64; 4]; 4]> {
    let product = |t: &Term| {
        let product = m[t.first.row][t.first.column]
            * m[t.second.row][t.second.column]
            * m[t.third.row][t.third.column];
        if t.negative {
            -product
        } else {
            product
        }
    };
    let mut inv = [[0.0; 4]; 4];
    for i in 0..4 {
        for j in 0..4 {
            let terms = cofactor(i, j);
            inv[i][j] = terms[1..].iter().fold(product(&terms[0]), |sum, t| sum + product(t));
        }
    }
    let det = m[0][0] * inv[0][0] + m[0][1] * inv[1][0] + m[0][2] * inv[2][0] + m[0][3] * inv[3][0];
    if !invertible(scalar(det)) {
        return None;
    }
    let inv_det = 1.0 / det;
    for row in inv.iter_mut() {
        for entry in row.iter_mut() {
            *entry *= inv_det;
        }
    }
    Some(inv)
}

fn equal(a: &[[f64; 4]; 4], b: &[[f64; 4]; 4]) -> bool {
    let a: Vec<f64> = a.iter().flatten().copied().collect();
    let b: Vec<f64> = b.iter().flatten().copied().collect();
    approx_equal(&differences(&a, &b))
}

const IDENTITY: [[f64; 4]; 4] = [
    [1.0, 0.0, 0.0, 0.0],
    [0.0, 1.0, 0.0, 0.0],
    [0.0, 0.0, 1.0, 0.0],
    [0.0, 0.0, 0.0, 1.0],
];

#[test]
fn invert() {
    assert_eq!(inverse(&IDENTITY), Some(IDENTITY));

    let actual = inverse(&[
        [6.0, 3.0, 65.0, 12.0],
        [3.0, 43.0, 5.0, 9.0],
        [5.0, 1.0, 8.0, 4.0],
        [2.0, 56.0, 11.0, 0.0],
    ])
    .unwrap();
    let expected = [
        [
            -4705.0 / 131479.0,
            -9184.0 / 131479.0,
            34779.0 / 131479.0,
            6683.0 / 131479.0,
        ],
        [
            -259.0 / 131479.0,
            724.0 / 131479.0,
            -852.0 / 131479.0,
            1821.0 / 131479.0,
        ],
        [
            2174.0 / 131479.0,
            -2016.0 / 131479.0,
            -1986.0 / 131479.0,
            1467.0 / 131479.0,
        ],
        [
            1598.0 / 131479.0,
            15331.0 / 131479.0,
            -6419.0 / 131479.0,
            -11743.0 / 131479.0,
        ],
    ];
    assert!(equal(&actual, &expected));
}

#[test]
fn inverse_of_singular_matrix_is_none() {
    let singular = [
        [1.0, 2.0, 3.0, 4.0],
        [2.0, 4.0, 6.0, 8.0],
        [0.0, 1.0, 0.0, 1.0],
        [5.0, 0.0, 0.0, 2.0],
    ];
    assert_eq!(inverse(&singular), None);
}

#[test]
fn inverse_inverts_from_both_sides_and_twice() {
    let m = [
        [2.0, 0.0, 0.0, 3.0],
        [0.0, 0.5, 0.0, -1.0],
        [0.0, 0.0, 4.0, 7.0],
        [0.0, 0.0, 0.0, 1.0],
    ];
    let inverted = inverse(&m).unwrap();
    let mut right = [[0.0; 4]; 4];
    let mut left = [[0.0; 4]; 4];
    for i in 0..4 {
        for j in 0..4 {
            for k in 0..4 {
                right[i][j] += m[i][k] * inverted[k][j];
                left[i][j] += inverted[i][k] * m[k][j];
            }
        }
    }
    assert!(equal(&right, &IDENTITY));
    assert!(equal(&left, &IDENTITY));
    assert!(equal(&inverse(&inverted).unwrap(), &m));
}

/// The cross product as a ray tracer computes it: the products here, the
/// coordinates that go into each component from the library.
fn cross(v: [f64; 3], w: [f64; 3]) -> [f64; 3] {
    let crossed = |axis: Axis| {
        let (a, b) = axis.turning();
        v[a] * w[b] - v[b] * w[a]
    };
    [crossed(Axis::X), crossed(Axis::Y), crossed(Axis::Z)]
}

#[test]
fn cross_product_follows_the_right_hand() {
    let (i, j, k) = ([1.0, 0.0, 0.0], [0.0, 1.0, 0.0], [0.0, 0.0, 1.0]);
    assert_eq!(cross(i, j), k);
    assert_eq!(cross(j, k), i);
    assert_eq!(cross(k, i), j);
    assert_eq!(cross(j, i), [0.0, 0.0, -1.0]);
    assert_eq!(cross([2.0, 3.0, 4.0], [5.0, 6.0, 7.0]), [-3.0, 6.0, -3.0]);
}

#[test]
fn cross_product_is_perpendicular_to_its_factors() {
    let v = [2.0, 3.0, 4.0];
    let w = [5.0, 6.0, 7.0];
    let n = cross(v, w);
    assert_eq!(v[0] * n[0] + v[1] * n[1] + v[2] * n[2], 0.0);
    assert_eq!(w[0] * n[0] + w[1] * n[1] + w[2] * n[2], 0.0);
}

/// The rotation about an axis, applied to a vector.
fn rotate(axis: Axis, degrees: f64, v: [f64; 3]) -> [f64; 3] {
    let angle = degrees.to_radians();
    let (a, b) = axis.turning();
    let mut r = [[1.0, 0.0, 0.0], [0.0, 1.0, 0.0], [0.0, 0.0, 1.0]];
    r[a][a] = angle.cos();
    r[a][b] = -angle.sin();
    r[b][a] = angle.sin();
    r[b][b] = angle.cos();
    let mut turned = [0.0; 3];
    for row in 0..3 {
        turned[row] = r[row][0] * v[0] + r[row][1] * v[1] + r[row][2] * v[2];
    }
    turned
}

fn close(a: [f64; 3], b: [f64; 3]) -> bool {
    approx_equal(&differences(&a, &b))
}

#[test]
fn quarter_turns_carry_each_axis_to_the_next() {
    let (i, j, k) = ([1.0, 0.0, 0.0], [0.0, 1.0, 0.0], [0.0, 0.0, 1.0]);
    assert!(close(rotate(Axis::Z, 90.0, i), j));
    assert!(close(rotate(Axis::X, 90.0, j), k));
    assert!(close(rotate(Axis::Y, 90.0, k), i));
    assert!(close(rotate(Axis::Z, -90.0, j), i));
    assert!(close(rotate(Axis::Z, 90.0, k), k));
    assert!(close(rotate(Axis::X, 180.0, [1.0, 2.0, 3.0]), [1.0, -2.0, -3.0]));
}
