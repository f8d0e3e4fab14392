//! Vectors and matrices: when a transform can be inverted, when a direction
//! is too short to build on, and when two matrices count as equal.
use vstd::prelude::*;
use crate::scalar::Scalar;

verus! {

/// A matrix can be inverted unless its determinant is exactly zero.
pub open spec fn spec_invertible(determinant: Scalar) -> bool {
    !determinant.spec_same(Scalar::spec_zero())
}

/// Decides from its determinant whether a matrix has an inverse.
#[verifier::when_used_as_spec(spec_invertible)]
pub fn invertible(determinant: Scalar) -> (r: bool)
    ensures
        r == spec_invertible(determinant),
{
    !determinant.same(Scalar::zero())
}

/// A vector is too short to give a direction when its length is below the
/// tolerance. A cross product this short says that its two factors are all
/// but parallel, and that another reference axis is needed.
pub open spec fn spec_degenerate(length: Scalar) -> bool {
    length.spec_lt(Scalar::spec_epsilon())
}

/// Decides from its length whether a vector is too short to normalise.
#[verifier::when_used_as_spec(spec_degenerate)]
pub fn degenerate(length: Scalar) -> (r: bool)
    ensures
        r == spec_degenerate(length),
{
    length.lt(Scalar::epsilon())
}

/// Two matrices are equal where no entry of one differs from the other's by
/// more than the tolerance. `differences` holds the differences, entry by
/// entry.
pub open spec fn spec_approx_equal(differences: Seq<Scalar>) -> bool {
    forall|i: int|
        0 <= i < differences.len() ==> Scalar::spec_epsilon().spec_outweighs(
            #[trigger] differences[i],
        )
}

/// Compares two matrices by the differences of their entries.
pub fn approx_equal(differences: &Vec<Scalar>) -> (r: bool)
    ensures
        r == spec_approx_equal(differences@),
{
    let mut i: usize = 0;
    while i < differences.len()
        invariant
            i <= differences.len(),
            forall|k: int|
                0 <= k < i ==> Scalar::spec_epsilon().spec_outweighs(#[trigger] differences@[k]),
        decreases differences.len() - i,
    {
        if !Scalar::epsilon().outweighs(differences[i]) {
            return false;
        }
        i = i + 1;
    }
    true
}

/// A matrix equals itself, and equality does not depend on the side from
/// which the differences are taken: negating every difference changes
/// nothing.
pub proof fn lemma_approx_equal_symmetric(differences: Seq<Scalar>, negated: Seq<Scalar>)
    requires
        negated.len() == differences.len(),
        forall|i: int|
            0 <= i < differences.len() ==> (#[trigger] negated[i] is Num) == (differences[i] is Num)
                && negated[i].key() == -differences[i].key(),
    ensures
        spec_approx_equal(negated) == spec_approx_equal(differences),
        (forall|i: int| 0 <= i < differences.len() ==> #[trigger] differences[i]
            == Scalar::spec_zero())
            ==> spec_approx_equal(differences),
{
    if spec_approx_equal(differences) {
        assert forall|i: int| 0 <= i < negated.len() implies Scalar::spec_epsilon().spec_outweighs(
            #[trigger] negated[i],
        ) by {
            assert(Scalar::spec_epsilon().spec_outweighs(differences[i]));
        }
    }
    if spec_approx_equal(negated) {
        assert forall|i: int|
            0 <= i < differences.len() implies Scalar::spec_epsilon().spec_outweighs(
            #[trigger] differences[i],
        ) by {
            assert(Scalar::spec_epsilon().spec_outweighs(negated[i]));
        }
    }
}

/// Number of rows, and of columns, of a transform.
pub const ORDER: usize = 4;

/// Number of products that make a cofactor.
pub const TERMS: usize = 6;

/// The place of an entry in a matrix.
#[derive(Debug, Clone, Copy, PartialEq, Eq, Structural)]
pub struct Cell {
    pub row: usize,
    pub column: usize,
}

/// One product in a cofactor of a matrix of four rows: three entries,
/// multiplied from the first to the third, and the sign that the product
/// enters the cofactor with.
#[derive(Debug, Clone, Copy, PartialEq, Eq, Structural)]
pub struct Term {
    pub negative: bool,
    pub first: Cell,
    pub second: Cell,
    pub third: Cell,
}

/// The `n`-th of the places that are left when `gap` is struck out.
pub open spec fn skip(gap: int, n: int) -> int {
    if n < gap {
        n
    } else {
        n + 1
    }
}

/// The `n`-th product of the cofactor that stands at row `i` and column `j`
/// of the adjugate. It takes one entry from each row but `j` and from each
/// column but `i`: the first from the first column left, and from the
/// `n / 2`-th row left; the other two from the other two rows in their
/// order, and from the other two columns, in their order where `n` is even
/// and exchanged where it is odd. The product is negative where row and
/// column run against each other an odd number of times, `i + j` counted in.
pub open spec fn spec_term(i: int, j: int, n: int) -> Term {
    let lead = n / 2;
    let exchanged = n % 2 == 1;
    Term {
        negative: (lead + n % 2 + i + j) % 2 == 1,
        first: Cell { row: skip(j, lead) as usize, column: skip(i, 0) as usize },
        second: Cell {
            row: skip(j, skip(lead, 0)) as usize,
            column: skip(i, if exchanged {
                2
            } else {
                1
            }) as usize,
        },
        third: Cell {
            row: skip(j, skip(lead, 1)) as usize,
            column: skip(i, if exchanged {
                1
            } else {
                2
            }) as usize,
        },
    }
}

/// The products of a cofactor, in the order in which they are summed.
pub open spec fn spec_cofactor(i: int, j: int) -> Seq<Term> {
    Seq::new(TERMS as nat, |n: int| spec_term(i, j, n))
}

fn skipping(gap: usize, n: usize) -> (place: usize)
    requires
        n < 3,
    ensures
        place == skip(gap as int, n as int),
{
    if n < gap {
        n
    } else {
        n + 1
    }
}

/// Lists the products whose sum is the entry at row `i` and column `j` of
/// a matrix's adjugate: the cofactor of the entry at row `j` and column `i`.
/// Divided by the determinant, the sum is that entry of the inverse.
pub fn cofactor(i: usize, j: usize) -> (terms: Vec<Term>)
    requires
        i < ORDER,
        j < ORDER,
    ensures
        terms@ == spec_cofactor(i as int, j as int),
{
    let mut terms: Vec<Term> = Vec::new();
    let mut n: usize = 0;
    while n < TERMS
        invariant
            n <= TERMS,
            i < ORDER,
            j < ORDER,
            terms@.len() == n,
            forall|k: int| 0 <= k < n ==> #[trigger] terms@[k] == spec_term(i as int, j as int, k),
        decreases TERMS - n,
    {
        let lead = n / 2;
        let exchanged = n % 2 == 1;
        let (second, third): (usize, usize) = if exchanged {
            (2, 1)
        } else {
            (1, 2)
        };
        terms.push(
            Term {
                negative: (lead + n % 2 + i + j) % 2 == 1,
                first: Cell { row: skipping(j, lead), column: skipping(i, 0) },
                second: Cell { row: skipping(j, skipping(lead, 0)), column: skipping(i, second) },
                third: Cell { row: skipping(j, skipping(lead, 1)), column: skipping(i, third) },
            },
        );
        n = n + 1;
    }
    assert(terms@ =~= spec_cofactor(i as int, j as int));
    terms
}

/// A matrix of integers, row by row: the exact numbers that the rounded
/// entries of a transform stand for, up to a common scale.
pub type Exact = Seq<Seq<int>>;

/// The entry at a place.
pub open spec fn entry(m: Exact, cell: Cell) -> int {
    m[cell.row as int][cell.column as int]
}

/// What a product of a cofactor comes to.
pub open spec fn term_value(m: Exact, term: Term) -> int {
    let product = entry(m, term.first) * entry(m, term.second) * entry(m, term.third);
    if term.negative {
        -product
    } else {
        product
    }
}

/// The entry at row `i` and column `j` of the adjugate: the sum of the
/// products of its cofactor.
pub open spec fn adjugate(m: Exact, i: int, j: int) -> int {
    term_value(m, spec_term(i, j, 0)) + term_value(m, spec_term(i, j, 1)) + term_value(
        m,
        spec_term(i, j, 2),
    ) + term_value(m, spec_term(i, j, 3)) + term_value(m, spec_term(i, j, 4)) + term_value(
        m,
        spec_term(i, j, 5),
    )
}

/// The determinant, expanded along the first row.
pub open spec fn determinant(m: Exact) -> int {
    m[0][0] * adjugate(m, 0, 0) + m[0][1] * adjugate(m, 1, 0) + m[0][2] * adjugate(m, 2, 0)
        + m[0][3] * adjugate(m, 3, 0)
}

/// The entry at row `i` and column `j` of the product of a matrix with its
/// adjugate.
pub open spec fn times_adjugate(m: Exact, i: int, j: int) -> int {
    m[i][0] * adjugate(m, 0, j) + m[i][1] * adjugate(m, 1, j) + m[i][2] * adjugate(m, 2, j)
        + m[i][3] * adjugate(m, 3, j)
}

/// A row of four numbers.
pub type Row = (int, int, int, int);

/// The determinant of three rows of three numbers, its products in the
/// order of a cofactor's.
pub open spec fn minor(
    x0: int,
    x1: int,
    x2: int,
    y0: int,
    y1: int,
    y2: int,
    z0: int,
    z1: int,
    z2: int,
) -> int {
    x0 * y1 * z2 + (-(x0 * y2 * z1)) + (-(y0 * x1 * z2)) + y0 * x2 * z1 + z0 * x1 * y2 + (-(z0
        * x2 * y1))
}

/// The cofactor that goes with the `k`-th number of a first row, when the
/// three rows below it are `b`, `c` and `d`.
pub open spec fn below(k: int, b: Row, c: Row, d: Row) -> int {
    if k == 0 {
        minor(b.1, b.2, b.3, c.1, c.2, c.3, d.1, d.2, d.3)
    } else if k == 1 {
        -minor(b.0, b.2, b.3, c.0, c.2, c.3, d.0, d.2, d.3)
    } else if k == 2 {
        minor(b.0, b.1, b.3, c.0, c.1, c.3, d.0, d.1, d.3)
    } else {
        -minor(b.0, b.1, b.2, c.0, c.1, c.2, d.0, d.1, d.2)
    }
}

/// The determinant of four rows, expanded along the first.
pub open spec fn rows_determinant(a: Row, b: Row, c: Row, d: Row) -> int {
    a.0 * below(0, b, c, d) + a.1 * below(1, b, c, d) + a.2 * below(2, b, c, d) + a.3 * below(
        3,
        b,
        c,
        d,
    )
}

/// A row of a matrix.
pub open spec fn row(m: Exact, r: int) -> Row {
    (m[r][0], m[r][1], m[r][2], m[r][3])
}

proof fn lemma_minor_swaps(
    x0: int,
    x1: int,
    x2: int,
    y0: int,
    y1: int,
    y2: int,
    z0: int,
    z1: int,
    z2: int,
)
    ensures
        minor(y0, y1, y2, x0, x1, x2, z0, z1, z2) == -minor(x0, x1, x2, y0, y1, y2, z0, z1, z2),
        minor(x0, x1, x2, z0, z1, z2, y0, y1, y2) == -minor(x0, x1, x2, y0, y1, y2, z0, z1, z2),
{
    assert(z0 * y1 * x2 == z0 * x2 * y1) by (nonlinear_arith);
    assert(z0 * y2 * x1 == z0 * x1 * y2) by (nonlinear_arith);
    assert(x0 * z1 * y2 == x0 * y2 * z1) by (nonlinear_arith);
    assert(x0 * z2 * y1 == x0 * y1 * z2) by (nonlinear_arith);
    assert(y0 * z1 * x2 == y0 * x2 * z1) by (nonlinear_arith);
    assert(y0 * z2 * x1 == y0 * x1 * z2) by (nonlinear_arith);
}

/// Expanding along the first of three rows gives the same determinant.
proof fn lemma_minor_by_first_row(
    x0: int,
    x1: int,
    x2: int,
    y0: int,
    y1: int,
    y2: int,
    z0: int,
    z1: int,
    z2: int,
    p12: int,
    p02: int,
    p01: int,
)
    requires
        p12 == y1 * z2 - y2 * z1,
        p02 == y0 * z2 - y2 * z0,
        p01 == y0 * z1 - y1 * z0,
    ensures
        minor(x0, x1, x2, y0, y1, y2, z0, z1, z2) == x0 * p12 - x1 * p02 + x2 * p01,
{
    assert(x0 * p12 == x0 * y1 * z2 - x0 * y2 * z1) by (nonlinear_arith)
        requires
            p12 == y1 * z2 - y2 * z1,
    ;
    assert(x1 * p02 == y0 * x1 * z2 - z0 * x1 * y2) by (nonlinear_arith)
        requires
            p02 == y0 * z2 - y2 * z0,
    ;
    assert(x2 * p01 == y0 * x2 * z1 - z0 * x2 * y1) by (nonlinear_arith)
        requires
            p01 == y0 * z1 - y1 * z0,
    ;
}

/// A number times a negated number is their product, negated.
proof fn lemma_negated_factor(x: int, y: int)
    ensures
        x * (-y) == -(x * y),
{
    assert(x * (-y) == -(x * y)) by (nonlinear_arith);
}

/// Exchanging the second row with the third changes the determinant's sign.
proof fn lemma_swap_second_third(a: Row, b: Row, c: Row, d: Row)
    ensures
        rows_determinant(a, c, b, d) == -rows_determinant(a, b, c, d),
{
    lemma_minor_swaps(b.1, b.2, b.3, c.1, c.2, c.3, d.1, d.2, d.3);
    lemma_minor_swaps(b.0, b.2, b.3, c.0, c.2, c.3, d.0, d.2, d.3);
    lemma_minor_swaps(b.0, b.1, b.3, c.0, c.1, c.3, d.0, d.1, d.3);
    lemma_minor_swaps(b.0, b.1, b.2, c.0, c.1, c.2, d.0, d.1, d.2);
    lemma_negated_factor(a.0, below(0, b, c, d));
    lemma_negated_factor(a.1, below(1, b, c, d));
    lemma_negated_factor(a.2, below(2, b, c, d));
    lemma_negated_factor(a.3, below(3, b, c, d));
}

/// Exchanging the third row with the fourth changes the determinant's sign.
proof fn lemma_swap_third_fourth(a: Row, b: Row, c: Row, d: Row)
    ensures
        rows_determinant(a, b, d, c) == -rows_determinant(a, b, c, d),
{
    lemma_minor_swaps(b.1, b.2, b.3, c.1, c.2, c.3, d.1, d.2, d.3);
    lemma_minor_swaps(b.0, b.2, b.3, c.0, c.2, c.3, d.0, d.2, d.3);
    lemma_minor_swaps(b.0, b.1, b.3, c.0, c.1, c.3, d.0, d.1, d.3);
    lemma_minor_swaps(b.0, b.1, b.2, c.0, c.1, c.2, d.0, d.1, d.2);
    lemma_negated_factor(a.0, below(0, b, c, d));
    lemma_negated_factor(a.1, below(1, b, c, d));
    lemma_negated_factor(a.2, below(2, b, c, d));
    lemma_negated_factor(a.3, below(3, b, c, d));
}

/// A factor spreads over a sum of three.
proof fn lemma_spread(x: int, u: int, v: int, w: int)
    ensures
        x * (u - v + w) == x * u - x * v + x * w,
{
    assert(x * (u - v + w) == x * u - x * v + x * w) by (nonlinear_arith);
}

/// A product of three may be grouped from either end, and its first two
/// factors exchanged.
proof fn lemma_regroup(x: int, y: int, p: int)
    ensures
        x * (y * p) == x * y * p,
        x * y * p == y * x * p,
{
    assert(x * (y * p) == x * y * p) by (nonlinear_arith);
    assert(x * y * p == y * x * p) by (nonlinear_arith);
}

/// The expansion of a determinant of four rows along its first two: the
/// numbers of the first row, those of the second, and the determinants of
/// two columns of the last two rows.
spec fn by_first_two(
    a0: int,
    a1: int,
    a2: int,
    a3: int,
    b0: int,
    b1: int,
    b2: int,
    b3: int,
    p01: int,
    p02: int,
    p03: int,
    p12: int,
    p13: int,
    p23: int,
) -> int {
    a0 * (b1 * p23 - b2 * p13 + b3 * p12) - a1 * (b0 * p23 - b2 * p03 + b3 * p02) + a2 * (b0
        * p13 - b1 * p03 + b3 * p01) - a3 * (b0 * p12 - b1 * p02 + b2 * p01)
}

/// Each product of a number of one row, a number of the other and a
/// determinant of two columns occurs once in either expansion, with
/// opposite signs.
proof fn lemma_first_two_cancel(
    a0: int,
    a1: int,
    a2: int,
    a3: int,
    b0: int,
    b1: int,
    b2: int,
    b3: int,
    p01: int,
    p02: int,
    p03: int,
    p12: int,
    p13: int,
    p23: int,
)
    ensures
        by_first_two(a0, a1, a2, a3, b0, b1, b2, b3, p01, p02, p03, p12, p13, p23) + by_first_two(
            b0,
            b1,
            b2,
            b3,
            a0,
            a1,
            a2,
            a3,
            p01,
            p02,
            p03,
            p12,
            p13,
            p23,
        ) == 0,
{
    lemma_spread(a0, b1 * p23, b2 * p13, b3 * p12);
    lemma_regroup(a0, b1, p23);
    lemma_regroup(a0, b2, p13);
    lemma_regroup(a0, b3, p12);
    lemma_spread(a1, b0 * p23, b2 * p03, b3 * p02);
    lemma_regroup(a1, b0, p23);
    lemma_regroup(a1, b2, p03);
    lemma_regroup(a1, b3, p02);
    lemma_spread(a2, b0 * p13, b1 * p03, b3 * p01);
    lemma_regroup(a2, b0, p13);
    lemma_regroup(a2, b1, p03);
    lemma_regroup(a2, b3, p01);
    lemma_spread(a3, b0 * p12, b1 * p02, b2 * p01);
    lemma_regroup(a3, b0, p12);
    lemma_regroup(a3, b1, p02);
    lemma_regroup(a3, b2, p01);
    lemma_spread(b0, a1 * p23, a2 * p13, a3 * p12);
    lemma_regroup(b0, a1, p23);
    lemma_regroup(b0, a2, p13);
    lemma_regroup(b0, a3, p12);
    lemma_spread(b1, a0 * p23, a2 * p03, a3 * p02);
    lemma_regroup(b1, a0, p23);
    lemma_regroup(b1, a2, p03);
    lemma_regroup(b1, a3, p02);
    lemma_spread(b2, a0 * p13, a1 * p03, a3 * p01);
    lemma_regroup(b2, a0, p13);
    lemma_regroup(b2, a1, p03);
    lemma_regroup(b2, a3, p01);
    lemma_spread(b3, a0 * p12, a1 * p02, a2 * p01);
    lemma_regroup(b3, a0, p12);
    lemma_regroup(b3, a1, p02);
    lemma_regroup(b3, a2, p01);
}

/// Exchanging the first row with the second changes the determinant's sign.
proof fn lemma_swap_first_second(a: Row, b: Row, c: Row, d: Row)
    ensures
        rows_determinant(b, a, c, d) == -rows_determinant(a, b, c, d),
{
    // The determinants of two columns of the last two rows.
    let p01 = c.0 * d.1 - c.1 * d.0;
    let p02 = c.0 * d.2 - c.2 * d.0;
    let p03 = c.0 * d.3 - c.3 * d.0;
    let p12 = c.1 * d.2 - c.2 * d.1;
    let p13 = c.1 * d.3 - c.3 * d.1;
    let p23 = c.2 * d.3 - c.3 * d.2;
    lemma_minor_by_first_row(b.1, b.2, b.3, c.1, c.2, c.3, d.1, d.2, d.3, p23, p13, p12);
    lemma_minor_by_first_row(b.0, b.2, b.3, c.0, c.2, c.3, d.0, d.2, d.3, p23, p03, p02);
    lemma_minor_by_first_row(b.0, b.1, b.3, c.0, c.1, c.3, d.0, d.1, d.3, p13, p03, p01);
    lemma_minor_by_first_row(b.0, b.1, b.2, c.0, c.1, c.2, d.0, d.1, d.2, p12, p02, p01);
    lemma_minor_by_first_row(a.1, a.2, a.3, c.1, c.2, c.3, d.1, d.2, d.3, p23, p13, p12);
    lemma_minor_by_first_row(a.0, a.2, a.3, c.0, c.2, c.3, d.0, d.2, d.3, p23, p03, p02);
    lemma_minor_by_first_row(a.0, a.1, a.3, c.0, c.1, c.3, d.0, d.1, d.3, p13, p03, p01);
    lemma_minor_by_first_row(a.0, a.1, a.2, c.0, c.1, c.2, d.0, d.1, d.2, p12, p02, p01);
    lemma_negated_factor(a.1, minor(b.0, b.2, b.3, c.0, c.2, c.3, d.0, d.2, d.3));
    lemma_negated_factor(a.3, minor(b.0, b.1, b.2, c.0, c.1, c.2, d.0, d.1, d.2));
    lemma_negated_factor(b.1, minor(a.0, a.2, a.3, c.0, c.2, c.3, d.0, d.2, d.3));
    lemma_negated_factor(b.3, minor(a.0, a.1, a.2, c.0, c.1, c.2, d.0, d.1, d.2));
    assert(rows_determinant(a, b, c, d) == by_first_two(
        a.0,
        a.1,
        a.2,
        a.3,
        b.0,
        b.1,
        b.2,
        b.3,
        p01,
        p02,
        p03,
        p12,
        p13,
        p23,
    ));
    assert(rows_determinant(b, a, c, d) == by_first_two(
        b.0,
        b.1,
        b.2,
        b.3,
        a.0,
        a.1,
        a.2,
        a.3,
        p01,
        p02,
        p03,
        p12,
        p13,
        p23,
    ));
    lemma_first_two_cancel(a.0, a.1, a.2, a.3, b.0, b.1, b.2, b.3, p01, p02, p03, p12, p13, p23);
}

/// The three rows of a matrix that are left when row `j` is struck out.
pub open spec fn rows_but(m: Exact, j: int) -> (Row, Row, Row) {
    (row(m, skip(j, 0)), row(m, skip(j, 1)), row(m, skip(j, 2)))
}

/// An entry of the adjugate is the cofactor of the rows that its column
/// leaves, with the sign of the column.
proof fn lemma_adjugate_is_below(m: Exact, k: int, j: int)
    requires
        0 <= k < 4,
        0 <= j < 4,
    ensures
        adjugate(m, k, j) == if j % 2 == 0 {
            below(k, rows_but(m, j).0, rows_but(m, j).1, rows_but(m, j).2)
        } else {
            -below(k, rows_but(m, j).0, rows_but(m, j).1, rows_but(m, j).2)
        },
{
}

/// A determinant with the same row twice is zero.
proof fn lemma_repeated_row(a: Row, b: Row, c: Row)
    ensures
        rows_determinant(a, a, b, c) == 0,
        rows_determinant(a, b, a, c) == 0,
        rows_determinant(a, b, c, a) == 0,
{
    lemma_swap_first_second(a, a, b, c);
    lemma_swap_second_third(a, b, a, c);
    lemma_swap_third_fourth(a, b, c, a);
}

/// A matrix times its adjugate is the identity times the determinant. So
/// where the determinant is not zero, the adjugate divided by it inverts
/// the matrix: their product is the identity. This holds of the exact
/// numbers; the rounded ones come as close as their rounding lets them.
pub proof fn lemma_adjugate_inverts(m: Exact, i: int, j: int)
    requires
        0 <= i < ORDER,
        0 <= j < ORDER,
    ensures
        times_adjugate(m, i, j) == if i == j {
            determinant(m)
        } else {
            0
        },
{
    let a = row(m, i);
    let (b, c, d) = rows_but(m, j);
    lemma_adjugate_is_below(m, 0, j);
    lemma_adjugate_is_below(m, 1, j);
    lemma_adjugate_is_below(m, 2, j);
    lemma_adjugate_is_below(m, 3, j);
    lemma_negated_factor(a.0, below(0, b, c, d));
    lemma_negated_factor(a.1, below(1, b, c, d));
    lemma_negated_factor(a.2, below(2, b, c, d));
    lemma_negated_factor(a.3, below(3, b, c, d));
    assert(times_adjugate(m, i, j) == if j % 2 == 0 {
        rows_determinant(a, b, c, d)
    } else {
        -rows_determinant(a, b, c, d)
    });
    if i == j {
        let (r0, r1, r2, r3) = (row(m, 0), row(m, 1), row(m, 2), row(m, 3));
        lemma_adjugate_is_below(m, 0, 0);
        lemma_adjugate_is_below(m, 1, 0);
        lemma_adjugate_is_below(m, 2, 0);
        lemma_adjugate_is_below(m, 3, 0);
        assert(determinant(m) == rows_determinant(r0, r1, r2, r3));
        // The row is moved to the top, past the rows above it.
        if j == 1 {
            lemma_swap_first_second(r0, r1, r2, r3);
        } else if j == 2 {
            lemma_swap_first_second(r2, r0, r1, r3);
            lemma_swap_second_third(r0, r1, r2, r3);
        } else if j == 3 {
            lemma_swap_first_second(r3, r0, r1, r2);
            lemma_swap_second_third(r0, r1, r3, r2);
            lemma_swap_third_fourth(r0, r1, r2, r3);
        }
    } else {
        // The row stands twice: on top, and where it is.
        lemma_repeated_row(a, c, d);
        lemma_repeated_row(a, b, d);
        lemma_repeated_row(a, b, c);
    }
}

/// The adjugate of a matrix, as a matrix.
pub open spec fn adjugate_matrix(m: Exact) -> Exact {
    Seq::new(ORDER as nat, |i: int| Seq::new(ORDER as nat, |j: int| adjugate(m, i, j)))
}

/// A factor spreads over a sum of four, from either side.
proof fn lemma_spread_four(x: int, p: int, q: int, r: int, s: int)
    ensures
        x * (p + q + r + s) == x * p + x * q + x * r + x * s,
        (p + q + r + s) * x == p * x + q * x + r * x + s * x,
{
    assert(x * (p + q + r + s) == x * p + x * q + x * r + x * s) by (nonlinear_arith);
    assert((p + q + r + s) * x == p * x + q * x + r * x + s * x) by (nonlinear_arith);
}

/// Nothing times anything is nothing.
proof fn lemma_zero_factor(x: int, y: int)
    requires
        x == 0,
    ensures
        x * y == 0,
        y * x == 0,
{
    assert(x * y == 0 && y * x == 0) by (nonlinear_arith)
        requires
            x == 0,
    ;
}

/// A row times a matrix times a column comes to the same whichever product
/// is taken first.
proof fn lemma_products_associate(m0: int, m1: int, m2: int, m3: int, a00: int, a01: int,
    a02: int, a03: int, a10: int, a11: int, a12: int, a13: int, a20: int, a21: int, a22: int,
    a23: int, a30: int, a31: int, a32: int, a33: int, b0: int, b1: int, b2: int, b3: int)
    ensures
        (m0 * a00 + m1 * a10 + m2 * a20 + m3 * a30) * b0 + (m0 * a01 + m1 * a11 + m2 * a21
            + m3 * a31) * b1 + (m0 * a02 + m1 * a12 + m2 * a22 + m3 * a32) * b2 + (m0 * a03
            + m1 * a13 + m2 * a23 + m3 * a33) * b3 == m0 * (a00 * b0 + a01 * b1 + a02 * b2
            + a03 * b3) + m1 * (a10 * b0 + a11 * b1 + a12 * b2 + a13 * b3) + m2 * (a20 * b0
            + a21 * b1 + a22 * b2 + a23 * b3) + m3 * (a30 * b0 + a31 * b1 + a32 * b2
            + a33 * b3),
{
    lemma_spread_four(b0, m0 * a00, m1 * a10, m2 * a20, m3 * a30);
    lemma_spread_four(b1, m0 * a01, m1 * a11, m2 * a21, m3 * a31);
    lemma_spread_four(b2, m0 * a02, m1 * a12, m2 * a22, m3 * a32);
    lemma_spread_four(b3, m0 * a03, m1 * a13, m2 * a23, m3 * a33);
    lemma_spread_four(m0, a00 * b0, a01 * b1, a02 * b2, a03 * b3);
    lemma_spread_four(m1, a10 * b0, a11 * b1, a12 * b2, a13 * b3);
    lemma_spread_four(m2, a20 * b0, a21 * b1, a22 * b2, a23 * b3);
    lemma_spread_four(m3, a30 * b0, a31 * b1, a32 * b2, a33 * b3);
    lemma_regroup(m0, a00, b0);
    lemma_regroup(m0, a01, b1);
    lemma_regroup(m0, a02, b2);
    lemma_regroup(m0, a03, b3);
    lemma_regroup(m1, a10, b0);
    lemma_regroup(m1, a11, b1);
    lemma_regroup(m1, a12, b2);
    lemma_regroup(m1, a13, b3);
    lemma_regroup(m2, a20, b0);
    lemma_regroup(m2, a21, b1);
    lemma_regroup(m2, a22, b2);
    lemma_regroup(m2, a23, b3);
    lemma_regroup(m3, a30, b0);
    lemma_regroup(m3, a31, b1);
    lemma_regroup(m3, a32, b2);
    lemma_regroup(m3, a33, b3);
}

/// Inverting twice gives the matrix back. The inverse of a matrix is its
/// adjugate over its determinant; the inverse of that is the adjugate of
/// the adjugate, times the determinant, over the adjugate's determinant.
/// That this is the matrix again says, with the divisions multiplied out,
/// what is proved here. This holds of the exact numbers; the rounded ones
/// come as close as their rounding lets them.
pub proof fn lemma_inverse_of_inverse(m: Exact, i: int, j: int)
    requires
        0 <= i < ORDER,
        0 <= j < ORDER,
    ensures
        determinant(m) * adjugate(adjugate_matrix(m), i, j) == determinant(adjugate_matrix(m))
            * m[i][j],
{
    let a = adjugate_matrix(m);
    assert forall|l: int, k: int| 0 <= l < 4 && 0 <= k < 4 implies #[trigger] a[l][k] == adjugate(
        m,
        l,
        k,
    ) by {}
    // The matrix times its adjugate, and the adjugate times its own.
    lemma_adjugate_inverts(m, i, 0);
    lemma_adjugate_inverts(m, i, 1);
    lemma_adjugate_inverts(m, i, 2);
    lemma_adjugate_inverts(m, i, 3);
    lemma_adjugate_inverts(a, 0, j);
    lemma_adjugate_inverts(a, 1, j);
    lemma_adjugate_inverts(a, 2, j);
    lemma_adjugate_inverts(a, 3, j);
    lemma_products_associate(m[i][0], m[i][1], m[i][2], m[i][3], adjugate(m, 0, 0), adjugate(m,
        0, 1), adjugate(m, 0, 2), adjugate(m, 0, 3), adjugate(m, 1, 0), adjugate(m, 1, 1),
        adjugate(m, 1, 2), adjugate(m, 1, 3), adjugate(m, 2, 0), adjugate(m, 2, 1), adjugate(m,
        2, 2), adjugate(m, 2, 3), adjugate(m, 3, 0), adjugate(m, 3, 1), adjugate(m, 3, 2),
        adjugate(m, 3, 3), adjugate(a, 0, j), adjugate(a, 1, j), adjugate(a, 2, j), adjugate(a,
        3, j));
    lemma_both_ways(
        m[i][0], m[i][1], m[i][2], m[i][3],
        times_adjugate(m, i, 0), times_adjugate(m, i, 1), times_adjugate(m, i, 2),
        times_adjugate(m, i, 3),
        times_adjugate(a, 0, j), times_adjugate(a, 1, j), times_adjugate(a, 2, j),
        times_adjugate(a, 3, j),
        adjugate(a, 0, j), adjugate(a, 1, j), adjugate(a, 2, j), adjugate(a, 3, j),
        determinant(m), determinant(a), i, j,
    );
}

/// A sum of four products in which all factors on one side but one are
/// nothing comes to the product with that one.
proof fn lemma_both_ways(
    m0: int,
    m1: int,
    m2: int,
    m3: int,
    x0: int,
    x1: int,
    x2: int,
    x3: int,
    y0: int,
    y1: int,
    y2: int,
    y3: int,
    b0: int,
    b1: int,
    b2: int,
    b3: int,
    d: int,
    e: int,
    i: int,
    j: int,
)
    requires
        0 <= i < 4,
        0 <= j < 4,
        x0 == if i == 0 { d } else { 0 },
        x1 == if i == 1 { d } else { 0 },
        x2 == if i == 2 { d } else { 0 },
        x3 == if i == 3 { d } else { 0 },
        y0 == if j == 0 { e } else { 0 },
        y1 == if j == 1 { e } else { 0 },
        y2 == if j == 2 { e } else { 0 },
        y3 == if j == 3 { e } else { 0 },
    ensures
        x0 * b0 + x1 * b1 + x2 * b2 + x3 * b3 == d * (if i == 0 { b0 } else if i == 1 { b1 }
            else if i == 2 { b2 } else { b3 }),
        m0 * y0 + m1 * y1 + m2 * y2 + m3 * y3 == e * (if j == 0 { m0 } else if j == 1 { m1 }
            else if j == 2 { m2 } else { m3 }),
{
    if i != 0 {
        lemma_zero_factor(x0, b0);
    }
    if i != 1 {
        lemma_zero_factor(x1, b1);
    }
    if i != 2 {
        lemma_zero_factor(x2, b2);
    }
    if i != 3 {
        lemma_zero_factor(x3, b3);
    }
    if j != 0 {
        lemma_zero_factor(y0, m0);
    }
    if j != 1 {
        lemma_zero_factor(y1, m1);
    }
    if j != 2 {
        lemma_zero_factor(y2, m2);
    }
    if j != 3 {
        lemma_zero_factor(y3, m3);
    }
    assert(m0 * e == e * m0 && m1 * e == e * m1 && m2 * e == e * m2 && m3 * e == e * m3)
        by (nonlinear_arith);
}

/// The determinant of four rows written out: every product of one number
/// from each row, no two from the same column, with the sign of the order
/// in which the columns are taken.
pub open spec fn leibniz(a: Row, b: Row, c: Row, d: Row) -> int {
    a.0 * b.1 * c.2 * d.3 - a.0 * b.1 * c.3 * d.2 - a.0 * b.2 * c.1 * d.3
        + a.0 * b.2 * c.3 * d.1 + a.0 * b.3 * c.1 * d.2 - a.0 * b.3 * c.2 * d.1
        - a.1 * b.0 * c.2 * d.3 + a.1 * b.0 * c.3 * d.2 + a.1 * b.2 * c.0 * d.3
        - a.1 * b.2 * c.3 * d.0 - a.1 * b.3 * c.0 * d.2 + a.1 * b.3 * c.2 * d.0
        + a.2 * b.0 * c.1 * d.3 - a.2 * b.0 * c.3 * d.1 - a.2 * b.1 * c.0 * d.3
        + a.2 * b.1 * c.3 * d.0 + a.2 * b.3 * c.0 * d.1 - a.2 * b.3 * c.1 * d.0
        - a.3 * b.0 * c.1 * d.2 + a.3 * b.0 * c.2 * d.1 + a.3 * b.1 * c.0 * d.2
        - a.3 * b.1 * c.2 * d.0 - a.3 * b.2 * c.0 * d.1 + a.3 * b.2 * c.1 * d.0
}

/// A factor spreads over a difference.
proof fn lemma_spread_two(x: int, u: int, v: int)
    ensures
        x * (u - v) == x * u - x * v,
{
    assert(x * (u - v) == x * u - x * v) by (nonlinear_arith);
}

/// A product of four does not depend on the order of its factors.
proof fn lemma_permute(w: int, x: int, y: int, z: int)
    ensures
        w * x * y * z == w * x * z * y,
        w * x * y * z == w * y * x * z,
        w * x * y * z == w * y * z * x,
        w * x * y * z == w * z * x * y,
        w * x * y * z == w * z * y * x,
        w * x * y * z == x * w * y * z,
        w * x * y * z == x * w * z * y,
        w * x * y * z == x * y * w * z,
        w * x * y * z == x * y * z * w,
        w * x * y * z == x * z * w * y,
        w * x * y * z == x * z * y * w,
        w * x * y * z == y * w * x * z,
        w * x * y * z == y * w * z * x,
        w * x * y * z == y * x * w * z,
        w * x * y * z == y * x * z * w,
        w * x * y * z == y * z * w * x,
        w * x * y * z == y * z * x * w,
        w * x * y * z == z * w * x * y,
        w * x * y * z == z * w * y * x,
        w * x * y * z == z * x * w * y,
        w * x * y * z == z * x * y * w,
        w * x * y * z == z * y * w * x,
        w * x * y * z == z * y * x * w,
{
    assert(w * x * y * z == w * x * z * y) by (nonlinear_arith);
    assert(w * x * y * z == w * y * x * z) by (nonlinear_arith);
    assert(w * x * y * z == w * y * z * x) by (nonlinear_arith);
    assert(w * x * y * z == w * z * x * y) by (nonlinear_arith);
    assert(w * x * y * z == w * z * y * x) by (nonlinear_arith);
    assert(w * x * y * z == x * w * y * z) by (nonlinear_arith);
    assert(w * x * y * z == x * w * z * y) by (nonlinear_arith);
    assert(w * x * y * z == x * y * w * z) by (nonlinear_arith);
    assert(w * x * y * z == x * y * z * w) by (nonlinear_arith);
    assert(w * x * y * z == x * z * w * y) by (nonlinear_arith);
    assert(w * x * y * z == x * z * y * w) by (nonlinear_arith);
    assert(w * x * y * z == y * w * x * z) by (nonlinear_arith);
    assert(w * x * y * z == y * w * z * x) by (nonlinear_arith);
    assert(w * x * y * z == y * x * w * z) by (nonlinear_arith);
    assert(w * x * y * z == y * x * z * w) by (nonlinear_arith);
    assert(w * x * y * z == y * z * w * x) by (nonlinear_arith);
    assert(w * x * y * z == y * z * x * w) by (nonlinear_arith);
    assert(w * x * y * z == z * w * x * y) by (nonlinear_arith);
    assert(w * x * y * z == z * w * y * x) by (nonlinear_arith);
    assert(w * x * y * z == z * x * w * y) by (nonlinear_arith);
    assert(w * x * y * z == z * x * y * w) by (nonlinear_arith);
    assert(w * x * y * z == z * y * w * x) by (nonlinear_arith);
    assert(w * x * y * z == z * y * x * w) by (nonlinear_arith);
}

/// The determinant of two columns of two rows.
spec fn pair(c: Row, d: Row, m: int, n: int) -> int {
    if m == 0 && n == 1 {
        c.0 * d.1 - c.1 * d.0
    } else if m == 0 && n == 2 {
        c.0 * d.2 - c.2 * d.0
    } else if m == 0 {
        c.0 * d.3 - c.3 * d.0
    } else if m == 1 && n == 2 {
        c.1 * d.2 - c.2 * d.1
    } else if m == 1 {
        c.1 * d.3 - c.3 * d.1
    } else {
        c.2 * d.3 - c.3 * d.2
    }
}

/// The determinant of four rows, expanded along the first two.
proof fn lemma_rows_by_first_two(a: Row, b: Row, c: Row, d: Row)
    ensures
        rows_determinant(a, b, c, d) == by_first_two(
            a.0,
            a.1,
            a.2,
            a.3,
            b.0,
            b.1,
            b.2,
            b.3,
            pair(c, d, 0, 1),
            pair(c, d, 0, 2),
            pair(c, d, 0, 3),
            pair(c, d, 1, 2),
            pair(c, d, 1, 3),
            pair(c, d, 2, 3),
        ),
{
    let p01 = pair(c, d, 0, 1);
    let p02 = pair(c, d, 0, 2);
    let p03 = pair(c, d, 0, 3);
    let p12 = pair(c, d, 1, 2);
    let p13 = pair(c, d, 1, 3);
    let p23 = pair(c, d, 2, 3);
    lemma_minor_by_first_row(b.1, b.2, b.3, c.1, c.2, c.3, d.1, d.2, d.3, p23, p13, p12);
    lemma_minor_by_first_row(b.0, b.2, b.3, c.0, c.2, c.3, d.0, d.2, d.3, p23, p03, p02);
    lemma_minor_by_first_row(b.0, b.1, b.3, c.0, c.1, c.3, d.0, d.1, d.3, p13, p03, p01);
    lemma_minor_by_first_row(b.0, b.1, b.2, c.0, c.1, c.2, d.0, d.1, d.2, p12, p02, p01);
    lemma_negated_factor(a.1, minor(b.0, b.2, b.3, c.0, c.2, c.3, d.0, d.2, d.3));
    lemma_negated_factor(a.3, minor(b.0, b.1, b.2, c.0, c.1, c.2, d.0, d.1, d.2));
}

/// Expanded along its first two rows and then multiplied out, a
/// determinant is the sum of its signed products.
proof fn lemma_rows_written_out(a: Row, b: Row, c: Row, d: Row)
    ensures
        rows_determinant(a, b, c, d) == leibniz(a, b, c, d),
{
    lemma_rows_by_first_two(a, b, c, d);
    lemma_first_two_written_out(
        a,
        b,
        c,
        d,
        pair(c, d, 0, 1),
        pair(c, d, 0, 2),
        pair(c, d, 0, 3),
        pair(c, d, 1, 2),
        pair(c, d, 1, 3),
        pair(c, d, 2, 3),
    );
}

proof fn lemma_first_two_written_out(
    a: Row,
    b: Row,
    c: Row,
    d: Row,
    p01: int,
    p02: int,
    p03: int,
    p12: int,
    p13: int,
    p23: int,
)
    requires
        p01 == c.0 * d.1 - c.1 * d.0,
        p02 == c.0 * d.2 - c.2 * d.0,
        p03 == c.0 * d.3 - c.3 * d.0,
        p12 == c.1 * d.2 - c.2 * d.1,
        p13 == c.1 * d.3 - c.3 * d.1,
        p23 == c.2 * d.3 - c.3 * d.2,
    ensures
        by_first_two(a.0, a.1, a.2, a.3, b.0, b.1, b.2, b.3, p01, p02, p03, p12, p13, p23)
            == leibniz(a, b, c, d),
{
    lemma_spread(a.0, b.1 * p23, b.2 * p13, b.3 * p12);
    lemma_regroup(a.0, b.1, p23);
    lemma_spread_two(a.0 * b.1, c.2 * d.3, c.3 * d.2);
    lemma_regroup(a.0 * b.1, c.2, d.3);
    lemma_regroup(a.0 * b.1, c.3, d.2);
    lemma_regroup(a.0, b.2, p13);
    lemma_spread_two(a.0 * b.2, c.1 * d.3, c.3 * d.1);
    lemma_regroup(a.0 * b.2, c.1, d.3);
    lemma_regroup(a.0 * b.2, c.3, d.1);
    lemma_regroup(a.0, b.3, p12);
    lemma_spread_two(a.0 * b.3, c.1 * d.2, c.2 * d.1);
    lemma_regroup(a.0 * b.3, c.1, d.2);
    lemma_regroup(a.0 * b.3, c.2, d.1);
    lemma_spread(a.1, b.0 * p23, b.2 * p03, b.3 * p02);
    lemma_regroup(a.1, b.0, p23);
    lemma_spread_two(a.1 * b.0, c.2 * d.3, c.3 * d.2);
    lemma_regroup(a.1 * b.0, c.2, d.3);
    lemma_regroup(a.1 * b.0, c.3, d.2);
    lemma_regroup(a.1, b.2, p03);
    lemma_spread_two(a.1 * b.2, c.0 * d.3, c.3 * d.0);
    lemma_regroup(a.1 * b.2, c.0, d.3);
    lemma_regroup(a.1 * b.2, c.3, d.0);
    lemma_regroup(a.1, b.3, p02);
    lemma_spread_two(a.1 * b.3, c.0 * d.2, c.2 * d.0);
    lemma_regroup(a.1 * b.3, c.0, d.2);
    lemma_regroup(a.1 * b.3, c.2, d.0);
    lemma_spread(a.2, b.0 * p13, b.1 * p03, b.3 * p01);
    lemma_regroup(a.2, b.0, p13);
    lemma_spread_two(a.2 * b.0, c.1 * d.3, c.3 * d.1);
    lemma_regroup(a.2 * b.0, c.1, d.3);
    lemma_regroup(a.2 * b.0, c.3, d.1);
    lemma_regroup(a.2, b.1, p03);
    lemma_spread_two(a.2 * b.1, c.0 * d.3, c.3 * d.0);
    lemma_regroup(a.2 * b.1, c.0, d.3);
    lemma_regroup(a.2 * b.1, c.3, d.0);
    lemma_regroup(a.2, b.3, p01);
    lemma_spread_two(a.2 * b.3, c.0 * d.1, c.1 * d.0);
    lemma_regroup(a.2 * b.3, c.0, d.1);
    lemma_regroup(a.2 * b.3, c.1, d.0);
    lemma_spread(a.3, b.0 * p12, b.1 * p02, b.2 * p01);
    lemma_regroup(a.3, b.0, p12);
    lemma_spread_two(a.3 * b.0, c.1 * d.2, c.2 * d.1);
    lemma_regroup(a.3 * b.0, c.1, d.2);
    lemma_regroup(a.3 * b.0, c.2, d.1);
    lemma_regroup(a.3, b.1, p02);
    lemma_spread_two(a.3 * b.1, c.0 * d.2, c.2 * d.0);
    lemma_regroup(a.3 * b.1, c.0, d.2);
    lemma_regroup(a.3 * b.1, c.2, d.0);
    lemma_regroup(a.3, b.2, p01);
    lemma_spread_two(a.3 * b.2, c.0 * d.1, c.1 * d.0);
    lemma_regroup(a.3 * b.2, c.0, d.1);
    lemma_regroup(a.3 * b.2, c.1, d.0);
}

/// A determinant does not change when rows and columns change places.
proof fn lemma_columns_for_rows(a: Row, b: Row, c: Row, d: Row)
    ensures
        rows_determinant(
            (a.0, b.0, c.0, d.0),
            (a.1, b.1, c.1, d.1),
            (a.2, b.2, c.2, d.2),
            (a.3, b.3, c.3, d.3),
        ) == rows_determinant(a, b, c, d),
{
    lemma_rows_written_out(a, b, c, d);
    lemma_rows_written_out(
        (a.0, b.0, c.0, d.0),
        (a.1, b.1, c.1, d.1),
        (a.2, b.2, c.2, d.2),
        (a.3, b.3, c.3, d.3),
    );
    lemma_permute(a.0, b.1, c.2, d.3);
    lemma_permute(a.0, b.1, d.2, c.3);
    lemma_permute(a.0, c.1, b.2, d.3);
    lemma_permute(a.0, c.1, d.2, b.3);
    lemma_permute(a.0, d.1, b.2, c.3);
    lemma_permute(a.0, d.1, c.2, b.3);
    lemma_permute(b.0, a.1, c.2, d.3);
    lemma_permute(b.0, a.1, d.2, c.3);
    lemma_permute(b.0, c.1, a.2, d.3);
    lemma_permute(b.0, c.1, d.2, a.3);
    lemma_permute(b.0, d.1, a.2, c.3);
    lemma_permute(b.0, d.1, c.2, a.3);
    lemma_permute(c.0, a.1, b.2, d.3);
    lemma_permute(c.0, a.1, d.2, b.3);
    lemma_permute(c.0, b.1, a.2, d.3);
    lemma_permute(c.0, b.1, d.2, a.3);
    lemma_permute(c.0, d.1, a.2, b.3);
    lemma_permute(c.0, d.1, b.2, a.3);
    lemma_permute(d.0, a.1, b.2, c.3);
    lemma_permute(d.0, a.1, c.2, b.3);
    lemma_permute(d.0, b.1, a.2, c.3);
    lemma_permute(d.0, b.1, c.2, a.3);
    lemma_permute(d.0, c.1, a.2, b.3);
    lemma_permute(d.0, c.1, b.2, a.3);
}

/// A matrix with rows and columns exchanged.
pub open spec fn transposed(m: Exact) -> Exact {
    Seq::new(ORDER as nat, |r: int| Seq::new(ORDER as nat, |c: int| m[c][r]))
}

/// The entry at row `i` and column `j` of the product of a matrix's
/// adjugate with the matrix.
pub open spec fn adjugate_times(m: Exact, i: int, j: int) -> int {
    adjugate(m, i, 0) * m[0][j] + adjugate(m, i, 1) * m[1][j] + adjugate(m, i, 2) * m[2][j]
        + adjugate(m, i, 3) * m[3][j]
}

/// The determinant of three rows does not change when rows and columns
/// change places.
proof fn lemma_minor_transposes(
    x0: int,
    x1: int,
    x2: int,
    y0: int,
    y1: int,
    y2: int,
    z0: int,
    z1: int,
    z2: int,
)
    ensures
        minor(x0, y0, z0, x1, y1, z1, x2, y2, z2) == minor(x0, x1, x2, y0, y1, y2, z0, z1, z2),
{
    assert(x0 * z1 * y2 == x0 * y2 * z1) by (nonlinear_arith);
    assert(x1 * y0 * z2 == y0 * x1 * z2) by (nonlinear_arith);
    assert(x1 * z0 * y2 == z0 * x1 * y2) by (nonlinear_arith);
    assert(x2 * y0 * z1 == y0 * x2 * z1) by (nonlinear_arith);
    assert(x2 * z0 * y1 == z0 * x2 * y1) by (nonlinear_arith);
}

/// The adjugate of the transposed matrix is the adjugate, transposed.
proof fn lemma_adjugate_transposes(m: Exact, i: int, k: int)
    requires
        0 <= i < 4,
        0 <= k < 4,
    ensures
        adjugate(transposed(m), k, i) == adjugate(m, i, k),
{
    let t = transposed(m);
    assert forall|r: int, c: int| 0 <= r < 4 && 0 <= c < 4 implies #[trigger] t[r][c]
        == m[c][r] by {}
    lemma_adjugate_is_below(t, k, i);
    lemma_adjugate_is_below(m, i, k);
    lemma_minor_transposes(
        m[skip(k, 0)][skip(i, 0)],
        m[skip(k, 0)][skip(i, 1)],
        m[skip(k, 0)][skip(i, 2)],
        m[skip(k, 1)][skip(i, 0)],
        m[skip(k, 1)][skip(i, 1)],
        m[skip(k, 1)][skip(i, 2)],
        m[skip(k, 2)][skip(i, 0)],
        m[skip(k, 2)][skip(i, 1)],
        m[skip(k, 2)][skip(i, 2)],
    );
}

/// The transposed matrix has the same determinant.
proof fn lemma_determinant_transposes(m: Exact)
    ensures
        determinant(transposed(m)) == determinant(m),
{
    let t = transposed(m);
    assert forall|r: int, c: int| 0 <= r < 4 && 0 <= c < 4 implies #[trigger] t[r][c]
        == m[c][r] by {}
    lemma_adjugate_is_below(m, 0, 0);
    lemma_adjugate_is_below(m, 1, 0);
    lemma_adjugate_is_below(m, 2, 0);
    lemma_adjugate_is_below(m, 3, 0);
    lemma_adjugate_is_below(t, 0, 0);
    lemma_adjugate_is_below(t, 1, 0);
    lemma_adjugate_is_below(t, 2, 0);
    lemma_adjugate_is_below(t, 3, 0);
    assert(determinant(m) == rows_determinant(row(m, 0), row(m, 1), row(m, 2), row(m, 3)));
    assert(determinant(t) == rows_determinant(row(t, 0), row(t, 1), row(t, 2), row(t, 3)));
    lemma_columns_for_rows(row(m, 0), row(m, 1), row(m, 2), row(m, 3));
}

/// Two numbers may be multiplied in either order.
proof fn lemma_commutes(x: int, y: int)
    ensures
        x * y == y * x,
{
    assert(x * y == y * x) by (nonlinear_arith);
}

/// The adjugate inverts from the left as it does from the right: the
/// adjugate times the matrix is the identity times the determinant. So
/// the inverse, the adjugate over the determinant, gives the identity
/// whichever side it is multiplied from. This holds of the exact numbers.
pub proof fn lemma_adjugate_inverts_from_left(m: Exact, i: int, j: int)
    requires
        0 <= i < ORDER,
        0 <= j < ORDER,
    ensures
        adjugate_times(m, i, j) == if i == j {
            determinant(m)
        } else {
            0
        },
{
    let t = transposed(m);
    assert forall|r: int, c: int| 0 <= r < 4 && 0 <= c < 4 implies #[trigger] t[r][c]
        == m[c][r] by {}
    lemma_adjugate_transposes(m, i, 0);
    lemma_adjugate_transposes(m, i, 1);
    lemma_adjugate_transposes(m, i, 2);
    lemma_adjugate_transposes(m, i, 3);
    lemma_commutes(adjugate(m, i, 0), m[0][j]);
    lemma_commutes(adjugate(m, i, 1), m[1][j]);
    lemma_commutes(adjugate(m, i, 2), m[2][j]);
    lemma_commutes(adjugate(m, i, 3), m[3][j]);
    assert(adjugate_times(m, i, j) == times_adjugate(t, j, i));
    lemma_adjugate_inverts(t, j, i);
    lemma_determinant_transposes(m);
}

} // verus!
