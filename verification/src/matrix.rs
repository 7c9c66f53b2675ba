//! Square matrices of scalars with two, three and four rows.
//!
//! A matrix is modelled by the raw counts of its cells in row-major order:
//! cell `(row, col)` of a matrix with `n` rows is entry `row * n + col` of
//! its view.
use crate::scalar::{
    approx_eq, in_range, sat_add, sat_div, sat_mul, sat_neg, sat_sub, Scalar, SCALE,
};
use crate::text::{push_two_places, two_places};
use crate::tuple::{Tuple, TupleView};
use core::ops::Neg;
use vstd::prelude::*;
use vstd::string::StringExecFns;

verus! {

/// The raw counts of a sequence of scalars.
pub open spec fn raw_counts(cells: Seq<Scalar>) -> Seq<int> {
    Seq::new(cells.len(), |i: int| cells[i]@)
}

/// Two matrices of the same size are approximately equal cell by cell.
pub open spec fn cells_approx_eq(a: Seq<int>, b: Seq<int>) -> bool {
    &&& a.len() == b.len()
    &&& forall|i: int| 0 <= i < a.len() ==> approx_eq(#[trigger] a[i], b[i])
}

/// The index that position `i` had before the row or column `dropped` was
/// taken out.
pub open spec fn skip(i: int, dropped: int) -> int {
    if i < dropped {
        i
    } else {
        i + 1
    }
}

/// The sign of the cofactor of cell `(row, col)` applied to its minor.
pub open spec fn signed_minor(minor: int, row: int, col: int) -> int {
    if (row + col) % 2 == 0 {
        minor
    } else {
        sat_neg(minor)
    }
}

/// Determinant of a matrix with two rows: `a * d - b * c`.
pub open spec fn det2(m: Seq<int>) -> int {
    sat_sub(sat_mul(m[0], m[3]), sat_mul(m[1], m[2]))
}

/// The matrix with three rows without row `row` and column `col`; the cells
/// that stay keep their order.
pub open spec fn submatrix3(m: Seq<int>, row: int, col: int) -> Seq<int> {
    Seq::new(4, |k: int| m[skip(k / 2, row) * 3 + skip(k % 2, col)])
}

/// Minor of cell `(row, col)` of a matrix with three rows.
pub open spec fn minor3(m: Seq<int>, row: int, col: int) -> int {
    det2(submatrix3(m, row, col))
}

/// Cofactor of cell `(row, col)` of a matrix with three rows.
pub open spec fn cofactor3(m: Seq<int>, row: int, col: int) -> int {
    signed_minor(minor3(m, row, col), row, col)
}

/// The first `k` terms of the expansion of the determinant of a matrix with
/// three rows along its first row, added up from the left.
pub open spec fn expansion3(m: Seq<int>, k: int) -> int
    decreases k,
{
    if k <= 0 {
        0
    } else {
        sat_add(expansion3(m, k - 1), sat_mul(m[k - 1], cofactor3(m, 0, k - 1)))
    }
}

/// Determinant of a matrix with three rows.
pub open spec fn det3(m: Seq<int>) -> int {
    expansion3(m, 3)
}

/// The matrix with four rows without row `row` and column `col`; the cells
/// that stay keep their order.
pub open spec fn submatrix4(m: Seq<int>, row: int, col: int) -> Seq<int> {
    Seq::new(9, |k: int| m[skip(k / 3, row) * 4 + skip(k % 3, col)])
}

/// Minor of cell `(row, col)` of a matrix with four rows.
pub open spec fn minor4(m: Seq<int>, row: int, col: int) -> int {
    det3(submatrix4(m, row, col))
}

/// Cofactor of cell `(row, col)` of a matrix with four rows.
pub open spec fn cofactor4(m: Seq<int>, row: int, col: int) -> int {
    signed_minor(minor4(m, row, col), row, col)
}

/// The first `k` terms of the expansion of the determinant of a matrix with
/// four rows along its first row, added up from the left.
pub open spec fn expansion4(m: Seq<int>, k: int) -> int
    decreases k,
{
    if k <= 0 {
        0
    } else {
        sat_add(expansion4(m, k - 1), sat_mul(m[k - 1], cofactor4(m, 0, k - 1)))
    }
}

/// Determinant of a matrix with four rows.
pub open spec fn det4(m: Seq<int>) -> int {
    expansion4(m, 4)
}

/// Whether a matrix with four rows can be inverted: its determinant is not
/// approximately zero.
pub open spec fn invertible4(m: Seq<int>) -> bool {
    !approx_eq(det4(m), 0)
}

/// The inverse of a matrix with four rows: the cofactor of cell
/// `(row, col)`, divided by the determinant, stands in cell `(col, row)`.
pub open spec fn inverse4(m: Seq<int>) -> Seq<int> {
    Seq::new(16, |k: int| sat_div(cofactor4(m, k % 4, k / 4), det4(m)))
}

/// The transpose of a matrix with four rows.
pub open spec fn transpose4(m: Seq<int>) -> Seq<int> {
    Seq::new(16, |k: int| m[(k % 4) * 4 + k / 4])
}

/// Cell `(row, col)` of the product of two matrices with four rows: row
/// `row` of `a` times column `col` of `b`, added up from the left.
pub open spec fn product_cell(a: Seq<int>, b: Seq<int>, row: int, col: int) -> int {
    sat_add(
        sat_add(
            sat_add(sat_mul(a[row * 4], b[col]), sat_mul(a[row * 4 + 1], b[4 + col])),
            sat_mul(a[row * 4 + 2], b[8 + col]),
        ),
        sat_mul(a[row * 4 + 3], b[12 + col]),
    )
}

/// The product of two matrices with four rows.
pub open spec fn product4(a: Seq<int>, b: Seq<int>) -> Seq<int> {
    Seq::new(16, |k: int| product_cell(a, b, k / 4, k % 4))
}

/// Component `row` of a matrix with four rows applied to a tuple: row `row`
/// of the matrix times the tuple as a column, added up from the left.
pub open spec fn applied_component(m: Seq<int>, t: TupleView, row: int) -> int {
    sat_add(
        sat_add(
            sat_add(sat_mul(m[row * 4], t.x), sat_mul(m[row * 4 + 1], t.y)),
            sat_mul(m[row * 4 + 2], t.z),
        ),
        sat_mul(m[row * 4 + 3], t.w),
    )
}

/// A matrix with four rows applied to a tuple.
pub open spec fn applied4(m: Seq<int>, t: TupleView) -> TupleView {
    TupleView {
        x: applied_component(m, t, 0),
        y: applied_component(m, t, 1),
        z: applied_component(m, t, 2),
        w: applied_component(m, t, 3),
    }
}

/// The identity matrix with four rows.
pub open spec fn identity4() -> Seq<int> {
    Seq::new(
        16,
        |k: int|
            if k / 4 == k % 4 {
                SCALE as int
            } else {
                0
            },
    )
}

/// The matrix that moves a point by `(x, y, z)`.
pub open spec fn translation4(x: int, y: int, z: int) -> Seq<int> {
    let one = SCALE as int;
    seq![one, 0, 0, x, 0, one, 0, y, 0, 0, one, z, 0, 0, 0, one]
}

/// The matrix that scales by `(x, y, z)`.
pub open spec fn scaling4(x: int, y: int, z: int) -> Seq<int> {
    let one = SCALE as int;
    seq![x, 0, 0, 0, 0, y, 0, 0, 0, 0, z, 0, 0, 0, 0, one]
}

/// The matrix that turns around the x axis by the angle with the given sine
/// and cosine.
pub open spec fn rotation_x4(sin: int, cos: int) -> Seq<int> {
    let one = SCALE as int;
    seq![one, 0, 0, 0, 0, cos, sat_neg(sin), 0, 0, sin, cos, 0, 0, 0, 0, one]
}

/// The matrix that turns around the y axis by the angle with the given sine
/// and cosine.
pub open spec fn rotation_y4(sin: int, cos: int) -> Seq<int> {
    let one = SCALE as int;
    seq![cos, 0, sin, 0, 0, one, 0, 0, sat_neg(sin), 0, cos, 0, 0, 0, 0, one]
}

/// The matrix that turns around the z axis by the angle with the given sine
/// and cosine.
pub open spec fn rotation_z4(sin: int, cos: int) -> Seq<int> {
    let one = SCALE as int;
    seq![cos, sat_neg(sin), 0, 0, sin, cos, 0, 0, 0, 0, one, 0, 0, 0, 0, one]
}

/// Row `row` of a matrix with four rows as text: its cells with two decimal
/// places each, with a comma and a space between neighbours.
#[verifier::opaque]
pub open spec fn row_text4(m: Seq<int>, row: int) -> Seq<char> {
    two_places(m[row * 4]) + seq![',', ' '] + two_places(m[row * 4 + 1]) + seq![',', ' ']
        + two_places(m[row * 4 + 2]) + seq![',', ' '] + two_places(m[row * 4 + 3])
}

/// A matrix with four rows as text: its rows in square brackets, each on a
/// line of its own after a comma, the later ones one space in.
pub open spec fn text4(m: Seq<int>) -> Seq<char> {
    seq!['['] + row_text4(m, 0) + seq![',', '\n', ' '] + row_text4(m, 1) + seq![',', '\n', ' ']
        + row_text4(m, 2) + seq![',', '\n', ' '] + row_text4(m, 3) + seq![']']
}

/// A matrix with two rows.
#[derive(Clone, Copy, Debug)]
pub struct Mat2 {
    matrix: [Scalar; 4],
}

/// A matrix with three rows.
#[derive(Clone, Copy, Debug)]
pub struct Mat3 {
    matrix: [Scalar; 9],
}

/// A matrix with four rows.
#[derive(Clone, Copy, Debug)]
pub struct Mat4 {
    matrix: [Scalar; 16],
}

impl View for Mat2 {
    type V = Seq<int>;

    closed spec fn view(&self) -> Seq<int> {
        raw_counts(self.matrix@)
    }
}

impl View for Mat3 {
    type V = Seq<int>;

    closed spec fn view(&self) -> Seq<int> {
        raw_counts(self.matrix@)
    }
}

impl View for Mat4 {
    type V = Seq<int>;

    closed spec fn view(&self) -> Seq<int> {
        raw_counts(self.matrix@)
    }
}

fn cells_eq<const N: usize>(a: &[Scalar; N], b: &[Scalar; N]) -> (r: bool)
    ensures
        r == cells_approx_eq(raw_counts(a@), raw_counts(b@)),
{
    let mut i: usize = 0;
    while i < N
        invariant
            i <= N,
            forall|k: int|
                0 <= k < i ==> approx_eq(#[trigger] raw_counts(a@)[k], raw_counts(b@)[k]),
        decreases N - i,
    {
        if !crate::scalar::eq(a[i], b[i]) {
            assert(!approx_eq(raw_counts(a@)[i as int], raw_counts(b@)[i as int]));
            return false;
        }
        i += 1;
    }
    true
}

impl Mat2 {
    /// The matrix with the given cells in row-major order.
    pub fn new(matrix: [Scalar; 4]) -> (m: Mat2)
        ensures
            m@ == raw_counts(matrix@),
    {
        Mat2 { matrix }
    }

    /// The cell in row `row` and column `col`.
    pub fn at(&self, row: usize, col: usize) -> (r: Scalar)
        requires
            row < 2,
            col < 2,
        ensures
            r@ == self@[row * 2 + col],
    {
        self.matrix[row * 2 + col]
    }

    /// The determinant: `a * d - b * c` for the rows `a b` and `c d`.
    pub fn determinant(&self) -> (r: Scalar)
        ensures
            r@ == det2(self@),
    {
        self.matrix[0] * self.matrix[3] - self.matrix[1] * self.matrix[2]
    }
}

impl PartialEq for Mat2 {
    /// Approximate equality, cell by cell.
    fn eq(&self, other: &Mat2) -> (r: bool) {
        cells_eq(&self.matrix, &other.matrix)
    }
}

impl vstd::std_specs::cmp::PartialEqSpecImpl for Mat2 {
    open spec fn obeys_eq_spec() -> bool {
        true
    }

    open spec fn eq_spec(&self, other: &Mat2) -> bool {
        cells_approx_eq(self@, other@)
    }
}

/// How many of the positions before `i` stay when `dropped` is taken out.
spec fn kept(i: int, dropped: int) -> int {
    if i <= dropped {
        i
    } else {
        i - 1
    }
}

impl Mat3 {
    /// The matrix with the given cells in row-major order.
    pub fn new(matrix: [Scalar; 9]) -> (m: Mat3)
        ensures
            m@ == raw_counts(matrix@),
    {
        Mat3 { matrix }
    }

    /// The cell in row `row` and column `col`.
    pub fn at(&self, row: usize, col: usize) -> (r: Scalar)
        requires
            row < 3,
            col < 3,
        ensures
            r@ == self@[row * 3 + col],
    {
        self.matrix[row * 3 + col]
    }

    /// The matrix without row `row` and column `col`.
    pub fn submatrix(&self, row: usize, col: usize) -> (m: Mat2)
        requires
            row < 3,
            col < 3,
        ensures
            m@ == submatrix3(self@, row as int, col as int),
    {
        let mut m2 = [Scalar::zero();4];
        let mut idx: usize = 0;
        let mut i: usize = 0;
        while i < 3
            invariant
                i <= 3,
                row < 3,
                col < 3,
                idx == 2 * kept(i as int, row as int),
                forall|k: int|
                    0 <= k < idx ==> (#[trigger] m2@[k])@ == self@[skip(k / 2, row as int) * 3
                        + skip(k % 2, col as int)],
            decreases 3 - i,
        {
            if i != row {
                let mut j: usize = 0;
                while j < 3
                    invariant
                        j <= 3,
                        i < 3,
                        i != row,
                        row < 3,
                        col < 3,
                        idx == 2 * kept(i as int, row as int) + kept(j as int, col as int),
                        forall|k: int|
                            0 <= k < idx ==> (#[trigger] m2@[k])@ == self@[skip(k / 2, row as int)
                                * 3 + skip(k % 2, col as int)],
                    decreases 3 - j,
                {
                    if j != col {
                        m2[idx] = self.at(i, j);
                        idx += 1;
                    }
                    j += 1;
                }
            }
            i += 1;
        }
        let m = Mat2::new(m2);
        assert(m@ =~= submatrix3(self@, row as int, col as int));
        m
    }

    /// The determinant of the matrix without row `row` and column `col`.
    pub fn minor(&self, row: usize, col: usize) -> (r: Scalar)
        requires
            row < 3,
            col < 3,
        ensures
            r@ == minor3(self@, row as int, col as int),
    {
        self.submatrix(row, col).determinant()
    }

    /// The minor of cell `(row, col)`, negated where `row + col` is odd.
    pub fn cofactor(&self, row: usize, col: usize) -> (r: Scalar)
        requires
            row < 3,
            col < 3,
        ensures
            r@ == cofactor3(self@, row as int, col as int),
    {
        if (row + col) % 2 == 0 {
            self.minor(row, col)
        } else {
            self.minor(row, col).neg()
        }
    }

    /// The determinant, expanded along the first row.
    pub fn determinant(&self) -> (r: Scalar)
        ensures
            r@ == det3(self@),
    {
        let mut total = Scalar::zero();
        let mut idx: usize = 0;
        while idx < 3
            invariant
                idx <= 3,
                total@ == expansion3(self@, idx as int),
            decreases 3 - idx,
        {
            total = total + self.at(0, idx) * self.cofactor(0, idx);
            idx += 1;
        }
        total
    }
}

impl PartialEq for Mat3 {
    /// Approximate equality, cell by cell.
    fn eq(&self, other: &Mat3) -> (r: bool) {
        cells_eq(&self.matrix, &other.matrix)
    }
}

impl vstd::std_specs::cmp::PartialEqSpecImpl for Mat3 {
    open spec fn obeys_eq_spec() -> bool {
        true
    }

    open spec fn eq_spec(&self, other: &Mat3) -> bool {
        cells_approx_eq(self@, other@)
    }
}

impl Mat4 {
    /// The matrix with the given cells in row-major order.
    pub fn new(matrix: [Scalar; 16]) -> (m: Mat4)
        ensures
            m@ == raw_counts(matrix@),
    {
        Mat4 { matrix }
    }

    /// The cell in row `row` and column `col`.
    pub fn at(&self, row: usize, col: usize) -> (r: Scalar)
        requires
            row < 4,
            col < 4,
        ensures
            r@ == self@[row * 4 + col],
    {
        self.matrix[row * 4 + col]
    }

    /// The matrix that moves a point by `(x, y, z)`.
    pub fn translation(x: Scalar, y: Scalar, z: Scalar) -> (m: Mat4)
        ensures
            m@ == translation4(x@, y@, z@),
    {
        let o = Scalar::zero();
        let i = Scalar::one();
        let m = Mat4 { matrix: [i, o, o, x, o, i, o, y, o, o, i, z, o, o, o, i] };
        assert(m@ =~= translation4(x@, y@, z@));
        m
    }

    /// The matrix that scales by `(x, y, z)`.
    pub fn scaling(x: Scalar, y: Scalar, z: Scalar) -> (m: Mat4)
        ensures
            m@ == scaling4(x@, y@, z@),
    {
        let o = Scalar::zero();
        let i = Scalar::one();
        let m = Mat4 { matrix: [x, o, o, o, o, y, o, o, o, o, z, o, o, o, o, i] };
        assert(m@ =~= scaling4(x@, y@, z@));
        m
    }

    /// The matrix that turns around the x axis by the angle whose sine and
    /// cosine are given.
    pub fn rotation_x(sin: Scalar, cos: Scalar) -> (m: Mat4)
        ensures
            m@ == rotation_x4(sin@, cos@),
    {
        let o = Scalar::zero();
        let i = Scalar::one();
        let m = Mat4 { matrix: [i, o, o, o, o, cos, sin.neg(), o, o, sin, cos, o, o, o, o, i] };
        assert(m@ =~= rotation_x4(sin@, cos@));
        m
    }

    /// The matrix that turns around the y axis by the angle whose sine and
    /// cosine are given.
    pub fn rotation_y(sin: Scalar, cos: Scalar) -> (m: Mat4)
        ensures
            m@ == rotation_y4(sin@, cos@),
    {
        let o = Scalar::zero();
        let i = Scalar::one();
        let m = Mat4 { matrix: [cos, o, sin, o, o, i, o, o, sin.neg(), o, cos, o, o, o, o, i] };
        assert(m@ =~= rotation_y4(sin@, cos@));
        m
    }

    /// The matrix that turns around the z axis by the angle whose sine and
    /// cosine are given.
    pub fn rotation_z(sin: Scalar, cos: Scalar) -> (m: Mat4)
        ensures
            m@ == rotation_z4(sin@, cos@),
    {
        let o = Scalar::zero();
        let i = Scalar::one();
        let m = Mat4 { matrix: [cos, sin.neg(), o, o, sin, cos, o, o, o, o, i, o, o, o, o, i] };
        assert(m@ =~= rotation_z4(sin@, cos@));
        m
    }

    /// The identity matrix.
    pub fn identity() -> (m: Mat4)
        ensures
            m@ == identity4(),
    {
        let o = Scalar::zero();
        let i = Scalar::one();
        let m = Mat4::new([i, o, o, o, o, i, o, o, o, o, i, o, o, o, o, i]);
        assert(m@ =~= identity4());
        m
    }

    /// The matrix with rows and columns exchanged.
    pub fn transpose(&self) -> (m: Mat4)
        ensures
            m@ == transpose4(self@),
    {
        let m = Mat4::new(
            [
                self.matrix[0],
                self.matrix[4],
                self.matrix[8],
                self.matrix[12],
                self.matrix[1],
                self.matrix[5],
                self.matrix[9],
                self.matrix[13],
                self.matrix[2],
                self.matrix[6],
                self.matrix[10],
                self.matrix[14],
                self.matrix[3],
                self.matrix[7],
                self.matrix[11],
                self.matrix[15],
            ],
        );
        assert(m@ =~= transpose4(self@));
        m
    }

    /// The matrix without row `row` and column `col`.
    pub fn submatrix(&self, row: usize, col: usize) -> (m: Mat3)
        requires
            row < 4,
            col < 4,
        ensures
            m@ == submatrix4(self@, row as int, col as int),
    {
        let mut m3 = [Scalar::zero();9];
        let mut idx: usize = 0;
        let mut i: usize = 0;
        while i < 4
            invariant
                i <= 4,
                row < 4,
                col < 4,
                idx == 3 * kept(i as int, row as int),
                forall|k: int|
                    0 <= k < idx ==> (#[trigger] m3@[k])@ == self@[skip(k / 3, row as int) * 4
                        + skip(k % 3, col as int)],
            decreases 4 - i,
        {
            if i != row {
                let mut j: usize = 0;
                while j < 4
                    invariant
                        j <= 4,
                        i < 4,
                        i != row,
                        row < 4,
                        col < 4,
                        idx == 3 * kept(i as int, row as int) + kept(j as int, col as int),
                        forall|k: int|
                            0 <= k < idx ==> (#[trigger] m3@[k])@ == self@[skip(k / 3, row as int)
                                * 4 + skip(k % 3, col as int)],
                    decreases 4 - j,
                {
                    if j != col {
                        m3[idx] = self.at(i, j);
                        idx += 1;
                    }
                    j += 1;
                }
            }
            i += 1;
        }
        let m = Mat3::new(m3);
        assert(m@ =~= submatrix4(self@, row as int, col as int));
        m
    }

    /// The determinant of the matrix without row `row` and column `col`.
    pub fn minor(&self, row: usize, col: usize) -> (r: Scalar)
        requires
            row < 4,
            col < 4,
        ensures
            r@ == minor4(self@, row as int, col as int),
    {
        self.submatrix(row, col).determinant()
    }

    /// The minor of cell `(row, col)`, negated where `row + col` is odd.
    pub fn cofactor(&self, row: usize, col: usize) -> (r: Scalar)
        requires
            row < 4,
            col < 4,
        ensures
            r@ == cofactor4(self@, row as int, col as int),
    {
        if (row + col) % 2 == 0 {
            self.minor(row, col)
        } else {
            self.minor(row, col).neg()
        }
    }

    /// The determinant, expanded along the first row.
    pub fn determinant(&self) -> (r: Scalar)
        ensures
            r@ == det4(self@),
    {
        let mut total = Scalar::zero();
        let mut idx: usize = 0;
        while idx < 4
            invariant
                idx <= 4,
                total@ == expansion4(self@, idx as int),
            decreases 4 - idx,
        {
            total = total + self.at(0, idx) * self.cofactor(0, idx);
            idx += 1;
        }
        total
    }

    /// Whether the determinant is not approximately zero.
    pub fn is_invertible(&self) -> (r: bool)
        ensures
            r == invertible4(self@),
    {
        !crate::scalar::eq(self.determinant(), Scalar::zero())
    }

    /// The inverse: every cofactor divided by the determinant, in the
    /// transposed cell. Where the determinant is zero every cell is a
    /// quotient by zero.
    pub fn inverse(&self) -> (m: Mat4)
        ensures
            m@ == inverse4(self@),
    {
        let mut m4 = [Scalar::zero();16];
        let determinant = self.determinant();
        let mut row: usize = 0;
        while row < 4
            invariant
                row <= 4,
                determinant@ == det4(self@),
                forall|r: int, c: int|
                    0 <= r < row && 0 <= c < 4 ==> (#[trigger] m4@[c * 4 + r])@ == sat_div(
                        cofactor4(self@, r, c),
                        det4(self@),
                    ),
            decreases 4 - row,
        {
            let mut col: usize = 0;
            while col < 4
                invariant
                    col <= 4,
                    row < 4,
                    determinant@ == det4(self@),
                    forall|r: int, c: int|
                        0 <= r < row && 0 <= c < 4 ==> (#[trigger] m4@[c * 4 + r])@ == sat_div(
                            cofactor4(self@, r, c),
                            det4(self@),
                        ),
                    forall|c: int|
                        0 <= c < col ==> (#[trigger] m4@[c * 4 + row])@ == sat_div(
                            cofactor4(self@, row as int, c),
                            det4(self@),
                        ),
                decreases 4 - col,
            {
                let c = self.cofactor(row, col);
                m4[col * 4 + row] = c / determinant;
                col += 1;
            }
            row += 1;
        }
        let m = Mat4::new(m4);
        assert forall|k: int| 0 <= k < 16 implies m@[k] == inverse4(self@)[k] by {
            assert(m@[k] == m4@[(k / 4) * 4 + k % 4]@);
        }
        assert(m@ =~= inverse4(self@));
        m
    }

    fn push_row(&self, out: &mut String, row: usize)
        requires
            row < 4,
        ensures
            final(out)@ == old(out)@ + row_text4(self@, row as int),
    {
        proof {
            reveal_strlit(", ");
            reveal(row_text4);
        }
        push_two_places(out, self.at(row, 0));
        out.append(", ");
        push_two_places(out, self.at(row, 1));
        out.append(", ");
        push_two_places(out, self.at(row, 2));
        out.append(", ");
        push_two_places(out, self.at(row, 3));
        assert(out@ =~= old(out)@ + row_text4(self@, row as int));
    }

    /// The matrix as text for people to read.
    pub fn to_text(&self) -> (text: String)
        ensures
            text@ == text4(self@),
    {
        proof {
            reveal_strlit("[");
            reveal_strlit(",\n ");
            reveal_strlit("]");
        }
        let ghost open = seq!['['];
        let ghost sep = seq![',', '\n', ' '];
        let ghost r0 = row_text4(self@, 0);
        let ghost r1 = row_text4(self@, 1);
        let ghost r2 = row_text4(self@, 2);
        let ghost r3 = row_text4(self@, 3);
        let mut s = String::new();
        s.append("[");
        assert(s@ =~= open);
        self.push_row(&mut s, 0);
        s.append(",\n ");
        assert(s@ =~= open + r0 + sep);
        self.push_row(&mut s, 1);
        s.append(",\n ");
        assert(s@ =~= open + r0 + sep + r1 + sep);
        self.push_row(&mut s, 2);
        s.append(",\n ");
        assert(s@ =~= open + r0 + sep + r1 + sep + r2 + sep);
        self.push_row(&mut s, 3);
        s.append("]");
        assert(s@ =~= open + r0 + sep + r1 + sep + r2 + sep + r3 + seq![']']);
        s
    }

    /// This transform followed by a move by `(x, y, z)`.
    pub fn translate(self, x: Scalar, y: Scalar, z: Scalar) -> (m: Mat4)
        ensures
            m@ == product4(translation4(x@, y@, z@), self@),
    {
        Mat4::translation(x, y, z) * self
    }

    /// This transform followed by a scaling by `(x, y, z)`.
    pub fn scale(self, x: Scalar, y: Scalar, z: Scalar) -> (m: Mat4)
        ensures
            m@ == product4(scaling4(x@, y@, z@), self@),
    {
        Mat4::scaling(x, y, z) * self
    }

    /// This transform followed by a turn around the x axis.
    pub fn rotate_x(self, sin: Scalar, cos: Scalar) -> (m: Mat4)
        ensures
            m@ == product4(rotation_x4(sin@, cos@), self@),
    {
        Mat4::rotation_x(sin, cos) * self
    }

    /// This transform followed by a turn around the y axis.
    pub fn rotate_y(self, sin: Scalar, cos: Scalar) -> (m: Mat4)
        ensures
            m@ == product4(rotation_y4(sin@, cos@), self@),
    {
        Mat4::rotation_y(sin, cos) * self
    }

    /// This transform followed by a turn around the z axis.
    pub fn rotate_z(self, sin: Scalar, cos: Scalar) -> (m: Mat4)
        ensures
            m@ == product4(rotation_z4(sin@, cos@), self@),
    {
        Mat4::rotation_z(sin, cos) * self
    }

    /// The view of a matrix with four rows has sixteen cells, each the raw
    /// count of a scalar.
    pub proof fn lemma_view_len(m: Mat4)
        ensures
            m@.len() == 16,
            forall|i: int| 0 <= i < 16 ==> in_range(#[trigger] m@[i]),
    {
        assert forall|i: int| 0 <= i < 16 implies in_range(#[trigger] m@[i]) by {
            Scalar::lemma_view_range(m.matrix@[i]);
        }
    }

    /// Views determine matrices.
    pub proof fn lemma_view_injective(a: Mat4, b: Mat4)
        requires
            a@ == b@,
        ensures
            a == b,
    {
        assert forall|i: int| 0 <= i < 16 implies a.matrix[i] == b.matrix[i] by {
            assert(a@[i] == a.matrix@[i]@);
            assert(b@[i] == b.matrix@[i]@);
            Scalar::lemma_view_injective(a.matrix[i], b.matrix[i]);
        }
        assert(a.matrix =~= b.matrix);
    }
}

impl PartialEq for Mat4 {
    /// Approximate equality, cell by cell.
    fn eq(&self, other: &Mat4) -> (r: bool) {
        cells_eq(&self.matrix, &other.matrix)
    }
}

impl vstd::std_specs::cmp::PartialEqSpecImpl for Mat4 {
    open spec fn obeys_eq_spec() -> bool {
        true
    }

    open spec fn eq_spec(&self, other: &Mat4) -> bool {
        cells_approx_eq(self@, other@)
    }
}

impl core::ops::Mul<Mat4> for Mat4 {
    type Output = Mat4;

    /// The matrix product.
    fn mul(self, other: Mat4) -> (r: Mat4)
        ensures
            r@ == product4(self@, other@),
    {
        let mut m = [Scalar::zero();16];
        let mut row: usize = 0;
        while row < 4
            invariant
                row <= 4,
                forall|k: int|
                    0 <= k < row * 4 ==> (#[trigger] m@[k])@ == product_cell(
                        self@,
                        other@,
                        k / 4,
                        k % 4,
                    ),
            decreases 4 - row,
        {
            let mut col: usize = 0;
            while col < 4
                invariant
                    col <= 4,
                    row < 4,
                    forall|k: int|
                        0 <= k < row * 4 + col ==> (#[trigger] m@[k])@ == product_cell(
                            self@,
                            other@,
                            k / 4,
                            k % 4,
                        ),
                decreases 4 - col,
            {
                m[row * 4 + col] = self.at(row, 0) * other.at(0, col) + self.at(row, 1) * other.at(
                    1,
                    col,
                ) + self.at(row, 2) * other.at(2, col) + self.at(row, 3) * other.at(3, col);
                col += 1;
            }
            row += 1;
        }
        let r = Mat4::new(m);
        assert(r@ =~= product4(self@, other@));
        proof {
            let c = choose|c: Mat4| c@ == product4(self@, other@);
            Mat4::lemma_view_injective(c, r);
        }
        r
    }
}

impl vstd::std_specs::ops::MulSpecImpl<Mat4> for Mat4 {
    open spec fn obeys_mul_spec() -> bool {
        true
    }

    open spec fn mul_req(self, other: Mat4) -> bool {
        true
    }

    open spec fn mul_spec(self, other: Mat4) -> Mat4 {
        choose|c: Mat4| c@ == product4(self@, other@)
    }
}

impl core::ops::Mul<Tuple> for Mat4 {
    type Output = Tuple;

    /// The matrix applied to the tuple as a column.
    fn mul(self, other: Tuple) -> (r: Tuple)
        ensures
            r@ == applied4(self@, other@),
    {
        let r = Tuple::new(
            self.at(0, 0) * other.x() + self.at(0, 1) * other.y() + self.at(0, 2) * other.z()
                + self.at(0, 3) * other.w(),
            self.at(1, 0) * other.x() + self.at(1, 1) * other.y() + self.at(1, 2) * other.z()
                + self.at(1, 3) * other.w(),
            self.at(2, 0) * other.x() + self.at(2, 1) * other.y() + self.at(2, 2) * other.z()
                + self.at(2, 3) * other.w(),
            self.at(3, 0) * other.x() + self.at(3, 1) * other.y() + self.at(3, 2) * other.z()
                + self.at(3, 3) * other.w(),
        );
        proof {
            let c = choose|c: Tuple| c@ == applied4(self@, other@);
            Tuple::lemma_view_injective(c, r);
        }
        r
    }
}

impl vstd::std_specs::ops::MulSpecImpl<Tuple> for Mat4 {
    open spec fn obeys_mul_spec() -> bool {
        true
    }

    open spec fn mul_req(self, other: Tuple) -> bool {
        true
    }

    open spec fn mul_spec(self, other: Tuple) -> Tuple {
        choose|c: Tuple| c@ == applied4(self@, other@)
    }
}

} // verus!
