use vstd::prelude::*;

use crate::det::{det, det_wrapped, square};
use crate::error::MatrixError;
use crate::matrix::{fill_vec, filled_result, lemma_cell_index, model_of, Mat2d, MatModel};
use crate::wrap::{lemma_mul_bound, truncate_i32, wrap32};

verus! {

/// Element-wise sum, each cell truncated to 32 bits.
pub open spec fn add_result(a: MatModel<i32>, b: MatModel<i32>) -> Result<MatModel<i32>, MatrixError> {
    if a.rows != b.rows || a.cols != b.cols {
        Err(MatrixError::ShapeMismatch)
    } else {
        Ok(MatModel { rows: a.rows, cols: a.cols, data: Seq::new(a.data.len(), |k: int| wrap32(a.data[k] + b.data[k]) as i32) })
    }
}

/// Element-wise difference, each cell truncated to 32 bits.
pub open spec fn sub_result(a: MatModel<i32>, b: MatModel<i32>) -> Result<MatModel<i32>, MatrixError> {
    if a.rows != b.rows || a.cols != b.cols {
        Err(MatrixError::ShapeMismatch)
    } else {
        Ok(MatModel { rows: a.rows, cols: a.cols, data: Seq::new(a.data.len(), |k: int| wrap32(a.data[k] - b.data[k]) as i32) })
    }
}

/// The exact sum over `k < n` of `a[i, k] * b[k, j]`.
pub open spec fn dot(a: MatModel<i32>, b: MatModel<i32>, i: int, j: int, n: nat) -> int
    decreases n,
{
    if n == 0 {
        0
    } else {
        dot(a, b, i, j, (n - 1) as nat) + a.at(i, n - 1) * b.at(n - 1, j)
    }
}

/// The matrix product, each cell's exact sum truncated to 32 bits.
pub open spec fn mul_result(a: MatModel<i32>, b: MatModel<i32>) -> Result<MatModel<i32>, MatrixError> {
    if a.cols != b.rows {
        Err(MatrixError::ShapeMismatch)
    } else {
        Ok(MatModel {
            rows: a.rows,
            cols: b.cols,
            data: Seq::new(a.rows * b.cols, |x: int| wrap32(dot(a, b, x / (b.cols as int), x % (b.cols as int), a.cols)) as i32),
        })
    }
}

/// Quotient of `a` by a non-zero `b`, rounded toward zero.
pub open spec fn quot(a: int, b: int) -> int {
    let q = abs(a) / abs(b);
    if (a < 0) == (b < 0) {
        q
    } else {
        -q
    }
}

/// The absolute value of `x`.
pub open spec fn abs(x: int) -> int {
    if x < 0 {
        -x
    } else {
        x
    }
}

/// Element-wise quotient; all or nothing when any divisor is zero.
pub open spec fn div_result(a: MatModel<i32>, b: MatModel<i32>) -> Result<MatModel<i32>, MatrixError> {
    if a.rows != b.rows || a.cols != b.cols {
        Err(MatrixError::ShapeMismatch)
    } else if exists|k: int| 0 <= k < b.data.len() && #[trigger] b.data[k] == 0 {
        Err(MatrixError::DivisionByZero)
    } else {
        Ok(MatModel { rows: a.rows, cols: a.cols, data: Seq::new(a.data.len(), |k: int| wrap32(quot(a.data[k] as int, b.data[k] as int)) as i32) })
    }
}

/// The determinant of a square matrix, truncated to 32 bits.
pub open spec fn det_result(a: MatModel<i32>) -> Result<i32, MatrixError> {
    if a.rows != a.cols {
        Err(MatrixError::NotSquare)
    } else {
        Ok(wrap32(det(a)) as i32)
    }
}

impl Mat2d<i32> {
    /// A `rows x cols` matrix of zeros.
    pub fn zeroes(rows: i64, cols: i64) -> (r: Result<Self, MatrixError>)
        ensures
            model_of(r) == filled_result(0i32, rows as int, cols as int),
    {
        Self::new(0, rows, cols)
    }

    /// A `rows x cols` matrix of ones.
    pub fn ones(rows: i64, cols: i64) -> (r: Result<Self, MatrixError>)
        ensures
            model_of(r) == filled_result(1i32, rows as int, cols as int),
    {
        Self::new(1, rows, cols)
    }

    /// Element-wise sum of two matrices of the same shape.
    pub fn add(&self, other: &Self) -> (r: Result<Self, MatrixError>)
        ensures
            model_of(r) == add_result(self@, other@),
    {
        let (rows, cols) = self.get_dimensions();
        let (orows, ocols) = other.get_dimensions();
        if rows != orows || cols != ocols {
            return Err(MatrixError::ShapeMismatch);
        }
        let a = self.elements();
        let b = other.elements();
        let mut out: Vec<i32> = Vec::new();
        let mut k: usize = 0;
        while k < a.len()
            invariant
                a@.len() == b@.len(),
                k <= a@.len(),
                out@.len() == k,
                forall|x: int| 0 <= x < k ==> #[trigger] out@[x] == wrap32(a@[x] + b@[x]) as i32,
            decreases a@.len() - k,
        {
            out.push(truncate_i32(a[k] as i128 + b[k] as i128));
            k += 1;
        }
        assert(out@ =~= Seq::new(a@.len(), |x: int| wrap32(a@[x] + b@[x]) as i32));
        Ok(Mat2d::from_parts(out, rows, cols))
    }

    /// Element-wise difference of two matrices of the same shape.
    pub fn sub(&self, other: &Self) -> (r: Result<Self, MatrixError>)
        ensures
            model_of(r) == sub_result(self@, other@),
    {
        let (rows, cols) = self.get_dimensions();
        let (orows, ocols) = other.get_dimensions();
        if rows != orows || cols != ocols {
            return Err(MatrixError::ShapeMismatch);
        }
        let a = self.elements();
        let b = other.elements();
        let mut out: Vec<i32> = Vec::new();
        let mut k: usize = 0;
        while k < a.len()
            invariant
                a@.len() == b@.len(),
                k <= a@.len(),
                out@.len() == k,
                forall|x: int| 0 <= x < k ==> #[trigger] out@[x] == wrap32(a@[x] - b@[x]) as i32,
            decreases a@.len() - k,
        {
            out.push(truncate_i32(a[k] as i128 - b[k] as i128));
            k += 1;
        }
        assert(out@ =~= Seq::new(a@.len(), |x: int| wrap32(a@[x] - b@[x]) as i32));
        Ok(Mat2d::from_parts(out, rows, cols))
    }

    /// The matrix product `self * other`, summed exactly and stored truncated to 32 bits.
    pub fn multiply(&self, other: &Self) -> (r: Result<Self, MatrixError>)
        ensures
            model_of(r) == mul_result(self@, other@),
    {
        let (m, n) = self.get_dimensions();
        let (n2, p) = other.get_dimensions();
        if n != n2 {
            return Err(MatrixError::ShapeMismatch);
        }
        let a = self.elements();
        let b = other.elements();
        let ghost am = self@;
        let ghost bm = other@;
        let ghost pw = p as int;
        let alen: usize = a.len();
        let blen: usize = b.len();
        let mut out: Vec<i32> = Vec::new();
        let mut i: usize = 0;
        while i < m
            invariant
                i <= m,
                am == self@,
                bm == other@,
                a@ == am.data,
                b@ == bm.data,
                am.wf(),
                bm.wf(),
                alen == a@.len(),
                blen == b@.len(),
                am.rows == m,
                am.cols == n,
                bm.rows == n,
                bm.cols == p,
                pw == p,
                out@.len() == i * pw,
                forall|x: int| 0 <= x < out@.len() ==> #[trigger] out@[x] == wrap32(dot(am, bm, x / pw, x % pw, n as nat)) as i32,
            decreases m - i,
        {
            let mut j: usize = 0;
            while j < p
                invariant
                    i < m,
                    j <= p,
                    a@ == am.data,
                    b@ == bm.data,
                    am.wf(),
                    bm.wf(),
                    alen == a@.len(),
                    blen == b@.len(),
                    am.rows == m,
                    am.cols == n,
                    bm.rows == n,
                    bm.cols == p,
                    pw == p,
                    out@.len() == i * pw + j,
                    forall|x: int| 0 <= x < out@.len() ==> #[trigger] out@[x] == wrap32(dot(am, bm, x / pw, x % pw, n as nat)) as i32,
                decreases p - j,
            {
                let mut acc: i128 = 0;
                let mut k: usize = 0;
                while k < n
                    invariant
                        i < m,
                        j < p,
                        k <= n,
                        a@ == am.data,
                        b@ == bm.data,
                        am.wf(),
                        bm.wf(),
                        alen == a@.len(),
                        blen == b@.len(),
                        am.rows == m,
                        am.cols == n,
                        bm.rows == n,
                        bm.cols == p,
                        acc == dot(am, bm, i as int, j as int, k as nat),
                        -(k * 0x4000000000000000) <= acc <= k * 0x4000000000000000,
                    decreases n - k,
                {
                    proof {
                        lemma_cell_index(i as int, k as int, m as int, n as int);
                        lemma_cell_index(k as int, j as int, n as int, p as int);
                    }
                    let x: i128 = a[i * n + k] as i128;
                    let y: i128 = b[k * p + j] as i128;
                    proof {
                        lemma_mul_bound(x as int, y as int, 0x80000000, 0x80000000);
                    }
                    acc = acc + x * y;
                    k += 1;
                }
                proof {
                    let x = i * pw + j;
                    lemma_cell_index(i as int, j as int, m as int, pw);
                    vstd::arithmetic::div_mod::lemma_fundamental_div_mod_converse(x, pw, i as int, j as int);
                }
                out.push(truncate_i32(acc));
                j += 1;
            }
            proof {
                vstd::arithmetic::mul::lemma_mul_is_distributive_add_other_way(pw, i as int, 1);
            }
            i += 1;
        }
        assert(out@ =~= Seq::new(am.rows * bm.cols, |x: int| wrap32(dot(am, bm, x / pw, x % pw, am.cols)) as i32));
        Ok(Mat2d::from_parts(out, m, p))
    }
    /// Element-wise quotient, rounded toward zero; fails before computing anything when a
    /// divisor is zero.
    pub fn divide(&self, other: &Self) -> (r: Result<Self, MatrixError>)
        ensures
            model_of(r) == div_result(self@, other@),
    {
        let (rows, cols) = self.get_dimensions();
        let (orows, ocols) = other.get_dimensions();
        if rows != orows || cols != ocols {
            return Err(MatrixError::ShapeMismatch);
        }
        let a = self.elements();
        let b = other.elements();
        let mut k: usize = 0;
        while k < b.len()
            invariant
                k <= b@.len(),
                b@ == other@.data,
                self@.rows == other@.rows,
                self@.cols == other@.cols,
                forall|x: int| 0 <= x < k ==> #[trigger] b@[x] != 0,
            decreases b@.len() - k,
        {
            if b[k] == 0 {
                assert(other@.data[k as int] == 0);
                return Err(MatrixError::DivisionByZero);
            }
            k += 1;
        }
        let mut out: Vec<i32> = Vec::new();
        let mut k: usize = 0;
        while k < a.len()
            invariant
                a@.len() == b@.len(),
                k <= a@.len(),
                forall|x: int| 0 <= x < b@.len() ==> #[trigger] b@[x] != 0,
                out@.len() == k,
                forall|x: int| 0 <= x < k ==> #[trigger] out@[x] == wrap32(quot(a@[x] as int, b@[x] as int)) as i32,
            decreases a@.len() - k,
        {
            let x: i64 = a[k] as i64;
            let y: i64 = b[k] as i64;
            let ux: u64 = if x < 0 {
                (-x) as u64
            } else {
                x as u64
            };
            let uy: u64 = if y < 0 {
                (-y) as u64
            } else {
                y as u64
            };
            let q: i128 = (ux / uy) as i128;
            let signed: i128 = if (x < 0) == (y < 0) {
                q
            } else {
                -q
            };
            out.push(truncate_i32(signed));
            k += 1;
        }
        assert(out@ =~= Seq::new(a@.len(), |x: int| wrap32(quot(a@[x] as int, b@[x] as int)) as i32));
        Ok(Mat2d::from_parts(out, rows, cols))
    }

    /// The determinant of a square matrix, by cofactor expansion along the first row,
    /// computed modulo 2^32: the exact determinant truncated to 32 bits.
    pub fn get_determinant(&self) -> (r: Result<i32, MatrixError>)
        ensures
            r == det_result(self@),
    {
        let (rows, cols) = self.get_dimensions();
        if rows != cols {
            return Err(MatrixError::NotSquare);
        }
        let a = self.elements();
        let d = det_wrapped(a, rows);
        assert(square(a@, rows as nat) == self@);
        Ok(d)
    }

    /// The largest element of a non-empty matrix.
    pub fn max(&self) -> (r: i32)
        requires
            self@.data.len() > 0,
        ensures
            self@.data.contains(r),
            forall|k: int| 0 <= k < self@.data.len() ==> #[trigger] self@.data[k] <= r,
    {
        let a = self.elements();
        let mut best: i32 = a[0];
        let mut idx: usize = 0;
        let mut k: usize = 1;
        while k < a.len()
            invariant
                1 <= k <= a@.len(),
                a@ == self@.data,
                idx < k,
                best == a@[idx as int],
                forall|x: int| 0 <= x < k ==> #[trigger] a@[x] <= best,
            decreases a@.len() - k,
        {
            if a[k] > best {
                best = a[k];
                idx = k;
            }
            k += 1;
        }
        best
    }

    /// The smallest element of a non-empty matrix.
    pub fn min(&self) -> (r: i32)
        requires
            self@.data.len() > 0,
        ensures
            self@.data.contains(r),
            forall|k: int| 0 <= k < self@.data.len() ==> #[trigger] self@.data[k] >= r,
    {
        let a = self.elements();
        let mut best: i32 = a[0];
        let mut idx: usize = 0;
        let mut k: usize = 1;
        while k < a.len()
            invariant
                1 <= k <= a@.len(),
                a@ == self@.data,
                idx < k,
                best == a@[idx as int],
                forall|x: int| 0 <= x < k ==> #[trigger] a@[x] >= best,
            decreases a@.len() - k,
        {
            if a[k] < best {
                best = a[k];
                idx = k;
            }
            k += 1;
        }
        best
    }
}

/// The 3x3 zero matrix.
impl Default for Mat2d<i32> {
    fn default() -> (r: Self)
        ensures
            r@ == (MatModel { rows: 3, cols: 3, data: Seq::new(9, |k: int| 0i32) }),
    {
        Mat2d::from_parts(fill_vec(0i32, 9), 3, 3)
    }
}

/// Two matrices are equal when their shapes and all their elements agree.
impl PartialEq for Mat2d<i32> {
    fn eq(&self, other: &Self) -> (r: bool) {
        let (rows, cols) = self.get_dimensions();
        let (orows, ocols) = other.get_dimensions();
        if rows != orows || cols != ocols {
            return false;
        }
        let a = self.elements();
        let b = other.elements();
        let mut k: usize = 0;
        while k < a.len()
            invariant
                a@ == self@.data,
                b@ == other@.data,
                a@.len() == b@.len(),
                k <= a@.len(),
                forall|x: int| 0 <= x < k ==> #[trigger] a@[x] == b@[x],
            decreases a@.len() - k,
        {
            if a[k] != b[k] {
                return false;
            }
            k += 1;
        }
        assert(self@.data =~= other@.data);
        true
    }
}

impl vstd::std_specs::cmp::PartialEqSpecImpl for Mat2d<i32> {
    open spec fn obeys_eq_spec() -> bool {
        true
    }

    open spec fn eq_spec(&self, other: &Self) -> bool {
        self@ == other@
    }
}

} // verus!
