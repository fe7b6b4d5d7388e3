use vstd::prelude::*;

use crate::error::MatrixError;

verus! {

/// The mathematical value of a matrix: its shape and its row-major elements.
pub struct MatModel<T> {
    pub rows: nat,
    pub cols: nat,
    pub data: Seq<T>,
}

impl<T> MatModel<T> {
    /// Shape and storage agree, and each dimension fits in an `i64` and a `usize`.
    pub open spec fn wf(self) -> bool {
        &&& self.data.len() == self.rows * self.cols
        &&& self.rows <= i64::MAX && self.rows <= usize::MAX
        &&& self.cols <= i64::MAX && self.cols <= usize::MAX
    }

    /// The element in row `r` and column `c`.
    pub open spec fn at(self, r: int, c: int) -> T {
        self.data[r * self.cols + c]
    }

    /// What reading cell `(r, c)` gives.
    pub open spec fn get_result(self, r: int, c: int) -> Result<T, MatrixError> {
        if 0 <= r < self.rows && 0 <= c < self.cols {
            Ok(self.at(r, c))
        } else {
            Err(MatrixError::IndexOutOfBounds)
        }
    }
}

/// Cell `(r, c)` of a `rows x cols` grid sits inside its row-major storage.
pub proof fn lemma_cell_index(r: int, c: int, rows: int, cols: int)
    requires
        0 <= r < rows,
        0 <= c < cols,
    ensures
        0 <= r * cols + c < rows * cols,
{
    assert(0 <= r * cols + c < rows * cols) by (nonlinear_arith)
        requires
            0 <= r < rows,
            0 <= c < cols,
    ;
}

/// Both counts are non-negative and representable as `usize`.
pub open spec fn dims_fit(rows: int, cols: int) -> bool {
    0 <= rows <= usize::MAX && 0 <= cols <= usize::MAX
}

/// Row and column counts as `usize`, when they are representable.
fn checked_dims(rows: i64, cols: i64) -> (r: Option<(usize, usize)>)
    ensures
        r is Some <==> dims_fit(rows as int, cols as int),
        r is Some ==> r->Some_0.0 == rows && r->Some_0.1 == cols,
{
    if rows < 0 || cols < 0 || rows as u64 > usize::MAX as u64 || cols as u64 > usize::MAX as u64 {
        None
    } else {
        Some((rows as usize, cols as usize))
    }
}

/// The matrix of the given shape with every cell set to `v`.
pub open spec fn filled_result<T>(v: T, rows: int, cols: int) -> Result<MatModel<T>, MatrixError> {
    if !dims_fit(rows, cols) || rows * cols > usize::MAX {
        Err(MatrixError::InvalidDimensions)
    } else {
        Ok(MatModel { rows: rows as nat, cols: cols as nat, data: Seq::new((rows * cols) as nat, |k: int| v) })
    }
}

/// The matrix of the given shape over the flat row-major sequence `s`.
pub open spec fn flat_result<T>(s: Seq<T>, rows: int, cols: int) -> Result<MatModel<T>, MatrixError> {
    if !dims_fit(rows, cols) {
        Err(MatrixError::InvalidDimensions)
    } else if s.len() != rows * cols {
        Err(MatrixError::InvalidShape)
    } else {
        Ok(MatModel { rows: rows as nat, cols: cols as nat, data: s })
    }
}

/// Width of a sequence of rows: the length of the first, or 0 when there are none.
pub open spec fn nested_width<T>(s: Seq<Seq<T>>) -> nat {
    if s.len() == 0 {
        0
    } else {
        s[0].len()
    }
}

/// The matrix whose rows are the sequences of `s`.
pub open spec fn nested_result<T>(s: Seq<Seq<T>>) -> Result<MatModel<T>, MatrixError> {
    let w = nested_width(s);
    if exists|i: int| 0 <= i < s.len() && #[trigger] s[i].len() != w {
        Err(MatrixError::RaggedRows)
    } else if s.len() > i64::MAX || w > i64::MAX {
        Err(MatrixError::InvalidDimensions)
    } else {
        Ok(MatModel { rows: s.len(), cols: w, data: Seq::new(s.len() * w, |k: int| s[k / (w as int)][k % (w as int)]) })
    }
}

/// A dense, row-major `rows x cols` matrix.
#[derive(Debug)]
pub struct Mat2d<T> {
    list: Vec<T>,
    rows: usize,
    cols: usize,
}

/// The mathematical value of a matrix operation's result.
pub open spec fn model_of<T>(r: Result<Mat2d<T>, MatrixError>) -> Result<MatModel<T>, MatrixError> {
    match r {
        Ok(m) => Ok(m@),
        Err(e) => Err(e),
    }
}

impl<T> View for Mat2d<T> {
    type V = MatModel<T>;

    closed spec fn view(&self) -> MatModel<T> {
        MatModel { rows: self.rows as nat, cols: self.cols as nat, data: self.list@ }
    }
}

/// `n` copies of `value`.
pub(crate) fn fill_vec<T: Copy>(value: T, n: usize) -> (r: Vec<T>)
    ensures
        r@ == Seq::new(n as nat, |x: int| value),
{
    let mut list: Vec<T> = Vec::new();
    let mut k: usize = 0;
    while k < n
        invariant
            k <= n,
            list@ == Seq::new(k as nat, |x: int| value),
        decreases n - k,
    {
        list.push(value);
        k += 1;
        assert(list@ =~= Seq::new(k as nat, |x: int| value));
    }
    list
}

/// A copy of `v`, element by element.
fn copy_elements<T: Copy>(v: &Vec<T>) -> (r: Vec<T>)
    ensures
        r@ == v@,
{
    let mut r: Vec<T> = Vec::new();
    let mut i: usize = 0;
    while i < v.len()
        invariant
            i <= v@.len(),
            r@ == v@.subrange(0, i as int),
        decreases v@.len() - i,
    {
        r.push(v[i]);
        i += 1;
    }
    assert(r@ =~= v@);
    r
}

impl<T> Mat2d<T> {
    #[verifier::type_invariant]
    spec fn inv(self) -> bool {
        self@.wf()
    }

    /// Builds a matrix from storage already known to fit the shape.
    pub(crate) fn from_parts(list: Vec<T>, rows: usize, cols: usize) -> (r: Self)
        requires
            list@.len() == rows * cols,
            rows <= i64::MAX,
            cols <= i64::MAX,
        ensures
            r@ == (MatModel { rows: rows as nat, cols: cols as nat, data: list@ }),
    {
        Mat2d { list, rows, cols }
    }

    /// The row-major storage, read-only.
    pub(crate) fn elements(&self) -> (r: &Vec<T>)
        ensures
            r@ == self@.data,
            self@.wf(),
    {
        proof {
            use_type_invariant(self);
        }
        &self.list
    }

    /// Rows and columns.
    pub fn get_dimensions(&self) -> (r: (usize, usize))
        ensures
            r.0 == self@.rows,
            r.1 == self@.cols,
    {
        (self.rows, self.cols)
    }
}

impl<T: Copy> Mat2d<T> {
    /// A `rows x cols` matrix with every cell set to `value`.
    pub fn new(value: T, rows: i64, cols: i64) -> (r: Result<Self, MatrixError>)
        ensures
            model_of(r) == filled_result(value, rows as int, cols as int),
            r is Ok ==> forall|i: int, j: int|
                0 <= i < rows && 0 <= j < cols ==> #[trigger] r->Ok_0@.at(i, j) == value,
    {
        let (nr, nc) = match checked_dims(rows, cols) {
            Some(d) => d,
            None => {
                return Err(MatrixError::InvalidDimensions);
            },
        };
        let n: usize = match nr.checked_mul(nc) {
            Some(n) => n,
            None => {
                return Err(MatrixError::InvalidDimensions);
            },
        };
        let m = Mat2d { list: fill_vec(value, n), rows: nr, cols: nc };
        proof {
            assert forall|i: int, j: int| 0 <= i < rows && 0 <= j < cols implies #[trigger] m@.at(i, j) == value by {
                lemma_cell_index(i, j, rows as int, cols as int);
            }
        }
        Ok(m)
    }

    /// A matrix over a copy of the flat row-major sequence `list`.
    pub fn from_vec(list: &Vec<T>, rows: i64, cols: i64) -> (r: Result<Self, MatrixError>)
        ensures
            model_of(r) == flat_result(list@, rows as int, cols as int),
    {
        let (nr, nc) = match checked_dims(rows, cols) {
            Some(d) => d,
            None => {
                return Err(MatrixError::InvalidDimensions);
            },
        };
        let len: usize = list.len();
        let n: usize = match nr.checked_mul(nc) {
            Some(n) => n,
            None => {
                return Err(MatrixError::InvalidShape);
            },
        };
        if len != n {
            return Err(MatrixError::InvalidShape);
        }
        Ok(Mat2d { list: copy_elements(list), rows: nr, cols: nc })
    }

    /// A matrix whose rows are copies of the given rows.
    pub fn from_array(list: &Vec<Vec<T>>) -> (r: Result<Self, MatrixError>)
        ensures
            model_of(r) == nested_result(list@.map_values(|row: Vec<T>| row@)),
    {
        let ghost s = list@.map_values(|row: Vec<T>| row@);
        let rows: usize = list.len();
        let cols: usize = if rows == 0 {
            0
        } else {
            list[0].len()
        };
        assert(cols == nested_width(s));
        let mut i: usize = 0;
        while i < rows
            invariant
                i <= rows,
                rows == s.len(),
                cols == nested_width(s),
                s == list@.map_values(|row: Vec<T>| row@),
                forall|k: int| 0 <= k < i ==> #[trigger] s[k].len() == cols,
            decreases rows - i,
        {
            if list[i].len() != cols {
                assert(s[i as int].len() != nested_width(s));
                return Err(MatrixError::RaggedRows);
            }
            i += 1;
        }
        if rows as u64 > i64::MAX as u64 || cols as u64 > i64::MAX as u64 {
            return Err(MatrixError::InvalidDimensions);
        }
        let ghost w = cols as int;
        let mut flat: Vec<T> = Vec::new();
        let mut i: usize = 0;
        while i < rows
            invariant
                i <= rows,
                rows == s.len(),
                cols == w,
                w == nested_width(s),
                s == list@.map_values(|row: Vec<T>| row@),
                forall|k: int| 0 <= k < rows ==> #[trigger] s[k].len() == cols,
                flat@.len() == i * w,
                forall|k: int| 0 <= k < flat@.len() ==> #[trigger] flat@[k] == s[k / w][k % w],
            decreases rows - i,
        {
            let row = &list[i];
            assert(row@ == s[i as int]);
            let mut j: usize = 0;
            while j < cols
                invariant
                    i < rows,
                    j <= cols,
                    rows == s.len(),
                    cols == w,
                    row@ == s[i as int],
                    s == list@.map_values(|row: Vec<T>| row@),
                    forall|k: int| 0 <= k < rows ==> #[trigger] s[k].len() == cols,
                    flat@.len() == i * w + j,
                    forall|k: int| 0 <= k < flat@.len() ==> #[trigger] flat@[k] == s[k / w][k % w],
                decreases cols - j,
            {
                proof {
                    lemma_cell_index(i as int, j as int, rows as int, w);
                    vstd::arithmetic::mul::lemma_mul_inequality(i as int + 1, rows as int, w);
                    vstd::arithmetic::mul::lemma_mul_is_distributive_add_other_way(w, i as int, 1);
                }
                flat.push(row[j]);
                proof {
                    let k = i * w + j;
                    vstd::arithmetic::div_mod::lemma_fundamental_div_mod_converse(k, w, i as int, j as int);
                    assert(flat@[k] == s[k / w][k % w]);
                }
                j += 1;
            }
            proof {
                vstd::arithmetic::mul::lemma_mul_is_distributive_add_other_way(w, i as int, 1);
            }
            i += 1;
        }
        proof {
            vstd::arithmetic::mul::lemma_mul_is_commutative(rows as int, w);
        }
        assert(flat@ =~= Seq::new(s.len() * nested_width(s), |k: int| s[k / w][k % w]));
        Ok(Mat2d { list: flat, rows, cols })
    }

    /// The element in row `row` and column `col`, counting from 0.
    pub fn get(&self, row: usize, col: usize) -> (r: Result<T, MatrixError>)
        ensures
            r == self@.get_result(row as int, col as int),
    {
        proof {
            use_type_invariant(self);
        }
        if row >= self.rows || col >= self.cols {
            return Err(MatrixError::IndexOutOfBounds);
        }
        let n: usize = self.list.len();
        proof {
            lemma_cell_index(row as int, col as int, self.rows as int, self.cols as int);
        }
        Ok(self.list[row * self.cols + col])
    }

    /// A copy of the matrix, with storage of its own.
    pub fn duplicate(&self) -> (r: Self)
        ensures
            r@ == self@,
    {
        proof {
            use_type_invariant(self);
        }
        Mat2d { list: copy_elements(&self.list), rows: self.rows, cols: self.cols }
    }

    /// A copy of the row-major storage.
    pub fn get_matrix(&self) -> (r: Vec<T>)
        ensures
            r@ == self@.data,
    {
        copy_elements(&self.list)
    }
}

impl<T: Copy> Clone for Mat2d<T> {
    fn clone(&self) -> Self {
        self.duplicate()
    }
}

} // verus!
