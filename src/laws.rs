use vstd::prelude::*;

use crate::error::MatrixError;
use crate::matrix::{filled_result, flat_result, lemma_cell_index, MatModel};
use crate::ops::{add_result, dot, mul_result};
use crate::wrap::lemma_wrap32_in_range;

verus! {

/// The `n x n` identity matrix: ones on the diagonal, zeros elsewhere.
pub open spec fn identity_model(n: nat) -> MatModel<i32> {
    MatModel { rows: n, cols: n, data: Seq::new(n * n, |k: int| if k / (n as int) == k % (n as int) { 1i32 } else { 0i32 }) }
}

/// Every cell of a filled matrix reads back as the fill value.
pub proof fn lemma_filled_get<T>(v: T, rows: int, cols: int, r: int, c: int)
    requires
        filled_result(v, rows, cols) is Ok,
        0 <= r < rows,
        0 <= c < cols,
    ensures
        filled_result(v, rows, cols)->Ok_0.get_result(r, c) == Ok::<T, MatrixError>(v),
{
    lemma_cell_index(r, c, rows, cols);
}

/// Rebuilding a matrix from its flat storage and its shape gives the same matrix.
pub proof fn lemma_flat_round_trip<T>(m: MatModel<T>)
    requires
        m.wf(),
    ensures
        flat_result(m.data, m.rows as int, m.cols as int) == Ok::<MatModel<T>, MatrixError>(m),
{
}

/// Addition is commutative, and fails alike on both orders when the shapes differ.
pub proof fn lemma_add_commutative(a: MatModel<i32>, b: MatModel<i32>)
    requires
        a.wf(),
        b.wf(),
    ensures
        add_result(a, b) == add_result(b, a),
{
    if a.rows == b.rows && a.cols == b.cols {
        let x = add_result(a, b)->Ok_0;
        let y = add_result(b, a)->Ok_0;
        assert(x.data =~= y.data);
    }
}

/// Cell `(k, j)` of the identity is 1 exactly on the diagonal.
proof fn lemma_identity_at(n: nat, k: int, j: int)
    requires
        0 <= k < n,
        0 <= j < n,
    ensures
        identity_model(n).at(k, j) == (if k == j { 1i32 } else { 0i32 }),
{
    lemma_cell_index(k, j, n as int, n as int);
    vstd::arithmetic::div_mod::lemma_fundamental_div_mod_converse(k * n + j, n as int, k, j);
}

/// A row of `a` against a column of the identity picks out one element.
proof fn lemma_dot_identity_right(a: MatModel<i32>, n: nat, i: int, j: int, m: nat)
    requires
        m <= n,
        0 <= j < n,
    ensures
        dot(a, identity_model(n), i, j, m) == (if j < m { a.at(i, j) as int } else { 0 }),
    decreases m,
{
    if m > 0 {
        lemma_dot_identity_right(a, n, i, j, (m - 1) as nat);
        lemma_identity_at(n, m - 1, j);
    }
}

/// A row of the identity against a column of `a` picks out one element.
proof fn lemma_dot_identity_left(a: MatModel<i32>, n: nat, i: int, j: int, m: nat)
    requires
        m <= n,
        0 <= i < n,
    ensures
        dot(identity_model(n), a, i, j, m) == (if i < m { a.at(i, j) as int } else { 0 }),
    decreases m,
{
    if m > 0 {
        lemma_dot_identity_left(a, n, i, j, (m - 1) as nat);
        lemma_identity_at(n, i, m - 1);
    }
}

/// Cell `x` of row-major storage with `cols` columns is cell `(x / cols, x % cols)`.
proof fn lemma_split_index(x: int, rows: int, cols: int)
    requires
        0 <= x < rows * cols,
        cols > 0,
    ensures
        0 <= x / cols < rows,
        0 <= x % cols < cols,
        (x / cols) * cols + x % cols == x,
{
    vstd::arithmetic::div_mod::lemma_fundamental_div_mod(x, cols);
    vstd::arithmetic::div_mod::lemma_mod_bound(x, cols);
    vstd::arithmetic::div_mod::lemma_div_pos_is_pos(x, cols);
    vstd::arithmetic::mul::lemma_mul_is_commutative(x / cols, cols);
    let q = x / cols;
    let m = x % cols;
    assert(q < rows) by (nonlinear_arith)
        requires
            x == q * cols + m,
            0 <= m,
            x < rows * cols,
            cols > 0,
    ;
}

/// Multiplying by the identity on the right gives the matrix back.
pub proof fn lemma_mul_identity_right(a: MatModel<i32>)
    requires
        a.wf(),
    ensures
        mul_result(a, identity_model(a.cols)) == Ok::<MatModel<i32>, MatrixError>(a),
{
    let n = a.cols;
    let r = mul_result(a, identity_model(n))->Ok_0;
    assert forall|x: int| 0 <= x < a.data.len() implies #[trigger] r.data[x] == a.data[x] by {
        lemma_split_index(x, a.rows as int, n as int);
        let i = x / (n as int);
        let j = x % (n as int);
        lemma_dot_identity_right(a, n, i, j, n);
        lemma_wrap32_in_range(a.at(i, j) as int);
    }
    assert(r.data =~= a.data);
}

/// Multiplying by the identity on the left gives the matrix back.
pub proof fn lemma_mul_identity_left(a: MatModel<i32>)
    requires
        a.wf(),
    ensures
        mul_result(identity_model(a.rows), a) == Ok::<MatModel<i32>, MatrixError>(a),
{
    let n = a.rows;
    let r = mul_result(identity_model(n), a)->Ok_0;
    assert forall|x: int| 0 <= x < a.data.len() implies #[trigger] r.data[x] == a.data[x] by {
        lemma_split_index(x, n as int, a.cols as int);
        let i = x / (a.cols as int);
        let j = x % (a.cols as int);
        lemma_dot_identity_left(a, n, i, j, n);
        lemma_wrap32_in_range(a.at(i, j) as int);
    }
    assert(r.data =~= a.data);
}

} // verus!
