use vstd::prelude::*;

use crate::matrix::{lemma_cell_index, MatModel};
use crate::wrap::{lemma_mul_bound, lemma_wrap32_mul_add, truncate_i32, wrap32};

verus! {

/// The `n x n` matrix over the row-major sequence `s`.
pub open spec fn square(s: Seq<i32>, n: nat) -> MatModel<i32> {
    MatModel { rows: n, cols: n, data: s }
}

/// Column `k` of a minor that leaves out column `j`, as a column of the full matrix.
pub open spec fn skip_col(k: int, j: int) -> int {
    if k < j {
        k
    } else {
        k + 1
    }
}

/// The sign of the cofactor in column `j` of the first row.
pub open spec fn cofactor_sign(j: int) -> int {
    if j % 2 == 0 {
        1
    } else {
        -1
    }
}

/// The matrix left when the first row and column `j` are taken out.
pub open spec fn minor(a: MatModel<i32>, j: int) -> MatModel<i32> {
    let w = (a.rows - 1) as nat;
    MatModel { rows: w, cols: w, data: Seq::new(w * w, |x: int| a.at(x / (w as int) + 1, skip_col(x % (w as int), j))) }
}

/// The exact determinant, by cofactor expansion along the first row; the empty matrix has
/// determinant 1.
pub open spec fn det(a: MatModel<i32>) -> int
    decreases a.rows, 1nat, 0nat,
{
    if a.rows == 0 {
        1
    } else {
        det_row(a, a.rows)
    }
}

/// The first `m` terms of the cofactor expansion along the first row.
pub open spec fn det_row(a: MatModel<i32>, m: nat) -> int
    decreases a.rows, 0nat, m,
{
    if m == 0 || a.rows == 0 {
        0
    } else {
        det_row(a, (m - 1) as nat) + cofactor_sign(m - 1) * a.at(0, m - 1) * det(minor(a, m - 1))
    }
}

/// Cell `(r, c)` of a minor is a cell of the rows below the first.
pub proof fn lemma_minor_at(a: MatModel<i32>, j: int, r: int, c: int)
    requires
        a.rows >= 1,
        0 <= r < a.rows - 1,
        0 <= c < a.rows - 1,
    ensures
        minor(a, j).at(r, c) == a.at(r + 1, skip_col(c, j)),
{
    let w = a.rows - 1;
    lemma_cell_index(r, c, w, w);
    vstd::arithmetic::div_mod::lemma_fundamental_div_mod_converse(r * w + c, w, r, c);
}

/// The odd-column cofactor sign negates its term.
proof fn lemma_negate_term(x: int, d: int)
    ensures
        cofactor_sign(1) * x * d == -(x * d),
{
    assert(cofactor_sign(1) == -1);
    assert((-1) * x * d == -(x * d)) by (nonlinear_arith);
}

/// A 1x1 matrix's determinant is its element.
pub proof fn lemma_det_one(a: MatModel<i32>)
    requires
        a.rows == 1,
        a.cols == 1,
    ensures
        det(a) == a.at(0, 0),
{
    assert(det(minor(a, 0)) == 1);
    assert(det_row(a, 0) == 0);
    assert(det(a) == det_row(a, 1));
}

/// A 2x2 matrix's determinant is `a00 * a11 - a01 * a10`.
pub proof fn lemma_det_two(a: MatModel<i32>)
    requires
        a.rows == 2,
        a.cols == 2,
    ensures
        det(a) == a.at(0, 0) * a.at(1, 1) - a.at(0, 1) * a.at(1, 0),
{
    let m0 = minor(a, 0);
    let m1 = minor(a, 1);
    lemma_det_one(m0);
    lemma_det_one(m1);
    lemma_minor_at(a, 0, 0, 0);
    lemma_minor_at(a, 1, 0, 0);
    assert(det_row(a, 0) == 0);
    assert(det_row(a, 1) == a.at(0, 0) * det(m0));
    assert(det_row(a, 2) == det_row(a, 1) + cofactor_sign(1) * a.at(0, 1) * det(m1));
    lemma_negate_term(a.at(0, 1) as int, det(m1));
}

/// A 3x3 matrix's determinant is the cofactor expansion along its first row.
pub proof fn lemma_det_three(a: MatModel<i32>)
    requires
        a.rows == 3,
        a.cols == 3,
    ensures
        det(a) == a.at(0, 0) * (a.at(1, 1) * a.at(2, 2) - a.at(1, 2) * a.at(2, 1))
            - a.at(0, 1) * (a.at(1, 0) * a.at(2, 2) - a.at(1, 2) * a.at(2, 0))
            + a.at(0, 2) * (a.at(1, 0) * a.at(2, 1) - a.at(1, 1) * a.at(2, 0)),
{
    let m0 = minor(a, 0);
    let m1 = minor(a, 1);
    let m2 = minor(a, 2);
    lemma_det_two(m0);
    lemma_det_two(m1);
    lemma_det_two(m2);
    assert forall|j: int, r: int, c: int| 0 <= j < 3 && 0 <= r < 2 && 0 <= c < 2 implies #[trigger] minor(a, j).at(r, c)
        == a.at(r + 1, skip_col(c, j)) by {
        lemma_minor_at(a, j, r, c);
    }
    assert(det_row(a, 0) == 0);
    assert(det_row(a, 1) == a.at(0, 0) * det(m0));
    assert(det_row(a, 2) == det_row(a, 1) + cofactor_sign(1) * a.at(0, 1) * det(m1));
    lemma_negate_term(a.at(0, 1) as int, det(m1));
    assert(det_row(a, 3) == det_row(a, 2) + a.at(0, 2) * det(m2));
}

/// The row-major storage of the minor of the `n x n` matrix `a` that leaves out column `j`.
fn minor_of(a: &Vec<i32>, n: usize, j: usize) -> (r: Vec<i32>)
    requires
        a@.len() == n * n,
        0 < n,
        j < n,
    ensures
        r@ == minor(square(a@, n as nat), j as int).data,
{
    let w: usize = n - 1;
    let ghost wi = w as int;
    let ghost sq = square(a@, n as nat);
    let alen: usize = a.len();
    let mut out: Vec<i32> = Vec::new();
    let mut i: usize = 0;
    while i < w
        invariant
            i <= w,
            w == n - 1,
            wi == w,
            j < n,
            alen == a@.len(),
            a@.len() == n * n,
            sq == square(a@, n as nat),
            out@.len() == i * wi,
            forall|x: int| 0 <= x < out@.len() ==> #[trigger] out@[x] == sq.at(x / wi + 1, skip_col(x % wi, j as int)),
        decreases w - i,
    {
        let mut k: usize = 0;
        while k < w
            invariant
                i < w,
                k <= w,
                w == n - 1,
                wi == w,
                j < n,
                alen == a@.len(),
                a@.len() == n * n,
                sq == square(a@, n as nat),
                out@.len() == i * wi + k,
                forall|x: int| 0 <= x < out@.len() ==> #[trigger] out@[x] == sq.at(x / wi + 1, skip_col(x % wi, j as int)),
            decreases w - k,
        {
            let col: usize = if k < j {
                k
            } else {
                k + 1
            };
            proof {
                lemma_cell_index(i as int + 1, col as int, n as int, n as int);
            }
            out.push(a[(i + 1) * n + col]);
            proof {
                let x = i * wi + k;
                vstd::arithmetic::div_mod::lemma_fundamental_div_mod_converse(x, wi, i as int, k as int);
                assert(out@[x] == sq.at(x / wi + 1, skip_col(x % wi, j as int)));
            }
            k += 1;
        }
        proof {
            vstd::arithmetic::mul::lemma_mul_is_distributive_add_other_way(wi, i as int, 1);
        }
        i += 1;
    }
    assert(out@ =~= minor(sq, j as int).data);
    out
}

/// The determinant of the `n x n` matrix `a`, truncated to 32 bits.
pub fn det_wrapped(a: &Vec<i32>, n: usize) -> (r: i32)
    requires
        a@.len() == n * n,
    ensures
        r == wrap32(det(square(a@, n as nat))),
    decreases n,
{
    let ghost sq = square(a@, n as nat);
    if n == 0 {
        return 1;
    }
    proof {
        lemma_cell_index(0, 0, n as int, n as int);
    }
    let mut acc: i32 = 0;
    let mut j: usize = 0;
    while j < n
        invariant
            0 < n,
            j <= n,
            a@.len() == n * n,
            sq == square(a@, n as nat),
            acc == wrap32(det_row(sq, j as nat)),
        decreases n - j,
    {
        let m = minor_of(a, n, j);
        proof {
            assert((n - 1) * (n - 1) == minor(sq, j as int).data.len());
        }
        let d: i32 = det_wrapped(&m, n - 1);
        proof {
            assert(square(m@, (n - 1) as nat) == minor(sq, j as int));
            lemma_cell_index(0, j as int, n as int, n as int);
        }
        let x: i32 = a[j];
        proof {
            lemma_mul_bound(x as int, d as int, 0x80000000, 0x80000000);
        }
        let term: i128 = x as i128 * d as i128;
        let next: i128 = if j % 2 == 0 {
            acc as i128 + term
        } else {
            acc as i128 - term
        };
        proof {
            let dd = det(minor(sq, j as int));
            let prev = det_row(sq, j as nat);
            let c = cofactor_sign(j as int) * x;
            assert(sq.at(0, j as int) == x);
            assert(cofactor_sign(j as int) * x * dd == c * dd) by (nonlinear_arith)
                requires
                    c == cofactor_sign(j as int) * x,
            ;
            assert(next == acc + c * d) by (nonlinear_arith)
                requires
                    term == x * d,
                    c == cofactor_sign(j as int) * x,
                    cofactor_sign(j as int) == 1 ==> next == acc + term,
                    cofactor_sign(j as int) == -1 ==> next == acc - term,
                    cofactor_sign(j as int) == 1 || cofactor_sign(j as int) == -1,
            ;
            lemma_wrap32_mul_add(prev, c, dd);
        }
        acc = truncate_i32(next);
        j += 1;
    }
    acc
}

} // verus!
