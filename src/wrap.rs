use vstd::prelude::*;

verus! {

/// Number of distinct `i32` values.
pub const I32_RANGE: i128 = 4294967296;

/// The `i32` congruent to `x` modulo 2^32: the low 32 bits of `x`, read as signed.
pub open spec fn wrap32(x: int) -> int {
    let m = x % 4294967296;
    if m >= 2147483648 {
        m - 4294967296
    } else {
        m
    }
}

/// Values already in range are left alone.
pub proof fn lemma_wrap32_in_range(x: int)
    requires
        i32::MIN <= x <= i32::MAX,
    ensures
        wrap32(x) == x,
{
    if x >= 0 {
        vstd::arithmetic::div_mod::lemma_small_mod(x as nat, 4294967296);
    } else {
        vstd::arithmetic::div_mod::lemma_mod_add_multiples_vanish(x, 4294967296);
        vstd::arithmetic::div_mod::lemma_small_mod((x + 4294967296) as nat, 4294967296);
    }
}

/// Adding a multiple of 2^32 does not change the truncation.
pub proof fn lemma_wrap32_shift(y: int, t: int)
    ensures
        wrap32(y + 4294967296 * t) == wrap32(y),
{
    vstd::arithmetic::div_mod::lemma_mod_multiples_vanish(t, y, 4294967296);
    assert(4294967296 * t + y == y + 4294967296 * t);
}

/// Truncation differs from its argument by a multiple of 2^32.
proof fn lemma_wrap32_offset(x: int)
    ensures
        wrap32(x) == x - 4294967296 * (if x % 4294967296 >= 2147483648 { x / 4294967296 + 1 } else { x / 4294967296 }),
{
    vstd::arithmetic::div_mod::lemma_fundamental_div_mod(x, 4294967296);
}

/// Truncating the operands of `x + c * d` first does not change the truncated result.
pub proof fn lemma_wrap32_mul_add(x: int, c: int, d: int)
    ensures
        wrap32(wrap32(x) + c * wrap32(d)) == wrap32(x + c * d),
{
    lemma_wrap32_offset(x);
    lemma_wrap32_offset(d);
    let k1 = if x % 4294967296 >= 2147483648 { x / 4294967296 + 1 } else { x / 4294967296 };
    let k2 = if d % 4294967296 >= 2147483648 { d / 4294967296 + 1 } else { d / 4294967296 };
    let t = -k1 - c * k2;
    assert(wrap32(x) + c * wrap32(d) == (x + c * d) + 4294967296 * t) by (nonlinear_arith)
        requires
            wrap32(x) == x - 4294967296 * k1,
            wrap32(d) == d - 4294967296 * k2,
            t == -k1 - c * k2,
    ;
    lemma_wrap32_shift(x + c * d, t);
}

/// `|x| <= bx` and `|y| <= by` bound `|x * y|` by `bx * by`.
pub proof fn lemma_mul_bound(x: int, y: int, bx: int, by: int)
    requires
        -bx <= x <= bx,
        -by <= y <= by,
    ensures
        -(bx * by) <= x * y <= bx * by,
{
    assert(-(bx * by) <= x * y <= bx * by) by (nonlinear_arith)
        requires
            -bx <= x <= bx,
            -by <= y <= by,
    ;
}

/// Stores an exact wide result as an `i32`, keeping its low 32 bits.
pub fn truncate_i32(x: i128) -> (r: i32)
    ensures
        r as int == wrap32(x as int),
{
    let m: i128 = match x.checked_rem_euclid(I32_RANGE) {
        Some(m) => m,
        None => 0,
    };
    assert(m == x % 4294967296);
    if m >= 2147483648 {
        (m - I32_RANGE) as i32
    } else {
        m as i32
    }
}

} // verus!
