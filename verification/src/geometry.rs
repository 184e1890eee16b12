//! Rounding of image extents to whole cells.

use vstd::arithmetic::div_mod::{
    lemma_div_multiples_vanish, lemma_fundamental_div_mod, lemma_mod_multiples_basic,
};
use vstd::prelude::*;

verus! {

/// Number of cells of extent `m` needed to cover `n` dots: the ceiling of `n / m`.
pub open spec fn cell_count(n: int, m: int) -> int {
    (n + m - 1) / m
}

/// `n` rounded up to a multiple of `m`.
pub open spec fn round_up(n: int, m: int) -> int {
    cell_count(n, m) * m
}

/// The ceiling quotient `q` of `n` by `m` is the one number with
/// `(q - 1) * m < n <= q * m`; it is zero only for `n == 0`.
pub proof fn lemma_cell_count_bounds(n: int, m: int)
    requires
        0 <= n,
        0 < m,
    ensures
        0 <= cell_count(n, m),
        (cell_count(n, m) - 1) * m < n <= cell_count(n, m) * m,
        n == 0 <==> cell_count(n, m) == 0,
        n % m == 0 ==> cell_count(n, m) * m == n,
{
    let q = cell_count(n, m);
    let x = n + m - 1;
    lemma_fundamental_div_mod(x, m);
    assert(m * q == q * m && (q - 1) * m == q * m - m) by (nonlinear_arith);
    assert(0 <= x % m < m);
    if q < 0 {
        assert(q * m < 0) by (nonlinear_arith)
            requires
                q < 0,
                0 < m,
        ;
    }
    if q == 0 {
        assert(q * m == 0) by (nonlinear_arith)
            requires
                q == 0,
        ;
    }
    if n % m == 0 {
        lemma_fundamental_div_mod(n, m);
        let k = n / m;
        assert(q == k) by (nonlinear_arith)
            requires
                n == m * k,
                q * m - m < n <= q * m,
                0 < m,
        ;
    }
}

/// The place `(x, y)` of a grid that is kept row by row has an index of its
/// own within the grid.
pub proof fn lemma_row_major(x: int, y: int, width: int, height: int)
    requires
        0 <= x < width,
        0 <= y < height,
    ensures
        0 <= y * width <= y * width + x < width * height,
{
    assert(0 <= y * width && y * width + width <= height * width && height * width == width
        * height) by (nonlinear_arith)
        requires
            0 <= y < height,
            0 < width,
    ;
}

/// Rounds `n` up to the next multiple of `m`.
pub fn ceil_multiple(n: u64, m: u64) -> (r: u64)
    requires
        m > 0,
        n + m <= u64::MAX,
    ensures
        r == round_up(n as int, m as int),
        r % m == 0,
        n <= r < n + m,
        r / m == cell_count(n as int, m as int),
{
    proof {
        lemma_cell_count_bounds(n as int, m as int);
        let q = cell_count(n as int, m as int);
        lemma_mod_multiples_basic(q, m as int);
        lemma_div_multiples_vanish(q, m as int);
        assert(q * m == m * q && (q - 1) * m == q * m - m) by (nonlinear_arith);
        assert(q == (n + m - 1) / (m as int));
        assert(n <= q * m < n + m);
    }
    ((n + m - 1) / m) * m
}

} // verus!
