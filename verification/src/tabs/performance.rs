//! How the per-core CPU grid is laid out.
use vstd::prelude::*;

verus! {

/// The widest the grid gets, in cores per row.
pub const MAX_COLUMNS: usize = 8;

/// The largest `r` up to `cap` with `r * r <= n`.
pub open spec fn root_up_to(n: int, cap: int) -> int
    decreases cap,
{
    if cap <= 0 || cap * cap <= n {
        cap
    } else {
        root_up_to(n, cap - 1)
    }
}

/// Cores per row: the integer square root of the core count, between 1 and `MAX_COLUMNS`, so a
/// 4-core laptop and a 32-core server both look sensible.
pub open spec fn columns_for(cores: int) -> int {
    let r = root_up_to(cores, MAX_COLUMNS as int);
    if r < 1 {
        1
    } else {
        r
    }
}

/// How many blank cells pad the last, short row so the columns stay aligned.
pub open spec fn padding_for(cores: int) -> int {
    let c = columns_for(cores);
    if cores % c == 0 {
        0
    } else {
        c - cores % c
    }
}

/// The grid's shape for `cores` cores: columns per row, and blank cells after the last core.
pub fn grid_shape(cores: usize) -> (shape: (usize, usize))
    ensures
        shape.0 == columns_for(cores as int),
        shape.1 == padding_for(cores as int),
        1 <= shape.0 <= MAX_COLUMNS,
        (cores + shape.1) % (shape.0 as int) == 0,
{
    let mut r: usize = MAX_COLUMNS;
    while r > 0 && r * r > cores
        invariant
            r <= MAX_COLUMNS,
            r * r <= 64,
            root_up_to(cores as int, MAX_COLUMNS as int) == root_up_to(cores as int, r as int),
        decreases r,
    {
        r -= 1;
        assert(r * r <= 64) by (nonlinear_arith)
            requires
                r < 8,
        ;
    }
    let columns = if r < 1 {
        1
    } else {
        r
    };
    let remainder = cores % columns;
    let padding = if remainder == 0 {
        0
    } else {
        columns - remainder
    };
    proof {
        let c = columns as int;
        let n = cores as int;
        vstd::arithmetic::div_mod::lemma_fundamental_div_mod(n, c);
        if remainder != 0 {
            assert((n + padding) == (n / c + 1) * c) by (nonlinear_arith)
                requires
                    n == c * (n / c) + n % c,
                    padding == c - n % c,
            ;
            vstd::arithmetic::div_mod::lemma_mod_multiples_basic(n / c + 1, c);
        } else {
            assert(n == (n / c) * c) by (nonlinear_arith)
                requires
                    n == c * (n / c) + 0,
            ;
            vstd::arithmetic::div_mod::lemma_mod_multiples_basic(n / c, c);
        }
    }
    (columns, padding)
}

/// Whether core `index` is the last of its row.
pub fn ends_row(index: usize, columns: usize) -> (b: bool)
    requires
        columns > 0,
        index < usize::MAX,
    ensures
        b == ((index + 1) % (columns as int) == 0),
{
    (index + 1) % columns == 0
}

} // verus!
