//! Default lag truncations of the form `floor(c · (n / 100)^(1/4))`,
//! computed exactly in integers.

use vstd::prelude::*;

verus! {

/// `m⁴`.
pub open spec fn pow4(m: int) -> int {
    m * m * m * m
}

/// `m` is `floor(c · (n / 100)^(1/4))`: the largest integer with
/// `100 · m⁴ ≤ c⁴ · n`.
pub open spec fn is_lag_root(m: int, c: int, n: int) -> bool {
    &&& 0 <= m
    &&& 100 * pow4(m) <= pow4(c) * n
    &&& pow4(c) * n < 100 * pow4(m + 1)
}

/// `floor(c · (n / 100)^(1/4))`.
pub open spec fn lag_root(c: int, n: int) -> int {
    choose|m: int| is_lag_root(m, c, n)
}

/// `a ≤ b` gives `a⁴ ≤ b⁴` on non-negative integers.
pub proof fn lemma_pow4_monotone(a: int, b: int)
    requires
        0 <= a <= b,
    ensures
        pow4(a) <= pow4(b),
{
    assert(a * a <= b * b) by (nonlinear_arith)
        requires
            0 <= a <= b,
    ;
    assert(a * a * a <= b * b * b) by (nonlinear_arith)
        requires
            0 <= a <= b,
            a * a <= b * b,
    ;
    assert(a * a * a * a <= b * b * b * b) by (nonlinear_arith)
        requires
            0 <= a <= b,
            a * a * a <= b * b * b,
    ;
}

/// At most one integer is the root of a given `c` and `n`.
pub proof fn lemma_lag_root_unique(m1: int, m2: int, c: int, n: int)
    requires
        is_lag_root(m1, c, n),
        is_lag_root(m2, c, n),
    ensures
        m1 == m2,
{
    if m1 < m2 {
        lemma_pow4_monotone(m1 + 1, m2);
    } else if m2 < m1 {
        lemma_pow4_monotone(m2 + 1, m1);
    }
}

/// `100 · k⁴`, for `k ≤ 2^20`.
fn hundred_pow4(k: u128) -> (r: u128)
    requires
        k <= 1048576,
    ensures
        r == 100 * pow4(k as int),
{
    assert(k * k <= 0x100_0000_0000) by (nonlinear_arith)
        requires
            k <= 1048576,
    ;
    let k2 = k * k;
    assert(k2 * k <= 0x1000_0000_0000_0000) by (nonlinear_arith)
        requires
            k <= 1048576,
            k2 <= 0x100_0000_0000,
    ;
    let k3 = k2 * k;
    assert(k3 * k <= 0x1_0000_0000_0000_0000_0000) by (nonlinear_arith)
        requires
            k <= 1048576,
            k3 <= 0x1000_0000_0000_0000,
    ;
    let k4 = k3 * k;
    100 * k4
}

/// `floor(c · (n / 100)^(1/4))` for `1 ≤ c ≤ 16`.
pub fn floor_lag_root(c: u32, n: usize) -> (m: usize)
    requires
        1 <= c <= 16,
    ensures
        is_lag_root(m as int, c as int, n as int),
        m == lag_root(c as int, n as int),
{
    let c4: u128 = hundred_pow4(c as u128) / 100;
    proof {
        lemma_pow4_monotone(c as int, 16);
        assert(pow4(16) == 65536);
    }
    assert(c4 * (n as u128) <= 65536u128 * 0x1_0000_0000_0000_0000u128) by (nonlinear_arith)
        requires
            c4 <= 65536,
            n <= 0xffff_ffff_ffff_ffffu128,
    ;
    let target: u128 = c4 * (n as u128);
    let mut m: u128 = 0;
    assert(pow4(0) == 0);
    proof {
        assert(1048576int * 1048576int == 0x100_0000_0000int);
        assert(0x100_0000_0000int * 1048576int == 0x1000_0000_0000_0000int);
        assert(0x1000_0000_0000_0000int * 1048576int == 0x1_0000_0000_0000_0000_0000int);
        assert(pow4(1048576) == 0x1_0000_0000_0000_0000_0000int);
    }
    while hundred_pow4(m + 1) <= target
        invariant
            target == pow4(c as int) * n,
            target <= 0x1_0000_0000_0000_0000_0000,
            m < 1048576,
            100 * pow4(m as int) <= target,
            pow4(1048576) == 0x1_0000_0000_0000_0000_0000int,
        decreases 1048576 - m,
    {
        proof {
            lemma_pow4_monotone(m as int + 1, 1048576);
        }
        m = m + 1;
        proof {
            if m >= 1048576 {
                lemma_pow4_monotone(1048576, m as int);
            }
        }
    }
    proof {
        assert(is_lag_root(m as int, c as int, n as int));
        lemma_lag_root_unique(m as int, lag_root(c as int, n as int), c as int, n as int);
    }
    m as usize
}


/// Searching upward from `m`, whose fourth power is still small enough, finds
/// a root below 2^20.
proof fn lemma_root_search(m: int, c: int, n: int)
    requires
        0 <= m,
        100 * pow4(m) <= pow4(c) * n,
        pow4(c) * n <= 0x1_0000_0000_0000_0000_0000,
        pow4(1048576) == 0x1_0000_0000_0000_0000_0000int,
    ensures
        exists|r: int| is_lag_root(r, c, n) && r < 1048576,
    decreases 1048576 - m,
{
    if m >= 1048576 {
        lemma_pow4_monotone(1048576, m);
    } else if pow4(c) * n < 100 * pow4(m + 1) {
        assert(is_lag_root(m, c, n));
    } else {
        lemma_root_search(m + 1, c, n);
    }
}

/// For `1 ≤ c ≤ 16` and any `n` that fits in `usize`, `lag_root(c, n)` is
/// the root: the largest `m` with `100 · m⁴ ≤ c⁴ · n`; it lies below 2^20.
pub proof fn lemma_lag_root_is_root(c: int, n: int)
    requires
        1 <= c <= 16,
        0 <= n <= usize::MAX,
    ensures
        is_lag_root(lag_root(c, n), c, n),
        lag_root(c, n) < 1048576,
{
    lemma_pow4_monotone(c, 16);
    assert(pow4(16) == 65536);
    assert(pow4(c) >= 0) by (nonlinear_arith)
        requires
            1 <= c,
    {
        assert(c * c >= 0);
        assert(c * c * c >= 0);
    }
    assert(pow4(c) * n <= 65536 * 0x1_0000_0000_0000_0000) by (nonlinear_arith)
        requires
            0 <= pow4(c) <= 65536,
            0 <= n <= 0xffff_ffff_ffff_ffff,
    ;
    assert(1048576int * 1048576int == 0x100_0000_0000int);
    assert(0x100_0000_0000int * 1048576int == 0x1000_0000_0000_0000int);
    assert(0x1000_0000_0000_0000int * 1048576int == 0x1_0000_0000_0000_0000_0000int);
    assert(pow4(0) == 0);
    assert(pow4(c) * n >= 0) by (nonlinear_arith)
        requires
            0 <= pow4(c),
            0 <= n,
    ;
    lemma_root_search(0, c, n);
    let r = choose|r: int| is_lag_root(r, c, n) && r < 1048576;
    lemma_lag_root_unique(r, lag_root(c, n), c, n);
}

} // verus!
