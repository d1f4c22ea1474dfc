use vstd::prelude::*;

verus! {

/// The largest `r <= k` with `r * r <= n`.
pub open spec fn floor_sqrt_below(n: nat, k: nat) -> nat
    decreases k,
{
    if k * k <= n || k == 0 {
        k
    } else {
        floor_sqrt_below(n, (k - 1) as nat)
    }
}

/// The integer square root of `n`, rounded down.
pub open spec fn floor_sqrt(n: nat) -> nat {
    floor_sqrt_below(n, n)
}

/// `r` is the integer square root of `n` exactly when `r * r <= n < (r + 1) * (r + 1)`.
pub proof fn lemma_floor_sqrt_unique(n: nat, r: nat)
    requires
        r * r <= n < (r + 1) * (r + 1),
    ensures
        floor_sqrt(n) == r,
{
    assert(r <= n) by (nonlinear_arith)
        requires
            r * r <= n,
    ;
    lemma_below(n, n, r);
}

/// The integer square root squared does not exceed `n`, and its successor squared does.
pub proof fn lemma_floor_sqrt_bounds(n: nat)
    ensures
        floor_sqrt(n) * floor_sqrt(n) <= n < (floor_sqrt(n) + 1) * (floor_sqrt(n) + 1),
{
    assert(n < (n + 1) * (n + 1)) by (nonlinear_arith);
    lemma_below_bounds(n, n);
}

proof fn lemma_below_bounds(n: nat, k: nat)
    requires
        n < (k + 1) * (k + 1),
    ensures
        floor_sqrt_below(n, k) * floor_sqrt_below(n, k) <= n,
        n < (floor_sqrt_below(n, k) + 1) * (floor_sqrt_below(n, k) + 1),
    decreases k,
{
    if !(k * k <= n || k == 0) {
        lemma_below_bounds(n, (k - 1) as nat);
    }
}

proof fn lemma_below(n: nat, k: nat, r: nat)
    requires
        r * r <= n < (r + 1) * (r + 1),
        r <= k,
    ensures
        floor_sqrt_below(n, k) == r,
    decreases k,
{
    if k > r {
        assert(k * k >= (r + 1) * (r + 1)) by (nonlinear_arith)
            requires
                k >= r + 1,
        ;
        lemma_below(n, (k - 1) as nat, r);
    }
}

/// Integer square root, rounded down, by bisection.
pub(crate) fn isqrt(n: u64) -> (r: u64)
    requires
        n <= 20_000_000_000_000,
    ensures
        r as nat == floor_sqrt(n as nat),
        r * r <= n < (r + 1) * (r + 1),
        r <= 4_500_000,
{
    let mut lo: u64 = 0;
    let mut hi: u64 = 4_500_001;
    assert(n < hi * hi) by (nonlinear_arith)
        requires
            n <= 20_000_000_000_000,
            hi == 4_500_001,
    ;
    while lo + 1 < hi
        invariant
            lo < hi <= 4_500_001,
            lo * lo <= n < hi * hi,
        decreases hi - lo,
    {
        let mid: u64 = lo + (hi - lo) / 2;
        assert(mid * mid <= 4_500_001 * 4_500_001) by (nonlinear_arith)
            requires
                mid <= 4_500_001,
        ;
        if mid * mid <= n {
            lo = mid;
        } else {
            hi = mid;
        }
    }
    proof {
        lemma_floor_sqrt_unique(n as nat, lo as nat);
    }
    lo
}

} // verus!
