//! Integer helpers shared by the layout computations: powers of two and
//! base-2 logarithms.
use vstd::prelude::*;

verus! {

/// `2^e`.
pub open spec fn exp2(e: nat) -> nat
    decreases e,
{
    if e == 0 {
        1
    } else {
        2 * exp2((e - 1) as nat)
    }
}

/// `2^e` is positive.
pub proof fn lemma_exp2_pos(e: nat)
    ensures
        exp2(e) >= 1,
    decreases e,
{
    if e > 0 {
        lemma_exp2_pos((e - 1) as nat);
    }
}

/// `2^a · 2^b = 2^(a+b)`.
pub proof fn lemma_exp2_add(a: nat, b: nat)
    ensures
        exp2(a) * exp2(b) == exp2(a + b),
    decreases a,
{
    if a == 0 {
        assert(exp2(0) == 1);
        assert(a + b == b);
    } else {
        lemma_exp2_add((a - 1) as nat, b);
        assert(exp2(a + b) == 2 * exp2((a + b - 1) as nat));
        assert((a - 1) as nat + b == (a + b - 1) as nat);
        assert(exp2(a) * exp2(b) == 2 * (exp2((a - 1) as nat) * exp2(b))) by (nonlinear_arith)
            requires
                exp2(a) == 2 * exp2((a - 1) as nat),
        ;
    }
}

/// `2^e` grows with `e`.
pub proof fn lemma_exp2_monotone(a: nat, b: nat)
    requires
        a <= b,
    ensures
        exp2(a) <= exp2(b),
    decreases b,
{
    if a < b {
        lemma_exp2_monotone(a, (b - 1) as nat);
        lemma_exp2_pos((b - 1) as nat);
    }
}

/// The base-2 logarithm of `n`, rounded down.
pub open spec fn is_floor_log2(n: nat, r: nat) -> bool {
    exp2(r) <= n < exp2(r + 1)
}

/// The base-2 logarithm of `n`, rounded down (zero for `n <= 1`).
pub open spec fn log2(n: nat) -> nat
    decreases n,
{
    if n <= 1 {
        0
    } else {
        1 + log2(n / 2)
    }
}

/// `log2` is the exponent of the largest power of two not above `n`.
pub proof fn lemma_log2_is_floor(n: nat, r: nat)
    requires
        is_floor_log2(n, r),
    ensures
        log2(n) == r,
    decreases r,
{
    if r == 0 {
        assert(exp2(1) == 2 * exp2(0));
    } else {
        assert(exp2(r) == 2 * exp2((r - 1) as nat));
        assert(exp2(r + 1) == 2 * exp2(r));
        lemma_exp2_pos((r - 1) as nat);
        lemma_log2_is_floor(n / 2, (r - 1) as nat);
    }
}

/// `2^31`, `2^32`, `2^63` and `2^64`.
pub proof fn lemma_exp2_64()
    ensures
        exp2(2) == 4,
        exp2(8) == 256,
        exp2(16) == 65536,
        exp2(31) == 0x8000_0000,
        exp2(32) == 0x1_0000_0000,
        exp2(63) == 0x8000_0000_0000_0000,
        exp2(64) == 0x1_0000_0000_0000_0000,
{
    assert(exp2(0) == 1);
    assert(exp2(1) == 2);
    lemma_exp2_add(1, 1);
    assert(exp2(2) == 4);
    lemma_exp2_add(2, 2);
    assert(exp2(4) == 16);
    lemma_exp2_add(4, 4);
    assert(exp2(8) == 256);
    lemma_exp2_add(8, 8);
    assert(exp2(16) == 65536);
    lemma_exp2_add(16, 16);
    assert(exp2(32) == 0x1_0000_0000);
    lemma_exp2_add(32, 32);
    assert(exp2(64) == 0x1_0000_0000 * 0x1_0000_0000);
    assert(exp2(32) == 2 * exp2(31));
    assert(exp2(64) == 2 * exp2(63));
}

/// A power of two that fits in a machine word has an exponent below 64.
pub proof fn lemma_exp2_fits(e: nat)
    requires
        exp2(e) <= usize::MAX,
    ensures
        e < 64,
{
    if e >= 64 {
        lemma_exp2_64();
        lemma_exp2_monotone(64, e);
    }
}

/// The base-2 logarithm of a positive `n`, rounded down (as `usize::ilog2`).
pub fn ilog2(n: usize) -> (r: usize)
    requires
        n > 0,
    ensures
        is_floor_log2(n as nat, r as nat),
        r == log2(n as nat),
        r < 64,
{
    let mut r: usize = 0;
    let mut p: usize = 1;
    while p <= n / 2
        invariant
            p == exp2(r as nat),
            1 <= p <= n,
            r < 64,
        decreases n - p,
    {
        p = p * 2;
        r = r + 1;
        proof {
            lemma_exp2_fits(r as nat);
        }
    }
    proof {
        assert(exp2((r + 1) as nat) == 2 * exp2(r as nat));
        lemma_log2_is_floor(n as nat, r as nat);
    }
    r
}

/// `2^e` as a machine integer.
pub fn exp2_usize(e: usize) -> (p: usize)
    requires
        exp2(e as nat) <= usize::MAX,
    ensures
        p == exp2(e as nat),
{
    let mut p: usize = 1;
    let mut i: usize = 0;
    while i < e
        invariant
            i <= e,
            p == exp2(i as nat),
            exp2(e as nat) <= usize::MAX,
        decreases e - i,
    {
        proof {
            lemma_exp2_monotone((i + 1) as nat, e as nat);
        }
        p = p * 2;
        i = i + 1;
    }
    p
}

} // verus!

verus! {

/// Every power of two with an exponent below the word size fits in a word.
pub proof fn lemma_exp2_below_bits(k: nat)
    requires
        k < usize::BITS,
    ensures
        exp2(k) <= usize::MAX,
{
    lemma_exp2_64();
    lemma_exp2_monotone(k, (usize::BITS - 1) as nat);
}

} // verus!
