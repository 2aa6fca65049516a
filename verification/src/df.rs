//! The plain-value part of the delay function: the binary decomposition of
//! coefficients into bit planes (`G^{-1}` for the gadget
//! `G = I_HEIGHT ⊗ (1, 2, …, 2^{BITS-1})`), the entries of `G`, and the
//! placement of each step's decomposed witness in the two-column trace.
use vstd::prelude::*;
use vstd::arithmetic::div_mod::{lemma_basic_div, lemma_div_denominator, lemma_fundamental_div_mod};
use crate::air::pow2_mod_q;
use crate::arith::{exp2, lemma_exp2_64, lemma_exp2_add, lemma_exp2_monotone, lemma_exp2_pos};
use crate::config::{MOD_Q, VDF_BITS, VDF_MATRIX_HEIGHT, VDF_MATRIX_WIDTH};

verus! {

/// Bit `b` of `v`.
pub open spec fn bit(v: nat, b: nat) -> nat {
    (v / exp2(b)) % 2
}

/// `Σ_{b < n} bit(v, b)·2^b`: the value of the `n` lowest bits of `v`.
pub open spec fn recompose_bits(v: nat, n: nat) -> nat
    decreases n,
{
    if n == 0 {
        0
    } else {
        recompose_bits(v, (n - 1) as nat) + bit(v, (n - 1) as nat) * exp2((n - 1) as nat)
    }
}

/// The bit planes of `coeffs`: plane `b` holds bit `b` of every coefficient.
pub open spec fn is_bit_plane(coeffs: Seq<u64>, b: nat, plane: Seq<u64>) -> bool {
    &&& plane.len() == coeffs.len()
    &&& forall|j: int| 0 <= j < coeffs.len() ==> #[trigger] plane[j] == bit(coeffs[j] as nat, b)
}

/// Writes into `target[b]`, for every `b < VDF_BITS`, the bit plane `b` of
/// `coeffs`; entries of `target` from `VDF_BITS` on are left alone.
pub fn decompose_binary_into(coeffs: &Vec<u64>, target: &mut Vec<Vec<u64>>)
    requires
        old(target)@.len() >= VDF_BITS,
    ensures
        final(target)@.len() == old(target)@.len(),
        forall|b: int| 0 <= b < VDF_BITS ==> is_bit_plane(coeffs@, b as nat, #[trigger] final(target)@[b]@),
        forall|b: int| VDF_BITS <= b < old(target)@.len() ==> #[trigger] final(target)@[b] == old(target)@[b],
{
    let n = coeffs.len();
    let mut work: Vec<u64> = Vec::new();
    let mut j: usize = 0;
    while j < n
        invariant
            n == coeffs@.len(),
            j <= n,
            work@.len() == j,
            forall|i: int| 0 <= i < j ==> #[trigger] work@[i] == coeffs@[i],
        decreases n - j,
    {
        work.push(coeffs[j]);
        j = j + 1;
    }
    proof {
        assert forall|i: int| 0 <= i < n implies #[trigger] work@[i] == coeffs@[i] as nat / exp2(0) by {
            assert(exp2(0) == 1);
        }
    }
    let ghost old_target = target@;
    let mut b: usize = 0;
    while b < VDF_BITS
        invariant
            n == coeffs@.len(),
            b <= VDF_BITS,
            work@.len() == n,
            forall|i: int| 0 <= i < n ==> #[trigger] work@[i] == coeffs@[i] as nat / exp2(b as nat),
            target@.len() == old_target.len(),
            old_target.len() >= VDF_BITS,
            forall|bb: int| 0 <= bb < b ==> is_bit_plane(coeffs@, bb as nat, #[trigger] target@[bb]@),
            forall|bb: int| b <= bb < old_target.len() ==> #[trigger] target@[bb] == old_target[bb],
        decreases VDF_BITS - b,
    {
        let mut plane: Vec<u64> = Vec::new();
        let mut j: usize = 0;
        while j < n
            invariant
                n == coeffs@.len(),
                j <= n,
                b < VDF_BITS,
                plane@.len() == j,
                work@.len() == n,
                forall|i: int| 0 <= i < j ==> #[trigger] plane@[i] == bit(coeffs@[i] as nat, b as nat),
                forall|i: int|
                    0 <= i < j ==> #[trigger] work@[i] == coeffs@[i] as nat / exp2((b + 1) as nat),
                forall|i: int|
                    j <= i < n ==> #[trigger] work@[i] == coeffs@[i] as nat / exp2(b as nat),
            decreases n - j,
        {
            let w = work[j];
            plane.push(w % 2);
            work.set(j, w / 2);
            proof {
                lemma_exp2_pos(b as nat);
                lemma_div_denominator(coeffs@[j as int] as int, exp2(b as nat) as int, 2);
                assert(exp2((b + 1) as nat) == 2 * exp2(b as nat));
                assert(exp2(b as nat) * 2 == exp2((b + 1) as nat));
            }
            j = j + 1;
        }
        target.set(b, plane);
        b = b + 1;
    }
}

/// Recomposing the `n` lowest bits leaves the part of `v` above them:
/// `recompose_bits(v, n) + (v / 2^n)·2^n == v`.
pub proof fn lemma_recompose_bits(v: nat, n: nat)
    ensures
        recompose_bits(v, n) + (v / exp2(n)) * exp2(n) == v,
    decreases n,
{
    if n == 0 {
        assert(exp2(0) == 1);
    } else {
        let m = (n - 1) as nat;
        lemma_recompose_bits(v, m);
        lemma_exp2_pos(m);
        let x = v / exp2(m);
        lemma_div_denominator(v as int, exp2(m) as int, 2);
        assert(exp2(n) == 2 * exp2(m));
        assert(v / exp2(n) == x / 2);
        lemma_fundamental_div_mod(x as int, 2);
        assert(x == 2 * (x / 2) + x % 2);
        assert(x * exp2(m) == (x / 2) * exp2(n) + (x % 2) * exp2(m)) by (nonlinear_arith)
            requires
                x == 2 * (x / 2) + x % 2,
                exp2(n) == 2 * exp2(m),
        ;
    }
}

/// Every coefficient is the sum of its bit planes weighted by powers of two:
/// the planes that [`decompose_binary_into`] writes recompose to `coeffs`
/// (`G · G^{-1}(y) = y`), and every plane entry is 0 or 1.
pub proof fn lemma_bit_planes_recompose(v: u64)
    ensures
        recompose_bits(v as nat, VDF_BITS as nat) == v,
        forall|b: nat| #[trigger] bit(v as nat, b) <= 1,
{
    lemma_recompose_bits(v as nat, 64);
    lemma_exp2_64();
    assert(v as nat / exp2(64) == 0);
}

/// A coefficient below `q < 2^50` has no bit from 50 on: those planes are
/// zero.
pub proof fn lemma_high_bit_planes_zero(v: u64, b: nat)
    requires
        v < MOD_Q,
        50 <= b,
    ensures
        bit(v as nat, b) == 0,
{
    lemma_exp2_64();
    lemma_exp2_monotone(50, b);
    lemma_exp2_add(32, 16);
    lemma_exp2_add(48, 2);
    assert(exp2(50) == 0x4_0000_0000_0000);
    lemma_basic_div(v as int, exp2(b) as int);
}

/// Column `j` of the gadget matrix `G = I_HEIGHT ⊗ (1, 2, …, 2^{BITS-1})`:
/// its only non-zero entry is in row `j / BITS`, where it is
/// `2^{j mod BITS} mod q`.
pub fn vdf_gadget_entry(j: usize) -> (e: (usize, u64))
    requires
        j < VDF_MATRIX_WIDTH,
    ensures
        e.0 == j / VDF_BITS,
        e.0 < VDF_MATRIX_HEIGHT,
        e.1 == exp2((j % VDF_BITS) as nat) % (MOD_Q as nat),
{
    let block = j / VDF_BITS;
    let b = j % VDF_BITS;
    (block, pow2_mod_q(b as u64))
}

/// Number of delay-function steps that fit in one trace column of height
/// `dim`, and the total number of steps over the two columns.
pub fn vdf_step_counts(dim: usize) -> (c: (usize, usize))
    ensures
        c.0 == dim / VDF_MATRIX_WIDTH,
        c.1 == 2 * (dim / VDF_MATRIX_WIDTH),
{
    let steps_per_col = dim / VDF_MATRIX_WIDTH;
    (steps_per_col, steps_per_col * 2)
}

/// Where the decomposed witness of step `step` starts in the trace, which is
/// stored column after column (`data[col * dim + row]`): the first
/// `steps_per_col` steps fill column 0, the rest column 1, each step taking
/// `VDF_MATRIX_WIDTH` consecutive rows (`VDF_BITS` per component).
pub open spec fn step_offset(step: nat, steps_per_col: nat, dim: nat) -> nat {
    (step / steps_per_col) * dim + (step % steps_per_col) * VDF_MATRIX_WIDTH as nat
}

/// The offset of step `step` in the trace (see [`step_offset`]).
pub fn vdf_step_offset(step: usize, steps_per_col: usize, dim: usize) -> (off: usize)
    requires
        0 < steps_per_col,
        step < 2 * steps_per_col,
        steps_per_col * VDF_MATRIX_WIDTH <= dim,
        2 * dim <= usize::MAX,
    ensures
        off == step_offset(step as nat, steps_per_col as nat, dim as nat),
        off + VDF_MATRIX_WIDTH <= 2 * dim,
{
    let col = step / steps_per_col;
    let row_in_col = step % steps_per_col;
    proof {
        assert(col < 2) by (nonlinear_arith)
            requires
                col == step / steps_per_col,
                step < 2 * steps_per_col,
                steps_per_col > 0,
        ;
        assert(row_in_col * VDF_MATRIX_WIDTH + VDF_MATRIX_WIDTH <= dim) by (nonlinear_arith)
            requires
                row_in_col < steps_per_col,
                steps_per_col * VDF_MATRIX_WIDTH <= dim,
        ;
        assert(col * dim <= dim) by (nonlinear_arith)
            requires
                col < 2,
        ;
    }
    let base_row = row_in_col * VDF_MATRIX_WIDTH;
    col * dim + base_row
}

/// Distinct steps write disjoint blocks of the trace, all inside its two
/// columns: no step overwrites another step's decomposed witness.
pub proof fn lemma_steps_disjoint(s1: nat, s2: nat, steps_per_col: nat, dim: nat)
    requires
        0 < steps_per_col,
        s1 < 2 * steps_per_col,
        s2 < 2 * steps_per_col,
        s1 != s2,
        steps_per_col * VDF_MATRIX_WIDTH <= dim,
    ensures
        step_offset(s1, steps_per_col, dim) + VDF_MATRIX_WIDTH <= 2 * dim,
        step_offset(s1, steps_per_col, dim) + VDF_MATRIX_WIDTH <= step_offset(s2, steps_per_col, dim)
            || step_offset(s2, steps_per_col, dim) + VDF_MATRIX_WIDTH <= step_offset(
            s1,
            steps_per_col,
            dim,
        ),
{
    let w = VDF_MATRIX_WIDTH as nat;
    let c1 = s1 / steps_per_col;
    let c2 = s2 / steps_per_col;
    let r1 = s1 % steps_per_col;
    let r2 = s2 % steps_per_col;
    lemma_fundamental_div_mod(s1 as int, steps_per_col as int);
    lemma_fundamental_div_mod(s2 as int, steps_per_col as int);
    assert(c1 < 2 && c2 < 2) by (nonlinear_arith)
        requires
            c1 == s1 / steps_per_col,
            c2 == s2 / steps_per_col,
            s1 < 2 * steps_per_col,
            s2 < 2 * steps_per_col,
            steps_per_col > 0,
    ;
    assert(r1 * w + w <= dim && r2 * w + w <= dim) by (nonlinear_arith)
        requires
            r1 < steps_per_col,
            r2 < steps_per_col,
            steps_per_col * w <= dim,
    ;
    let o1 = step_offset(s1, steps_per_col, dim);
    let o2 = step_offset(s2, steps_per_col, dim);
    assert(o1 == c1 * dim + r1 * w);
    assert(o2 == c2 * dim + r2 * w);
    assert(c1 * dim == (if c1 == 0 { 0 } else { dim })) by (nonlinear_arith)
        requires
            c1 < 2,
    ;
    assert(c2 * dim == (if c2 == 0 { 0 } else { dim })) by (nonlinear_arith)
        requires
            c2 < 2,
    ;
    if c1 == c2 {
        assert(r1 != r2);
        if r1 < r2 {
            assert(r1 * w + w <= r2 * w) by (nonlinear_arith)
                requires
                    r1 < r2,
            ;
        } else {
            assert(r2 * w + w <= r1 * w) by (nonlinear_arith)
                requires
                    r2 < r1,
            ;
        }
    }
}

} // verus!
