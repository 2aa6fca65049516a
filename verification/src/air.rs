//! The plain-value part of the AIR for a squaring trace: the gadget that
//! recomposes the balanced digit columns, the one-hot boundary tables, and
//! the layout of the committed witness `V = [W, shift(W)]`, whose shifted
//! digit columns take row `i + 1 (mod ℓ)` of the digit columns of `W`.
use vstd::prelude::*;
use vstd::arithmetic::div_mod::{lemma_mod_self_0, lemma_small_mod};
use crate::arith::{exp2, lemma_exp2_64};
use crate::config::MOD_Q;

verus! {

/// Number of balanced digit columns that carry one trace column.
pub const AIR_DIGIT_COLS: usize = 8;

/// Base-2 logarithm of the digit base.
pub const AIR_BASE_LOG: u64 = 8;

/// `2^e mod q`.
pub fn pow2_mod_q(e: u64) -> (r: u64)
    requires
        e < 64,
    ensures
        r == exp2(e as nat) % (MOD_Q as nat),
        r < MOD_Q,
{
    let mut p: u64 = 1;
    let mut i: u64 = 0;
    proof {
        lemma_exp2_64();
    }
    while i < e
        invariant
            i <= e,
            e < 64,
            p == exp2(i as nat),
            exp2(63) == 0x8000_0000_0000_0000,
        decreases e - i,
    {
        proof {
            crate::arith::lemma_exp2_monotone(i as nat, 62);
            assert(exp2(63) == 2 * exp2(62));
        }
        p = p * 2;
        i = i + 1;
    }
    p % MOD_Q
}

/// Entry `m` of the gadget vector `g = (1, b, b², …, b^{k-1})` with
/// `b = 2^AIR_BASE_LOG`, reduced mod `q`: the constant that multiplies digit
/// column `m` when the digits are recomposed.
pub fn air_gadget_scalar(m: usize) -> (r: u64)
    requires
        AIR_BASE_LOG * m < 64,
    ensures
        r == exp2((AIR_BASE_LOG * m) as nat) % (MOD_Q as nat),
{
    pow2_mod_q(AIR_BASE_LOG * (m as u64))
}

/// The gadget vector placed on one block of `V = [W, shift(W)]`, over `cols`
/// columns: `g` on columns `0..k` for the `W` block (or `k..2k` for the
/// `shift(W)` block), zero elsewhere. Entries are the constants of the ring
/// elements.
pub fn air_gadget_weights(cols: usize, shift_block: bool) -> (w: Vec<u64>)
    requires
        cols >= if shift_block {
            2 * AIR_DIGIT_COLS
        } else {
            AIR_DIGIT_COLS as int
        },
    ensures
        w@.len() == cols,
        forall|i: int|
            0 <= i < cols ==> #[trigger] w@[i] == (if shift_block && AIR_DIGIT_COLS <= i < 2
                * AIR_DIGIT_COLS {
                exp2((AIR_BASE_LOG * (i - AIR_DIGIT_COLS)) as nat) % (MOD_Q as nat)
            } else if !shift_block && 0 <= i < AIR_DIGIT_COLS {
                exp2((AIR_BASE_LOG * i) as nat) % (MOD_Q as nat)
            } else {
                0
            }),
{
    let k = AIR_DIGIT_COLS;
    let mut weights: Vec<u64> = Vec::new();
    let mut i: usize = 0;
    while i < cols
        invariant
            i <= cols,
            weights@.len() == i,
            forall|j: int| 0 <= j < i ==> #[trigger] weights@[j] == 0,
        decreases cols - i,
    {
        weights.push(0);
        i = i + 1;
    }
    let mut m: usize = 0;
    while m < k
        invariant
            k == AIR_DIGIT_COLS,
            m <= k,
            cols >= if shift_block {
                2 * AIR_DIGIT_COLS
            } else {
                AIR_DIGIT_COLS as int
            },
            weights@.len() == cols,
            forall|j: int|
                0 <= j < cols ==> #[trigger] weights@[j] == (if shift_block && AIR_DIGIT_COLS <= j
                    < AIR_DIGIT_COLS + m {
                    exp2((AIR_BASE_LOG * (j - AIR_DIGIT_COLS)) as nat) % (MOD_Q as nat)
                } else if !shift_block && 0 <= j < m {
                    exp2((AIR_BASE_LOG * j) as nat) % (MOD_Q as nat)
                } else {
                    0
                }),
        decreases k - m,
    {
        let idx = if shift_block {
            k + m
        } else {
            m
        };
        let g = air_gadget_scalar(m);
        weights.set(idx, g);
        m = m + 1;
    }
    weights
}

/// The boundary table `eq(·, 0⃗)` over `h` rows: one on the first row, zero
/// elsewhere.
pub fn air_e_first_table(h: usize) -> (t: Vec<u64>)
    requires
        h > 0,
    ensures
        t@.len() == h,
        forall|i: int| 0 <= i < h ==> #[trigger] t@[i] == if i == 0 {
            1u64
        } else {
            0u64
        },
{
    let mut t: Vec<u64> = Vec::new();
    let mut i: usize = 0;
    while i < h
        invariant
            i <= h,
            t@.len() == i,
            forall|j: int| 0 <= j < i ==> #[trigger] t@[j] == 0,
        decreases h - i,
    {
        t.push(0);
        i = i + 1;
    }
    t.set(0, 1);
    t
}

/// The boundary table `eq(·, 1⃗)` over `h` rows: one on the last row, zero
/// elsewhere.
pub fn air_e_last_table(h: usize) -> (t: Vec<u64>)
    requires
        h > 0,
    ensures
        t@.len() == h,
        forall|i: int| 0 <= i < h ==> #[trigger] t@[i] == if i == h - 1 {
            1u64
        } else {
            0u64
        },
{
    let mut t: Vec<u64> = Vec::new();
    let mut i: usize = 0;
    while i < h
        invariant
            i <= h,
            t@.len() == i,
            forall|j: int| 0 <= j < i ==> #[trigger] t@[j] == 0,
        decreases h - i,
    {
        t.push(0);
        i = i + 1;
    }
    t.set(h - 1, 1);
    t
}

/// The shifted digit columns are filled: for every digit `m < k` and row
/// `i < h`, entry `(k + m)·h + i` is (a clone of) entry `m·h + (i + 1 mod h)`;
/// the digit columns of `W` are unchanged.
pub open spec fn shift_columns_filled<T: Clone>(old: Seq<T>, new: Seq<T>, k: nat, h: nat) -> bool {
    &&& new.len() == old.len()
    &&& forall|j: int| 0 <= j < k * h ==> #[trigger] new[j] == old[j]
    &&& forall|m: int, i: int|
        0 <= m < k && 0 <= i < h ==> cloned(
            old[m * h + (i + 1) % (h as int)],
            #[trigger] new[(k + m) * h + i],
        )
}

/// The layout step of the AIR witness: `data` holds `2k` columns of height
/// `h` (`k = AIR_DIGIT_COLS`), the first `k` being the digit columns of the
/// trace `W`. Fills columns `k..2k` with `shift(W)`'s digits (row `i` takes
/// row `i + 1 mod h`; digit decomposition commutes with the shift) and returns
/// the digits of the input, the first row of each digit column.
pub fn air_witness_layout<T: Clone>(data: &mut Vec<T>, height: usize) -> (input_digits: Vec<T>)
    requires
        height > 0,
        old(data)@.len() == 2 * AIR_DIGIT_COLS * height,
    ensures
        shift_columns_filled(old(data)@, final(data)@, AIR_DIGIT_COLS as nat, height as nat),
        input_digits@.len() == AIR_DIGIT_COLS,
        forall|m: int|
            0 <= m < AIR_DIGIT_COLS ==> cloned(old(data)@[m * height], #[trigger] input_digits@[m]),
{
    let k = AIR_DIGIT_COLS;
    let ghost old_data = data@;
    let mut input_digits: Vec<T> = Vec::new();
    let mut m: usize = 0;
    while m < k
        invariant
            k == AIR_DIGIT_COLS,
            m <= k,
            height > 0,
            data@ == old_data,
            data.len() == 2 * k * height,
            old_data.len() == 2 * k * height,
            input_digits@.len() == m,
            forall|j: int| 0 <= j < m ==> cloned(old_data[j * height], #[trigger] input_digits@[j]),
        decreases k - m,
    {
        proof {
            assert(m * height < 2 * k * height) by (nonlinear_arith)
                requires
                    m < k,
                    height > 0,
            ;
        }
        input_digits.push(data[m * height].clone());
        m = m + 1;
    }
    let mut m: usize = 0;
    while m < k
        invariant
            k == AIR_DIGIT_COLS,
            m <= k,
            height > 0,
            old_data.len() == 2 * k * height,
            data.len() == old_data.len(),
            forall|j: int|
                0 <= j < old_data.len() && !(k * height <= j < (k + m) * height) ==> #[trigger] data@[j]
                    == old_data[j],
            forall|mm: int, i: int|
                0 <= mm < m && 0 <= i < height ==> cloned(
                    old_data[mm * height + (i + 1) % (height as int)],
                    #[trigger] data@[(k + mm) * height + i],
                ),
        decreases k - m,
    {
        let mut i: usize = 0;
        proof {
            assert((k + m + 1) * height <= 2 * k * height) by (nonlinear_arith)
                requires
                    m < k,
                    height > 0,
            ;
            assert((k + m) * height + height == (k + m + 1) * height) by (nonlinear_arith);
            assert(m * height + height <= k * height) by (nonlinear_arith)
                requires
                    m < k,
            ;
            assert(k * height <= 2 * k * height) by (nonlinear_arith);
            assert(k * height <= (k + m) * height) by (nonlinear_arith);
        }
        while i < height
            invariant
                k == AIR_DIGIT_COLS,
                m < k,
                i <= height,
                height > 0,
                old_data.len() == 2 * k * height,
                (k + m) * height + height <= 2 * k * height,
                m * height + height <= k * height,
                k * height <= (k + m) * height,
                k * height <= data.len(),
                data.len() == old_data.len(),
                forall|j: int|
                    0 <= j < old_data.len() && !(k * height <= j < (k + m) * height + i)
                        ==> #[trigger] data@[j] == old_data[j],
                forall|mm: int, ii: int|
                    0 <= mm < m && 0 <= ii < height ==> cloned(
                        old_data[mm * height + (ii + 1) % (height as int)],
                        #[trigger] data@[(k + mm) * height + ii],
                    ),
                forall|ii: int|
                    0 <= ii < i ==> cloned(
                        old_data[m * height + (ii + 1) % (height as int)],
                        #[trigger] data@[(k + m) * height + ii],
                    ),
            decreases height - i,
        {
            let src = if i + 1 < height {
                m * height + i + 1
            } else {
                m * height
            };
            proof {
                if i + 1 < height {
                    lemma_small_mod((i + 1) as nat, height as nat);
                } else {
                    lemma_mod_self_0(height as int);
                }
                assert(src < k * height);
                assert(data@[src as int] == old_data[src as int]);
            }
            let e = data[src].clone();
            data.set((k + m) * height + i, e);
            proof {
                assert forall|mm: int, ii: int|
                    0 <= mm < m && 0 <= ii < height implies cloned(
                    old_data[mm * height + (ii + 1) % (height as int)],
                    #[trigger] data@[(k + mm) * height + ii],
                ) by {
                    assert((k + mm) * height + ii < (k + m) * height) by (nonlinear_arith)
                        requires
                            mm < m,
                            ii < height,
                    ;
                }
            }
            i = i + 1;
        }
        m = m + 1;
        proof {
            assert((k + (m - 1)) * height + height == (k + m) * height) by (nonlinear_arith);
        }
    }
    proof {
        assert(k * height <= 2 * k * height) by (nonlinear_arith);
        assert forall|j: int| 0 <= j < k * height implies #[trigger] data@[j] == old_data[j] by {}
    }
    input_digits
}

} // verus!
