//! Prefix addressing of the extended witness: a prefix of `length` bits
//! selects the block of indices whose `length` most significant bits (out of
//! `log2(len)`) equal `prefix`.
use vstd::prelude::*;
use crate::arith::{exp2, exp2_usize, ilog2, lemma_exp2_add, lemma_exp2_fits, lemma_exp2_monotone, lemma_exp2_pos, log2};
use crate::round_config::Prefix;

verus! {

/// Number of low index bits below the prefix in a vector of length `len`.
pub open spec fn prefix_shift(len: nat, p: Prefix) -> nat {
    (log2(len) - p.length as nat) as nat
}

/// First index of the block that `p` selects in a vector of length `len`.
pub open spec fn prefix_start(len: nat, p: Prefix) -> nat {
    p.prefix as nat * exp2(prefix_shift(len, p))
}

/// Length of the block that `p` selects in a vector of length `len`.
pub open spec fn prefix_block_len(len: nat, p: Prefix) -> nat {
    exp2(prefix_shift(len, p))
}

/// The block that `p` selects lies inside a vector of length `len`.
pub open spec fn prefix_fits(len: nat, p: Prefix) -> bool {
    &&& len > 0
    &&& p.length as nat <= log2(len)
    &&& (p.prefix as nat + 1) * prefix_block_len(len, p) <= len
}

/// `new` is `old` with the block that `p` selects starting with (clones of)
/// the elements of `src`, and every other element unchanged.
pub open spec fn pasted<T: Clone>(old: Seq<T>, src: Seq<T>, p: Prefix, new: Seq<T>) -> bool {
    let start = prefix_start(old.len(), p);
    &&& new.len() == old.len()
    &&& forall|i: int| 0 <= i < src.len() ==> cloned(#[trigger] src[i], new[start + i])
    &&& forall|i: int|
        0 <= i < old.len() && !(start <= i < start + src.len()) ==> #[trigger] new[i] == old[i]
}

/// `out` holds (clones of) the block of `src` that `p` selects.
pub open spec fn sliced<T: Clone>(src: Seq<T>, p: Prefix, out: Seq<T>) -> bool {
    let start = prefix_start(src.len(), p);
    &&& out.len() == prefix_block_len(src.len(), p)
    &&& forall|i: int| 0 <= i < out.len() ==> cloned(src[start + i], #[trigger] out[i])
}

/// `2^log2(n) <= n` for positive `n`.
proof fn lemma_exp2_log2_le(n: nat)
    requires
        n > 0,
    ensures
        exp2(log2(n)) <= n,
    decreases n,
{
    if n > 1 {
        lemma_exp2_log2_le(n / 2);
        assert(exp2(log2(n)) == 2 * exp2(log2(n / 2)));
    }
}

/// The block lies below `2^log2(len)`, so its bounds fit in a machine word.
proof fn lemma_block_bounds(len: nat, p: Prefix)
    requires
        prefix_fits(len, p),
    ensures
        prefix_block_len(len, p) <= len,
        prefix_start(len, p) + prefix_block_len(len, p) <= len,
{
    lemma_exp2_log2_le(len);
    lemma_exp2_monotone(prefix_shift(len, p), log2(len));
    assert((p.prefix as nat + 1) * prefix_block_len(len, p) == prefix_start(len, p)
        + prefix_block_len(len, p)) by (nonlinear_arith);
}

/// The block of `src` that `prefix` selects.
pub fn slice_by_prefix<T: Clone>(src: &Vec<T>, prefix: &Prefix) -> (out: Vec<T>)
    requires
        prefix_fits(src@.len(), *prefix),
    ensures
        sliced(src@, *prefix, out@),
{
    proof {
        lemma_block_bounds(src@.len(), *prefix);
    }
    let shift = ilog2(src.len()) - prefix.length;
    let length = exp2_usize(shift);
    let start = prefix.prefix * length;
    let mut out: Vec<T> = Vec::new();
    let mut i: usize = 0;
    while i < length
        invariant
            start == prefix_start(src@.len(), *prefix),
            length == prefix_block_len(src@.len(), *prefix),
            start + length <= src.len(),
            i <= length,
            out@.len() == i,
            forall|j: int| 0 <= j < i ==> cloned(src@[start + j], #[trigger] out@[j]),
        decreases length - i,
    {
        out.push(src[start + i].clone());
        i = i + 1;
    }
    out
}

/// Writes (clones of) `src` at the start of the block of `dest` that
/// `prefix` selects; `src` must fill that block up to its next power of two.
pub fn paste_by_prefix<T: Clone>(dest: &mut Vec<T>, src: &Vec<T>, prefix: &Prefix)
    requires
        old(dest)@.len() > 0,
        prefix.length as nat <= log2(old(dest)@.len()),
        src@.len() <= prefix_block_len(old(dest)@.len(), *prefix),
        prefix_shift(old(dest)@.len(), *prefix) == 0 || prefix_block_len(old(dest)@.len(), *prefix)
            < 2 * src@.len(),
        prefix_start(old(dest)@.len(), *prefix) + src@.len() <= old(dest)@.len(),
    ensures
        pasted(old(dest)@, src@, *prefix, final(dest)@),
{
    proof {
        lemma_exp2_log2_le(dest@.len());
        lemma_exp2_monotone(prefix_shift(dest@.len(), *prefix), log2(dest@.len()));
    }
    let shift = ilog2(dest.len()) - prefix.length;
    let length = exp2_usize(shift);
    let start = prefix.prefix * length;
    let ghost old_dest = dest@;
    let mut i: usize = 0;
    while i < src.len()
        invariant
            start == prefix_start(old_dest.len(), *prefix),
            start + src.len() <= old_dest.len(),
            old_dest.len() == dest.len(),
            i <= src.len(),
            forall|j: int| 0 <= j < i ==> cloned(#[trigger] src@[j], dest@[start + j]),
            forall|j: int|
                0 <= j < old_dest.len() && !(start <= j < start + i) ==> #[trigger] dest@[j]
                    == old_dest[j],
        decreases src@.len() - i,
    {
        let e = src[i].clone();
        dest.set(start + i, e);
        i = i + 1;
    }
}

/// Pasting into a block and slicing that same block back gives, at every
/// position of the block that the paste wrote, a clone of what was written;
/// and a block disjoint from the pasted one reads as before the paste.
pub proof fn lemma_slice_after_paste<T: Clone>(
    old: Seq<T>,
    src: Seq<T>,
    p: Prefix,
    new: Seq<T>,
    out: Seq<T>,
    q: Prefix,
    out_q: Seq<T>,
)
    requires
        pasted(old, src, p, new),
        sliced(new, p, out),
        sliced(new, q, out_q),
        prefix_fits(old.len(), p),
        prefix_fits(old.len(), q),
        src.len() <= prefix_block_len(old.len(), p),
        prefix_start(old.len(), q) + prefix_block_len(old.len(), q) <= prefix_start(old.len(), p)
            || prefix_start(old.len(), p) + prefix_block_len(old.len(), p) <= prefix_start(
            old.len(),
            q,
        ),
    ensures
        forall|i: int|
            0 <= i < src.len() ==> cloned(src[i], #[trigger] new[prefix_start(old.len(), p) + i])
                && cloned(new[prefix_start(old.len(), p) + i], out[i]),
        forall|i: int|
            0 <= i < out_q.len() ==> cloned(old[prefix_start(old.len(), q) + i], #[trigger] out_q[i]),
{
    let sp = prefix_start(old.len(), p);
    let sq = prefix_start(old.len(), q);
    lemma_block_bounds(old.len(), p);
    lemma_block_bounds(old.len(), q);
    assert(new.len() == old.len());
    assert forall|i: int| 0 <= i < out_q.len() implies cloned(old[sq + i], #[trigger] out_q[i]) by {
        assert(!(sp <= sq + i < sp + src.len()));
        assert(new[sq + i] == old[sq + i]);
    }
    assert forall|i: int| 0 <= i < src.len() implies cloned(src[i], #[trigger] new[sp + i]) && cloned(
        new[sp + i],
        out[i],
    ) by {
        assert(cloned(src[i], new[sp + i]));
    }
}

/// In a structured round the witness goes to the prefix `(0, 1)` (the first
/// half of the extended witness) and the projected witness to the prefix
/// `(cols, log2(cols) + 1)`: the block right after the first half, `1/cols`
/// of its length. The two blocks are disjoint and both lie inside.
pub proof fn lemma_structured_prefixes_disjoint(len_log: nat, cols_log: nat)
    requires
        cols_log + 1 <= len_log,
        exp2(cols_log) <= usize::MAX,
    ensures
        ({
            let len = exp2(len_log);
            let main = Prefix { prefix: 0, length: 1 };
            let proj = Prefix { prefix: exp2(cols_log) as usize, length: (cols_log + 1) as usize };
            &&& prefix_fits(len, main)
            &&& prefix_fits(len, proj)
            &&& prefix_start(len, main) == 0
            &&& prefix_block_len(len, main) == len / 2
            &&& prefix_start(len, proj) == len / 2
            &&& prefix_block_len(len, proj) * exp2(cols_log) == len / 2
        }),
{
    lemma_exp2_fits(cols_log);
    let len = exp2(len_log);
    let main = Prefix { prefix: 0, length: 1 };
    let proj = Prefix { prefix: exp2(cols_log) as usize, length: (cols_log + 1) as usize };
    lemma_exp2_pos(len_log);
    lemma_exp2_pos(cols_log);
    lemma_log2_exp2(len_log);
    let h = (len_log - 1) as nat;
    assert(len == 2 * exp2(h));
    let s = (len_log - cols_log - 1) as nat;
    lemma_exp2_add(cols_log, s);
    assert(cols_log + s == h);
    assert(prefix_shift(len, main) == h);
    assert(prefix_shift(len, proj) == s);
    lemma_exp2_monotone(s, h);
    assert(prefix_start(len, proj) == exp2(h));
    assert((proj.prefix as nat + 1) * exp2(s) == exp2(h) + exp2(s)) by (nonlinear_arith)
        requires
            proj.prefix as nat * exp2(s) == exp2(h),
    ;
    assert(prefix_block_len(len, proj) * exp2(cols_log) == exp2(h)) by (nonlinear_arith)
        requires
            prefix_block_len(len, proj) == exp2(s),
            exp2(cols_log) * exp2(s) == exp2(h),
    ;
    assert(prefix_block_len(len, main) == exp2(h));
    assert(main.prefix == 0);
    assert((main.prefix as nat + 1) * exp2(h) == exp2(h)) by (nonlinear_arith)
        requires
            main.prefix == 0,
    ;
    assert(prefix_fits(len, main));
    assert(prefix_fits(len, proj));
    assert(prefix_block_len(len, main) == len / 2);
    assert(prefix_start(len, proj) == len / 2);
}

/// `log2(2^e) == e`.
proof fn lemma_log2_exp2(e: nat)
    ensures
        log2(exp2(e)) == e,
    decreases e,
{
    if e > 0 {
        lemma_log2_exp2((e - 1) as nat);
        lemma_exp2_pos((e - 1) as nat);
        assert(exp2(e) == 2 * exp2((e - 1) as nat));
        assert(exp2(e) / 2 == exp2((e - 1) as nat));
    }
}

} // verus!
