//! The size accounting of a proof: what each round contributes, in bits,
//! from the sizes of its parts.
use vstd::prelude::*;

verus! {

/// Size in bits that is charged for the projection image of an unstructured
/// round (an over-estimate: 256 elements of 64 bits).
pub const UNSTRUCTURED_PROJECTION_IMAGE_BITS: usize = 256 * 64;

/// Sizes in bits of the parts that every round of a proof has.
#[derive(Clone, Copy, Debug, PartialEq, Eq, Structural)]
pub struct CommonSizes {
    /// the sumcheck transcript (the used coefficients of its polynomials)
    pub sumcheck_transcript: usize,
    /// the claims matrix
    pub claims: usize,
    /// the l2 inner-product claim (zero if absent)
    pub ip_l2_claim: usize,
    /// the l-infinity inner-product claim (zero if absent)
    pub ip_linf_claim: usize,
}

/// Sizes in bits of the parts of one round of a proof.
#[derive(Clone, Copy, Debug, PartialEq, Eq, Structural)]
pub enum RoundSizes {
    Intermediate {
        common: CommonSizes,
        claim_over_projection: usize,
        projection_commitment: usize,
        new_claims: usize,
        decomposed_split_commitment: usize,
    },
    IntermediateUnstructured {
        common: CommonSizes,
        new_claims: usize,
        decomposed_split_commitment: usize,
        projection_image_batched: usize,
    },
    Last {
        common: CommonSizes,
        folded_witness: usize,
        projection_image_ct: usize,
        projection_image_batched: usize,
    },
}

/// The bits that the common parts of a round count for.
pub open spec fn common_bits(c: CommonSizes) -> nat {
    c.sumcheck_transcript as nat + c.claims as nat + c.ip_l2_claim as nat + c.ip_linf_claim as nat
}

/// The bits that a round counts for: its common parts, the claim over the
/// projection and the projection commitment (structured rounds only), and the
/// parts of its kind; an unstructured round is charged
/// [`UNSTRUCTURED_PROJECTION_IMAGE_BITS`] for its projection image.
pub open spec fn round_bits(r: RoundSizes) -> nat {
    match r {
        RoundSizes::Intermediate {
            common,
            claim_over_projection,
            projection_commitment,
            new_claims,
            decomposed_split_commitment,
        } => common_bits(common) + claim_over_projection as nat + projection_commitment as nat
            + new_claims as nat + decomposed_split_commitment as nat,
        RoundSizes::IntermediateUnstructured {
            common,
            new_claims,
            decomposed_split_commitment,
            projection_image_batched,
        } => common_bits(common) + new_claims as nat + decomposed_split_commitment as nat
            + UNSTRUCTURED_PROJECTION_IMAGE_BITS as nat + projection_image_batched as nat,
        RoundSizes::Last {
            common,
            folded_witness,
            projection_image_ct,
            projection_image_batched,
        } => common_bits(common) + folded_witness as nat + projection_image_ct as nat
            + projection_image_batched as nat,
    }
}

/// The bits of all the rounds from `i` on.
pub open spec fn proof_bits(rounds: Seq<RoundSizes>, i: int) -> nat
    decreases rounds.len() - i,
{
    if i < 0 || i >= rounds.len() {
        0
    } else {
        round_bits(rounds[i]) + proof_bits(rounds, i + 1)
    }
}

/// The bits that one round counts for (see [`round_bits`]).
pub fn round_size_in_bits(r: &RoundSizes) -> (bits: usize)
    requires
        round_bits(*r) <= usize::MAX,
    ensures
        bits == round_bits(*r),
{
    match r {
        RoundSizes::Intermediate {
            common,
            claim_over_projection,
            projection_commitment,
            new_claims,
            decomposed_split_commitment,
        } => common.sumcheck_transcript + common.claims + *claim_over_projection
            + *projection_commitment + common.ip_l2_claim + common.ip_linf_claim + *new_claims
            + *decomposed_split_commitment,
        RoundSizes::IntermediateUnstructured {
            common,
            new_claims,
            decomposed_split_commitment,
            projection_image_batched,
        } => common.sumcheck_transcript + common.claims + common.ip_l2_claim + common.ip_linf_claim
            + *new_claims + *decomposed_split_commitment + UNSTRUCTURED_PROJECTION_IMAGE_BITS
            + *projection_image_batched,
        RoundSizes::Last {
            common,
            folded_witness,
            projection_image_ct,
            projection_image_batched,
        } => common.sumcheck_transcript + common.claims + common.ip_l2_claim + common.ip_linf_claim
            + *folded_witness + *projection_image_batched + *projection_image_ct,
    }
}

/// The size in bits of a proof whose rounds, first to last, have the part
/// sizes `rounds`: the sum of what each round counts for.
pub fn size_in_bits(rounds: &Vec<RoundSizes>) -> (bits: usize)
    requires
        proof_bits(rounds@, 0) <= usize::MAX,
    ensures
        bits == proof_bits(rounds@, 0),
{
    let n = rounds.len();
    let mut i: usize = n;
    let mut total: usize = 0;
    while i > 0
        invariant
            n == rounds@.len(),
            i <= n,
            total == proof_bits(rounds@, i as int),
            proof_bits(rounds@, 0) <= usize::MAX,
        decreases i,
    {
        i = i - 1;
        proof {
            assert(proof_bits(rounds@, i as int) == round_bits(rounds@[i as int]) + proof_bits(
                rounds@,
                (i + 1) as int,
            ));
            lemma_proof_bits_prefix(rounds@, i as int);
        }
        let r = round_size_in_bits(&rounds[i]);
        total = r + total;
    }
    total
}

/// A round counts for the sum of the sizes of all its parts: the sumcheck
/// transcript, the claims, the l2 and l-infinity claims, and the parts of its
/// kind (an unstructured round's projection image is charged
/// `256 * 64` bits).
pub proof fn lemma_round_bits_sum(r: RoundSizes)
    ensures
        round_bits(r) == match r {
            RoundSizes::Intermediate {
                common,
                claim_over_projection,
                projection_commitment,
                new_claims,
                decomposed_split_commitment,
            } => common.sumcheck_transcript + common.claims + common.ip_l2_claim
                + common.ip_linf_claim + claim_over_projection + projection_commitment + new_claims
                + decomposed_split_commitment,
            RoundSizes::IntermediateUnstructured {
                common,
                new_claims,
                decomposed_split_commitment,
                projection_image_batched,
            } => common.sumcheck_transcript + common.claims + common.ip_l2_claim
                + common.ip_linf_claim + new_claims + decomposed_split_commitment + 256 * 64
                + projection_image_batched,
            RoundSizes::Last {
                common,
                folded_witness,
                projection_image_ct,
                projection_image_batched,
            } => common.sumcheck_transcript + common.claims + common.ip_l2_claim
                + common.ip_linf_claim + folded_witness + projection_image_ct
                + projection_image_batched,
        },
{
}

/// Growing one part of a round by `k` bits (here the l-infinity claim, which
/// every kind of round may carry) grows what the round counts for by exactly
/// `k`, whatever the kind.
pub proof fn lemma_round_bits_linf(r: RoundSizes, s: RoundSizes, k: nat)
    requires
        match (r, s) {
            (
                RoundSizes::Intermediate { common: c1, claim_over_projection: a1, projection_commitment: b1, new_claims: n1, decomposed_split_commitment: d1 },
                RoundSizes::Intermediate { common: c2, claim_over_projection: a2, projection_commitment: b2, new_claims: n2, decomposed_split_commitment: d2 },
            ) => a1 == a2 && b1 == b2 && n1 == n2 && d1 == d2 && c1.sumcheck_transcript
                == c2.sumcheck_transcript && c1.claims == c2.claims && c1.ip_l2_claim
                == c2.ip_l2_claim && c2.ip_linf_claim == c1.ip_linf_claim + k,
            (
                RoundSizes::IntermediateUnstructured { common: c1, new_claims: n1, decomposed_split_commitment: d1, projection_image_batched: p1 },
                RoundSizes::IntermediateUnstructured { common: c2, new_claims: n2, decomposed_split_commitment: d2, projection_image_batched: p2 },
            ) => n1 == n2 && d1 == d2 && p1 == p2 && c1.sumcheck_transcript
                == c2.sumcheck_transcript && c1.claims == c2.claims && c1.ip_l2_claim
                == c2.ip_l2_claim && c2.ip_linf_claim == c1.ip_linf_claim + k,
            (
                RoundSizes::Last { common: c1, folded_witness: f1, projection_image_ct: t1, projection_image_batched: p1 },
                RoundSizes::Last { common: c2, folded_witness: f2, projection_image_ct: t2, projection_image_batched: p2 },
            ) => f1 == f2 && t1 == t2 && p1 == p2 && c1.sumcheck_transcript
                == c2.sumcheck_transcript && c1.claims == c2.claims && c1.ip_l2_claim
                == c2.ip_l2_claim && c2.ip_linf_claim == c1.ip_linf_claim + k,
            _ => false,
        },
    ensures
        round_bits(s) == round_bits(r) + k,
{
    lemma_round_bits_sum(r);
    lemma_round_bits_sum(s);
}

/// A proof counts for the sum of what its rounds count for: appending a round
/// adds exactly its bits.
pub proof fn lemma_proof_bits_push(rounds: Seq<RoundSizes>, r: RoundSizes)
    ensures
        proof_bits(rounds.push(r), 0) == proof_bits(rounds, 0) + round_bits(r),
        proof_bits(Seq::<RoundSizes>::empty(), 0) == 0,
{
    lemma_proof_bits_push_from(rounds, r, 0);
}

proof fn lemma_proof_bits_push_from(rounds: Seq<RoundSizes>, r: RoundSizes, i: int)
    requires
        0 <= i <= rounds.len(),
    ensures
        proof_bits(rounds.push(r), i) == proof_bits(rounds, i) + round_bits(r),
    decreases rounds.len() - i,
{
    if i < rounds.len() {
        lemma_proof_bits_push_from(rounds, r, i + 1);
        assert(rounds.push(r)[i] == rounds[i]);
    } else {
        assert(rounds.push(r)[i] == r);
        assert(proof_bits(rounds.push(r), i + 1) == 0);
    }
}

/// The bits from `i` on are at most the bits of the whole proof.
proof fn lemma_proof_bits_prefix(rounds: Seq<RoundSizes>, i: int)
    requires
        0 <= i <= rounds.len(),
    ensures
        proof_bits(rounds, i) <= proof_bits(rounds, 0),
    decreases i,
{
    if i > 0 {
        lemma_proof_bits_prefix(rounds, i - 1);
    }
}

} // verus!
