use salsaa::proof_size::{
    round_size_in_bits, size_in_bits, CommonSizes, RoundSizes, UNSTRUCTURED_PROJECTION_IMAGE_BITS,
};

fn common(k: usize) -> CommonSizes {
    CommonSizes { sumcheck_transcript: k, claims: 2 * k, ip_l2_claim: 3, ip_linf_claim: 0 }
}

#[test]
fn round_sizes() {
    let i = RoundSizes::Intermediate {
        common: common(10),
        claim_over_projection: 4,
        projection_commitment: 5,
        new_claims: 6,
        decomposed_split_commitment: 7,
    };
    assert_eq!(round_size_in_bits(&i), 10 + 20 + 3 + 4 + 5 + 6 + 7);
    let u = RoundSizes::IntermediateUnstructured {
        common: common(1),
        new_claims: 2,
        decomposed_split_commitment: 3,
        projection_image_batched: 4,
    };
    assert_eq!(round_size_in_bits(&u), 1 + 2 + 3 + 2 + 3 + 4 + UNSTRUCTURED_PROJECTION_IMAGE_BITS);
    assert_eq!(UNSTRUCTURED_PROJECTION_IMAGE_BITS, 256 * 64);
    let l = RoundSizes::Last {
        common: common(0),
        folded_witness: 100,
        projection_image_ct: 10,
        projection_image_batched: 1,
    };
    assert_eq!(round_size_in_bits(&l), 3 + 100 + 10 + 1);
    assert_eq!(size_in_bits(&vec![i, u, l]), 55 + 16399 + 114);
    assert_eq!(size_in_bits(&vec![]), 0);
}
