use salsaa::config::{DEGREE, MOD_Q, VDF_BITS, VDF_MATRIX_WIDTH};
use salsaa::df::{decompose_binary_into, vdf_gadget_entry, vdf_step_counts, vdf_step_offset};

/// Coefficients below q from a fixed linear congruential sequence.
fn sample_coeffs(seed: u64) -> Vec<u64> {
    let mut x = seed;
    (0..DEGREE)
        .map(|_| {
            x = x.wrapping_mul(6364136223846793005).wrapping_add(1442695040888963407);
            (x >> 11) % MOD_Q
        })
        .collect()
}

fn planes(coeffs: &Vec<u64>) -> Vec<Vec<u64>> {
    let mut bits: Vec<Vec<u64>> = vec![vec![]; 64];
    decompose_binary_into(coeffs, &mut bits);
    bits
}

#[test]
fn test_decompose_binary_roundtrip() {
    let elem = sample_coeffs(1);
    let bits = planes(&elem);
    assert_eq!(bits.len(), 64);
    let mut recomposed = vec![0u64; DEGREE];
    for (b, bit_elem) in bits.iter().enumerate() {
        let shift = 1u64 << b;
        for j in 0..DEGREE {
            recomposed[j] = (recomposed[j] + bit_elem[j] * shift) % MOD_Q;
        }
    }
    assert_eq!(recomposed, elem, "Binary decomposition roundtrip failed");
}

#[test]
fn test_decompose_binary_bits_are_binary() {
    let elem = sample_coeffs(2);
    let bits = planes(&elem);
    for (b, bit_elem) in bits.iter().enumerate() {
        for j in 0..DEGREE {
            assert!(
                bit_elem[j] == 0 || bit_elem[j] == 1,
                "Bit plane {} coeff {} is {}, expected 0 or 1",
                b,
                j,
                bit_elem[j]
            );
        }
    }
}

#[test]
fn test_decompose_binary_high_bits_zero() {
    // MOD_Q < 2^51, so bits 51..63 should be all zero
    let elem = sample_coeffs(3);
    let bits = planes(&elem);
    for b in 51..64 {
        for j in 0..DEGREE {
            assert_eq!(
                bits[b][j], 0,
                "Bit plane {} coeff {} should be 0 (above modulus bit-width)",
                b, j
            );
        }
    }
}

#[test]
fn decompose_exact_values_and_spare_targets() {
    let coeffs = vec![5u64, u64::MAX, 0];
    let mut target: Vec<Vec<u64>> = vec![vec![7]; 66];
    decompose_binary_into(&coeffs, &mut target);
    assert_eq!(target.len(), 66);
    assert_eq!(target[0], vec![1, 1, 0]);
    assert_eq!(target[1], vec![0, 1, 0]);
    assert_eq!(target[2], vec![1, 1, 0]);
    assert_eq!(target[63], vec![0, 1, 0]);
    assert_eq!(target[64], vec![7]);
    assert_eq!(target[65], vec![7]);
}

#[test]
fn gadget_entries() {
    assert_eq!(vdf_gadget_entry(0), (0, 1));
    assert_eq!(vdf_gadget_entry(3), (0, 8));
    assert_eq!(vdf_gadget_entry(64), (1, 1));
    assert_eq!(vdf_gadget_entry(255), (3, (1u64 << 63) % MOD_Q));
    assert_eq!(VDF_BITS * 4, VDF_MATRIX_WIDTH);
}

#[test]
fn step_layout_covers_both_columns() {
    let dim = 1 << 12;
    let (steps_per_col, total) = vdf_step_counts(dim);
    assert_eq!(steps_per_col, 16);
    assert_eq!(total, 32);
    let mut seen = vec![false; 2 * dim];
    for step in 0..total {
        let off = vdf_step_offset(step, steps_per_col, dim);
        for x in off..off + VDF_MATRIX_WIDTH {
            assert!(!seen[x]);
            seen[x] = true;
        }
    }
    assert!(seen.iter().all(|x| *x));
    assert_eq!(vdf_step_offset(15, steps_per_col, dim), 15 * 256);
    assert_eq!(vdf_step_offset(16, steps_per_col, dim), dim);
}
