use salsaa::air::{
    air_e_first_table, air_e_last_table, air_gadget_scalar, air_gadget_weights,
    air_witness_layout, pow2_mod_q, AIR_DIGIT_COLS,
};
use salsaa::config::MOD_Q;

#[test]
fn gadget_scalars() {
    assert_eq!(air_gadget_scalar(0), 1);
    assert_eq!(air_gadget_scalar(1), 256);
    assert_eq!(air_gadget_scalar(6), 1u64 << 48);
    // 2^56 exceeds q and is reduced
    assert_eq!(air_gadget_scalar(7), (1u64 << 56) % MOD_Q);
    assert_eq!(air_gadget_scalar(7), 72057594037927936 % 1125899906839937);
    assert_eq!(pow2_mod_q(63), (1u64 << 63) % MOD_Q);
}

#[test]
fn gadget_weights_blocks() {
    let w = air_gadget_weights(16, false);
    assert_eq!(w.len(), 16);
    for m in 0..8 {
        assert_eq!(w[m], air_gadget_scalar(m));
        assert_eq!(w[8 + m], 0);
    }
    let s = air_gadget_weights(16, true);
    for m in 0..8 {
        assert_eq!(s[m], 0);
        assert_eq!(s[8 + m], air_gadget_scalar(m));
    }
    let wide = air_gadget_weights(20, true);
    assert_eq!(&wide[16..], &[0, 0, 0, 0]);
}

#[test]
fn boundary_tables() {
    assert_eq!(air_e_first_table(4), vec![1, 0, 0, 0]);
    assert_eq!(air_e_last_table(4), vec![0, 0, 0, 1]);
    assert_eq!(air_e_first_table(1), vec![1]);
    assert_eq!(air_e_last_table(1), vec![1]);
}

#[test]
fn test_air_witness_recomposition_and_shift() {
    let h = 16;
    let k = AIR_DIGIT_COLS;
    // digit columns of W: entry (m, i) = 1000 * m + i; shifted half zeroed
    let mut data: Vec<u64> = vec![0; 2 * k * h];
    for m in 0..k {
        for i in 0..h {
            data[m * h + i] = (1000 * m + i) as u64;
        }
    }
    let input_digits = air_witness_layout(&mut data, h);
    // the input digits are the first rows of the digit columns
    for m in 0..k {
        assert_eq!(input_digits[m], (1000 * m) as u64);
    }
    // the digit columns of W are unchanged
    for m in 0..k {
        for i in 0..h {
            assert_eq!(data[m * h + i], (1000 * m + i) as u64);
        }
    }
    // shift(W): row i takes row i+1, wrapping
    for m in 0..k {
        for i in 0..h {
            assert_eq!(data[(k + m) * h + i], data[m * h + (i + 1) % h], "shift broken at {}", i);
        }
    }
}

#[test]
fn air_layout_height_two() {
    let k = AIR_DIGIT_COLS;
    let mut data: Vec<u64> = (0..(2 * k * 2) as u64).collect();
    let _ = air_witness_layout(&mut data, 2);
    for m in 0..k {
        assert_eq!(data[(k + m) * 2], (2 * m + 1) as u64);
        assert_eq!(data[(k + m) * 2 + 1], (2 * m) as u64);
    }
}
