use salsaa::prefix::{paste_by_prefix, slice_by_prefix};
use salsaa::round_config::Prefix;

#[test]
fn slice_selects_block() {
    let src: Vec<u32> = (0..2048).collect();
    // prefix 0b1001 of 4 bits in 11 index bits: start 9 << 7 = 1152, length 128
    let out = slice_by_prefix(&src, &Prefix { prefix: 9, length: 4 });
    assert_eq!(out.len(), 128);
    assert_eq!(out[0], 1152);
    assert_eq!(out[127], 1279);
    assert_eq!(slice_by_prefix(&src, &Prefix { prefix: 0, length: 0 }), src);
    assert_eq!(slice_by_prefix(&src, &Prefix { prefix: 1, length: 1 })[0], 1024);
}

#[test]
fn paste_then_slice_gives_back() {
    let mut dest: Vec<u32> = vec![0; 2048];
    let src: Vec<u32> = (1..=128).collect();
    let p = Prefix { prefix: 9, length: 4 };
    paste_by_prefix(&mut dest, &src, &p);
    assert_eq!(slice_by_prefix(&dest, &p), src);
    assert!(dest[..1152].iter().all(|x| *x == 0));
    assert!(dest[1280..].iter().all(|x| *x == 0));
    // a disjoint block reads as before
    assert_eq!(slice_by_prefix(&dest, &Prefix { prefix: 8, length: 4 }), vec![0; 128]);
}

#[test]
fn structured_layout_witness_and_projection() {
    // extended witness of 16 entries: witness (8) at prefix (0, 1), projection of
    // a 2-column witness (4 = 8 / 2) at prefix (2, 2)
    let mut ext: Vec<u32> = vec![0; 16];
    let witness: Vec<u32> = (1..=8).collect();
    let projected: Vec<u32> = vec![100, 101, 102];
    paste_by_prefix(&mut ext, &witness, &Prefix { prefix: 0, length: 1 });
    paste_by_prefix(&mut ext, &projected, &Prefix { prefix: 2, length: 2 });
    assert_eq!(ext, vec![1, 2, 3, 4, 5, 6, 7, 8, 100, 101, 102, 0, 0, 0, 0, 0]);
}
