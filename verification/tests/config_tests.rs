use salsaa::config::{
    mode, rank, set_mode, set_rank, set_witness_dim, witness_dim, witness_height, Mode, Settings,
    MODE, RANK, WITNESS_DIM, WITNESS_WIDTH,
};

#[test]
fn defaults_apply_when_nothing_is_set() {
    let s = Settings::new();
    assert_eq!(rank(&s), RANK);
    assert_eq!(rank(&s), 8);
    assert_eq!(witness_dim(&s), WITNESS_DIM);
    assert_eq!(witness_dim(&s), 1 << 20);
    assert_eq!(mode(&s), MODE);
    assert_eq!(mode(&s), Mode::VDF);
    assert_eq!(witness_height(&s), (1 << 20) / WITNESS_WIDTH);
    assert_eq!(witness_height(&s), 524288);
}

#[test]
fn set_rank_is_read_back() {
    let mut s = Settings::new();
    assert_eq!(set_rank(&mut s, 11), Ok(()));
    assert_eq!(rank(&s), 11);
    assert_eq!(witness_dim(&s), WITNESS_DIM);
    assert_eq!(mode(&s), MODE);
}

#[test]
fn set_rank_zero_is_refused() {
    let mut s = Settings::new();
    assert_eq!(set_rank(&mut s, 0), Err("rank must be greater than 0".to_string()));
    assert_eq!(rank(&s), RANK);
    // a refused zero does not use up the one setting
    assert_eq!(set_rank(&mut s, 9), Ok(()));
    assert_eq!(rank(&s), 9);
}

#[test]
fn set_rank_twice_is_refused() {
    let mut s = Settings::new();
    assert_eq!(set_rank(&mut s, 10), Ok(()));
    assert_eq!(set_rank(&mut s, 12), Err("rank has already been set".to_string()));
    assert_eq!(set_rank(&mut s, 0), Err("rank must be greater than 0".to_string()));
    assert_eq!(rank(&s), 10);
}

#[test]
fn set_witness_dim_once() {
    let mut s = Settings::new();
    assert_eq!(
        set_witness_dim(&mut s, 0),
        Err("witness_dim must be greater than 0".to_string())
    );
    assert_eq!(set_witness_dim(&mut s, 1 << 26), Ok(()));
    assert_eq!(witness_dim(&s), 1 << 26);
    assert_eq!(witness_height(&s), 1 << 25);
    assert_eq!(
        set_witness_dim(&mut s, 1 << 28),
        Err("witness_dim has already been set".to_string())
    );
    assert_eq!(witness_dim(&s), 1 << 26);
    assert_eq!(rank(&s), RANK);
}

#[test]
fn set_mode_once() {
    let mut s = Settings::new();
    assert_eq!(set_mode(&mut s, Mode::SNARK), Ok(()));
    assert_eq!(mode(&s), Mode::SNARK);
    assert_eq!(
        set_mode(&mut s, Mode::FOLDING_SCHEME),
        Err("mode has already been set".to_string())
    );
    assert_eq!(mode(&s), Mode::SNARK);
    assert_eq!(rank(&s), RANK);
    assert_eq!(witness_dim(&s), WITNESS_DIM);
}

#[test]
fn witness_height_rounds_down() {
    let mut s = Settings::new();
    assert_eq!(set_witness_dim(&mut s, 7), Ok(()));
    assert_eq!(witness_height(&s), 3);
}
