use salsaa::config::{MAX_UNSTRUCT_PROJ_RATIO, PROJECTION_HEIGHT};
use salsaa::config_generator::{build_round_config, build_unstructured_round_config};
use salsaa::project::batching_challenge_layers;
use salsaa::round_config::{Prefix, RoundConfig};

/// (kind, extended_witness_length, columns, projection_ratio) of every round.
fn summary(c: &RoundConfig) -> Vec<(char, usize, usize, usize)> {
    let mut out = Vec::new();
    let mut cur = c;
    loop {
        let common = cur.common();
        let kind = match cur {
            RoundConfig::Intermediate { .. } => 'I',
            RoundConfig::IntermediateUnstructured { .. } => 'U',
            RoundConfig::Last { .. } => 'L',
        };
        out.push((kind, common.extended_witness_length, common.main_witness_columns, cur.projection_ratio()));
        match cur {
            RoundConfig::Intermediate { next, .. } => cur = next,
            RoundConfig::IntermediateUnstructured { next, .. } => cur = next,
            RoundConfig::Last { .. } => break,
        }
    }
    out
}

#[test]
fn default_chain() {
    // witness_height() * WITNESS_WIDTH * 2 with the default witness dimension 2^20
    let c = build_round_config(1 << 21, true);
    assert_eq!(
        summary(&c),
        vec![
            ('I', 2097152, 2, 2),
            ('I', 4194304, 8, 8),
            ('I', 2097152, 8, 8),
            ('I', 1048576, 8, 8),
            ('I', 524288, 8, 8),
            ('I', 262144, 8, 8),
            ('I', 131072, 8, 8),
            ('I', 65536, 8, 8),
            ('I', 32768, 8, 8),
            ('U', 8192, 8, 8),
            ('U', 2048, 4, 8),
            ('U', 1024, 4, 8),
            ('L', 512, 4, 8),
        ]
    );
}

#[test]
fn first_round_flags() {
    let c = build_round_config(1 << 21, true);
    let common = c.common();
    assert!(common.vdf && common.exact_binariness && !common.l2);
    assert_eq!(common.inner_evaluation_claims, 0);
    assert_eq!(common.main_witness_prefix, Prefix { prefix: 0, length: 1 });
    match &c {
        RoundConfig::Intermediate { projection_prefix, decomposition_base_log, next, .. } => {
            assert_eq!(*projection_prefix, Prefix { prefix: 2, length: 2 });
            assert_eq!(*decomposition_base_log, 8);
            let n = next.common();
            assert!(n.l2 && !n.vdf && !n.exact_binariness);
            assert_eq!(n.inner_evaluation_claims, 2);
            match &**next {
                RoundConfig::Intermediate { projection_prefix, .. } => {
                    assert_eq!(*projection_prefix, Prefix { prefix: 8, length: 4 })
                }
                _ => panic!("second round should be structured"),
            }
        }
        _ => panic!("first round should be structured"),
    }
}

#[test]
fn heights_halve_along_the_chain() {
    let c = build_round_config(1 << 26, true);
    let mut cur = &c;
    let mut prev = cur.witness_height();
    assert_eq!(prev, 1 << 24);
    loop {
        let next = match cur {
            RoundConfig::Intermediate { next, .. } => next,
            RoundConfig::IntermediateUnstructured { next, .. } => next,
            RoundConfig::Last { .. } => break,
        };
        assert_eq!(next.witness_height(), prev / 2);
        prev = next.witness_height();
        cur = next;
    }
    assert!(prev < PROJECTION_HEIGHT);
    assert!(cur.is_last());
}

#[test]
fn small_witness_goes_straight_to_unstructured() {
    let c = build_round_config(64, true);
    assert_eq!(summary(&c), vec![('I', 64, 2, 2), ('U', 64, 8, 4), ('L', 16, 4, 2)]);
    let c = build_round_config(4096, true);
    assert_eq!(
        summary(&c),
        vec![('I', 4096, 2, 2), ('U', 4096, 8, 8), ('U', 1024, 4, 8), ('L', 512, 4, 8)]
    );
}

#[test]
fn unstructured_chain() {
    let c = build_unstructured_round_config(1 << 12);
    assert_eq!(
        summary(&c),
        vec![('U', 4096, 4, 8), ('U', 2048, 4, 8), ('U', 1024, 4, 8), ('L', 512, 4, 8)]
    );
    let c = build_unstructured_round_config(16);
    assert_eq!(summary(&c), vec![('U', 16, 4, 2), ('L', 8, 4, 1)]);
    for (_, _, _, ratio) in summary(&build_unstructured_round_config(1 << 20)) {
        assert!(ratio <= MAX_UNSTRUCT_PROJ_RATIO);
    }
}

#[test]
fn round_config_accessors() {
    let c = build_round_config(1 << 21, true);
    assert_eq!(c.witness_width(), 4);
    assert_eq!(c.witness_height(), 1 << 19);
    assert_eq!(c.projection_ratio(), 2);
    assert_eq!(c.projection_height(), 256);
    assert_eq!(c.outer_points_len(), 2);
    assert!(!c.is_last());
    let copy = c.clone();
    assert_eq!(summary(&copy), summary(&c));
    let last = RoundConfig::Last {
        common: *build_unstructured_round_config(16).common(),
        projection_ratio: 1,
    };
    assert!(last.is_last());
    assert_eq!(last.outer_points_len(), 2);
}

#[test]
fn batching_layers_of_structured_rounds() {
    let c = build_round_config(1 << 21, true);
    // first round: single column height 2^19, c0_len = 2^19 / (256 * 2) = 2^10
    assert_eq!(batching_challenge_layers(&c), (10, 8, 1));
    match &c {
        RoundConfig::Intermediate { next, .. } => {
            // 2^22 / 2 / 8 = 2^18 rows, c0_len = 2^18 / 2^11 = 2^7
            assert_eq!(batching_challenge_layers(next), (7, 8, 3));
        }
        _ => panic!(),
    }
}
