use salsaa::batching::{sumcheck_claim_layout, ClaimKind};
use salsaa::config_generator::build_round_config;
use salsaa::round_config::RoundConfig;

#[test]
fn claim_layouts_along_default_chain() {
    let c = build_round_config(1 << 21, true);
    assert_eq!(
        sumcheck_claim_layout(&c),
        vec![ClaimKind::Projection, ClaimKind::Linf, ClaimKind::Vdf]
    );
    let mut layouts = Vec::new();
    let mut cur: &RoundConfig = &c;
    loop {
        let next = match cur {
            RoundConfig::Intermediate { next, .. } => next,
            RoundConfig::IntermediateUnstructured { next, .. } => next,
            RoundConfig::Last { .. } => break,
        };
        layouts.push(sumcheck_claim_layout(next));
        cur = next;
    }
    assert_eq!(
        layouts[0],
        vec![ClaimKind::Type1(0), ClaimKind::Type1(1), ClaimKind::Projection, ClaimKind::L2]
    );
    let unstructured = vec![
        ClaimKind::Type1(0),
        ClaimKind::Type1(1),
        ClaimKind::L2,
        ClaimKind::Type31(0),
        ClaimKind::Type31(1),
    ];
    // the last three rounds after the structured ones are unstructured, the very last one last
    let n = layouts.len();
    for l in &layouts[n - 4..] {
        assert_eq!(*l, unstructured);
    }
}
