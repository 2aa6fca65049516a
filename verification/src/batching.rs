//! The order in which the claims of a round's sumchecks are batched: each
//! claim is weighted by the combination challenge at its position, and the
//! number of positions is the number of combination challenges sampled.
use vstd::prelude::*;
use crate::config::NOF_BATCHES;
use crate::round_config::RoundConfig;

verus! {

/// One batched sumcheck claim.
#[derive(Clone, Copy, Debug, PartialEq, Eq, Structural)]
pub enum ClaimKind {
    /// an inner evaluation claim: `<evaluation_outer, column_claims[i]>`
    Type1(usize),
    /// the structured projection claim (zero)
    Projection,
    /// the l2 inner-product claim
    L2,
    /// the exact-binariness claim
    Linf,
    /// the delay-function claim
    Vdf,
    /// the unstructured projection claim of batch `b`
    Type31(usize),
}

/// Whether a round batches the unstructured projection claims.
pub open spec fn has_type31(config: RoundConfig) -> bool {
    config is IntermediateUnstructured || config is Last
}

/// The claims of a round in batching order: the inner evaluation claims, the
/// structured projection claim (structured rounds), the l2 claim, the
/// exact-binariness claim and the delay-function claim (each if the round
/// proves it), then one unstructured projection claim per batch
/// (unstructured and last rounds).
pub open spec fn claim_layout(config: RoundConfig) -> Seq<ClaimKind> {
    let c = config.spec_common();
    Seq::new(c.inner_evaluation_claims as nat, |i: int| ClaimKind::Type1(i as usize))
        + (if config is Intermediate { seq![ClaimKind::Projection] } else { Seq::empty() })
        + (if c.l2 { seq![ClaimKind::L2] } else { Seq::empty() })
        + (if c.exact_binariness { seq![ClaimKind::Linf] } else { Seq::empty() })
        + (if c.vdf { seq![ClaimKind::Vdf] } else { Seq::empty() })
        + (if has_type31(config) {
        Seq::new(NOF_BATCHES as nat, |b: int| ClaimKind::Type31(b as usize))
    } else {
        Seq::empty()
    })
}

/// The claims of `config` in batching order (see [`claim_layout`]); its
/// length is the number of combination challenges of the round.
pub fn sumcheck_claim_layout(config: &RoundConfig) -> (layout: Vec<ClaimKind>)
    requires
        config.spec_common().inner_evaluation_claims + 4 + NOF_BATCHES <= usize::MAX,
    ensures
        layout@ == claim_layout(*config),
{
    let common = config.common();
    let mut layout: Vec<ClaimKind> = Vec::new();
    let mut i: usize = 0;
    while i < common.inner_evaluation_claims
        invariant
            i <= common.inner_evaluation_claims,
            layout@ =~= Seq::new(i as nat, |j: int| ClaimKind::Type1(j as usize)),
        decreases common.inner_evaluation_claims - i,
    {
        layout.push(ClaimKind::Type1(i));
        i = i + 1;
    }
    let ghost type1 = layout@;
    if let RoundConfig::Intermediate { .. } = config {
        layout.push(ClaimKind::Projection);
    }
    let ghost projection = layout@;
    if common.l2 {
        layout.push(ClaimKind::L2);
    }
    let ghost l2 = layout@;
    if common.exact_binariness {
        layout.push(ClaimKind::Linf);
    }
    let ghost linf = layout@;
    if common.vdf {
        layout.push(ClaimKind::Vdf);
    }
    let ghost vdf = layout@;
    let type31 = match config {
        RoundConfig::Intermediate { .. } => false,
        _ => true,
    };
    if type31 {
        let mut b: usize = 0;
        while b < NOF_BATCHES
            invariant
                b <= NOF_BATCHES,
                layout@ =~= vdf + Seq::new(b as nat, |j: int| ClaimKind::Type31(j as usize)),
            decreases NOF_BATCHES - b,
        {
            layout.push(ClaimKind::Type31(b));
            b = b + 1;
        }
    }
    proof {
        let c = config.spec_common();
        assert(type1 =~= Seq::new(c.inner_evaluation_claims as nat, |i: int| ClaimKind::Type1(i as usize)));
        assert(projection =~= type1 + (if *config is Intermediate { seq![ClaimKind::Projection] } else { Seq::empty() }));
        assert(l2 =~= projection + (if c.l2 { seq![ClaimKind::L2] } else { Seq::empty() }));
        assert(linf =~= l2 + (if c.exact_binariness { seq![ClaimKind::Linf] } else { Seq::empty() }));
        assert(vdf =~= linf + (if c.vdf { seq![ClaimKind::Vdf] } else { Seq::empty() }));
        assert(layout@ =~= claim_layout(*config));
    }
    layout
}

} // verus!

verus! {

/// The first round of a chain from `build_round_config` batches the
/// structured projection claim, the exact-binariness claim and the
/// delay-function claim, in this order.
pub proof fn lemma_first_round_claim_layout(ewl: nat)
    ensures
        claim_layout(crate::config_generator::round_chain(ewl, true)) == seq![
            ClaimKind::Projection,
            ClaimKind::Linf,
            ClaimKind::Vdf,
        ],
{
    let first = crate::config_generator::round_chain(ewl, true);
    assert(first.spec_common() == crate::config_generator::structured_common(ewl, true));
    assert(Seq::new(0, |i: int| ClaimKind::Type1(i as usize)) =~= Seq::<ClaimKind>::empty());
    assert(claim_layout(first) =~= seq![ClaimKind::Projection, ClaimKind::Linf, ClaimKind::Vdf]);
}

/// A round that proves the l2 norm and two inner evaluation claims (every
/// round after the first of a chain from `build_round_config`) batches its two
/// inner evaluation claims, then the projection claim and the l2 claim
/// (structured round) or the l2 claim and one unstructured projection claim
/// per batch (unstructured and last rounds).
pub proof fn lemma_later_round_claim_layout(c: RoundConfig)
    requires
        c.spec_common().l2,
        !c.spec_common().vdf,
        !c.spec_common().exact_binariness,
        c.spec_common().inner_evaluation_claims == 2,
    ensures
        claim_layout(c) == seq![ClaimKind::Type1(0), ClaimKind::Type1(1)] + (if c is Intermediate {
            seq![ClaimKind::Projection, ClaimKind::L2]
        } else {
            seq![ClaimKind::L2, ClaimKind::Type31(0), ClaimKind::Type31(1)]
        }),
{
    let t1 = Seq::new(2, |i: int| ClaimKind::Type1(i as usize));
    assert(t1 =~= seq![ClaimKind::Type1(0), ClaimKind::Type1(1)]);
    let t31 = Seq::new(NOF_BATCHES as nat, |b: int| ClaimKind::Type31(b as usize));
    assert(t31 =~= seq![ClaimKind::Type31(0), ClaimKind::Type31(1)]);
    if c is Intermediate {
        assert(claim_layout(c) =~= seq![ClaimKind::Type1(0), ClaimKind::Type1(1)] + seq![
            ClaimKind::Projection,
            ClaimKind::L2,
        ]);
    } else {
        assert(claim_layout(c) =~= seq![ClaimKind::Type1(0), ClaimKind::Type1(1)] + seq![
            ClaimKind::L2,
            ClaimKind::Type31(0),
            ClaimKind::Type31(1),
        ]);
    }
}

} // verus!
