//! The shape of the batching challenges of a structured round's projection:
//! `c0` runs over the blocks of a column, `c1` over the projected height and
//! `c2` over the columns, each in succinct (tensor) form.
use vstd::prelude::*;
use crate::arith::{ilog2, log2};
use crate::config::PROJECTION_HEIGHT;
use crate::config_generator::projections_fit;
use crate::round_config::RoundConfig;

verus! {

/// Number of blocks of a column that the challenge `c0` runs over:
/// `single_col_height / (PROJECTION_HEIGHT * projection_ratio)`, with
/// `single_col_height = extended_witness_length / 2 / main_witness_columns`.
pub open spec fn c0_len(config: RoundConfig) -> nat {
    config.spec_common().extended_witness_length as nat / 2
        / config.spec_common().main_witness_columns as nat / (PROJECTION_HEIGHT as nat
        * config.spec_projection_ratio() as nat)
}

/// The numbers of tensor layers of the batching challenges `c0`, `c1`, `c2`
/// of a structured round: `log2(c0_len)`, `log2(PROJECTION_HEIGHT)` and
/// `log2(main_witness_columns)`.
pub fn batching_challenge_layers(config: &RoundConfig) -> (r: (usize, usize, usize))
    requires
        config is Intermediate,
        config.spec_common().main_witness_columns > 0,
        config.spec_projection_ratio() > 0,
        PROJECTION_HEIGHT * config.spec_projection_ratio() <= usize::MAX,
        c0_len(*config) > 0,
    ensures
        r.0 == log2(c0_len(*config)),
        r.1 == log2(PROJECTION_HEIGHT as nat),
        r.2 == log2(config.spec_common().main_witness_columns as nat),
{
    let common = config.common();
    let projection_ratio = config.projection_ratio();
    let c2_len = common.main_witness_columns;
    let c1_len = PROJECTION_HEIGHT;
    let single_col_height = common.extended_witness_length / 2 / common.main_witness_columns;
    let c0_len: usize = single_col_height / (PROJECTION_HEIGHT * projection_ratio);
    (ilog2(c0_len), ilog2(c1_len), ilog2(c2_len))
}

/// A structured round whose projections fit (as every structured round after
/// the first in a chain from `build_round_config`) has at least one block per
/// column, so its batching challenges are defined.
pub proof fn lemma_batching_defined(config: RoundConfig)
    requires
        config is Intermediate,
        projections_fit(config),
        config.spec_common().main_witness_columns > 0,
        config.spec_common().main_witness_prefix.length == 1,
        config.spec_projection_ratio() > 0,
    ensures
        c0_len(config) > 0,
{
    let cols = config.spec_common().main_witness_columns as nat;
    let ewl = config.spec_common().extended_witness_length as nat;
    let d = PROJECTION_HEIGHT as nat * config.spec_projection_ratio() as nat;
    assert(crate::arith::exp2(1) == 2) by {
        assert(crate::arith::exp2(1) == 2 * crate::arith::exp2(0));
    }
    vstd::arithmetic::div_mod::lemma_div_denominator(ewl as int, 2, cols as int);
    assert(config.spec_witness_height() == ewl / 2 / cols);
    assert(ewl / 2 / cols >= d);
    assert(d > 0) by (nonlinear_arith)
        requires
            d == PROJECTION_HEIGHT as nat * config.spec_projection_ratio() as nat,
            config.spec_projection_ratio() > 0,
    ;
    vstd::arithmetic::div_mod::lemma_div_is_ordered(d as int, (ewl / 2 / cols) as int, d as int);
    vstd::arithmetic::div_mod::lemma_div_by_self(d as int);
}

} // verus!
