//! Builds the chain of round configurations for a given witness length.
//!
//! The first round has [`NUM_COLUMNS_INITIAL`] columns, projection ratio 2
//! and proves the delay function and exact binariness; the structured rounds
//! after it have 8 columns, projection ratio 8 and prove the l2 norm. The
//! structured rounds stop once the next round's column height could no longer
//! carry a projection (`< PROJECTION_HEIGHT * 8`); then come unstructured
//! rounds (8 columns for the first, 4 after it, no prefix), until the column
//! height falls below the threshold and the last round closes the chain.
use vstd::prelude::*;
use vstd::arithmetic::div_mod::lemma_div_denominator;
use crate::arith::{exp2, ilog2, lemma_log2_is_floor, log2};
use crate::config::{
    DEGREE, LAST_ROUND_THRESHOLD, MAX_UNSTRUCT_PROJ_RATIO, NUM_COLUMNS_INITIAL, PROJECTION_HEIGHT,
};
use crate::round_config::{Prefix, RoundConfig, RoundConfigCommon};

verus! {

/// Projection ratio of an unstructured round whose columns have height `h`:
/// `min(DEGREE * h / PROJECTION_HEIGHT, MAX_UNSTRUCT_PROJ_RATIO)`.
pub open spec fn unstructured_ratio(h: nat) -> usize {
    let r = DEGREE as nat * h / PROJECTION_HEIGHT as nat;
    if r < MAX_UNSTRUCT_PROJ_RATIO as nat {
        r as usize
    } else {
        MAX_UNSTRUCT_PROJ_RATIO
    }
}

/// The common part of an unstructured round (or of the last round).
pub open spec fn unstructured_common(ewl: nat, cols: usize) -> RoundConfigCommon {
    RoundConfigCommon {
        extended_witness_length: ewl as usize,
        exact_binariness: false,
        l2: true,
        vdf: false,
        inner_evaluation_claims: 2,
        main_witness_columns: cols,
        main_witness_prefix: Prefix { prefix: 0, length: 0 },
    }
}

/// The last round, with 4 columns of height `h`.
pub open spec fn last_round_config(h: nat) -> RoundConfig {
    RoundConfig::Last { common: unstructured_common(h * 4, 4), projection_ratio: unstructured_ratio(h) }
}

/// The unstructured rounds for an extended witness of length `ewl` in 4
/// columns: they go on while the next column height is at least
/// [`LAST_ROUND_THRESHOLD`].
pub open spec fn unstructured_chain(ewl: nat) -> RoundConfig
    decreases ewl,
{
    let h = ewl / 4;
    let nh = h / 2;
    RoundConfig::IntermediateUnstructured {
        common: unstructured_common(ewl, 4),
        decomposition_base_log: 8,
        projection_ratio: unstructured_ratio(h),
        next: Box::new(
            if nh >= LAST_ROUND_THRESHOLD as nat {
                unstructured_chain(nh * 4)
            } else {
                last_round_config(nh)
            },
        ),
    }
}

/// The common part of a structured round.
pub open spec fn structured_common(ewl: nat, first: bool) -> RoundConfigCommon {
    RoundConfigCommon {
        extended_witness_length: ewl as usize,
        exact_binariness: first,
        l2: !first,
        vdf: first,
        inner_evaluation_claims: if first { 0 } else { 2 },
        main_witness_columns: if first { NUM_COLUMNS_INITIAL } else { 8 },
        main_witness_prefix: Prefix { prefix: 0, length: 1 },
    }
}

/// The first unstructured round, which takes the 8 columns of height `h`
/// that the last structured round hands on.
pub open spec fn first_unstructured_config(h: nat) -> RoundConfig {
    let nh = h / 2;
    RoundConfig::IntermediateUnstructured {
        common: unstructured_common(h * 8, 8),
        decomposition_base_log: 8,
        projection_ratio: unstructured_ratio(h),
        next: Box::new(
            if nh >= PROJECTION_HEIGHT as nat {
                unstructured_chain(nh * 4)
            } else {
                last_round_config(nh)
            },
        ),
    }
}

/// The chain of rounds for an extended witness of length `ewl`, starting
/// with a structured round (the first round of the protocol if `first`).
pub open spec fn round_chain(ewl: nat, first: bool) -> RoundConfig
    decreases
            (if first {
                1int
            } else {
                0int
            }),
            ewl,
{
    let cols: nat = if first { NUM_COLUMNS_INITIAL as nat } else { 8 };
    let single = ewl / 2 / cols;
    let nsingle = single / 2;
    let next = if nsingle >= PROJECTION_HEIGHT as nat * 8 {
        round_chain(nsingle * 16, false)
    } else {
        first_unstructured_config(nsingle)
    };
    RoundConfig::Intermediate {
        common: structured_common(ewl, first),
        decomposition_base_log: 8,
        projection_ratio: if first { 2 } else { 8 },
        projection_prefix: Prefix {
            prefix: cols as usize,
            length: if first { 2 } else { 4 },
        },
        next: Box::new(next),
    }
}

/// The projection ratio of an unstructured round with columns of height `h`.
fn unstructured_projection_ratio(h: usize) -> (r: usize)
    requires
        DEGREE * h <= usize::MAX,
    ensures
        r == unstructured_ratio(h as nat),
{
    let r = DEGREE * h / PROJECTION_HEIGHT;
    if r < MAX_UNSTRUCT_PROJ_RATIO {
        r
    } else {
        MAX_UNSTRUCT_PROJ_RATIO
    }
}

/// Builds the unstructured round configurations for an extended witness of
/// length `extended_witness_length` in 4 columns, continuing until the next
/// column height is below [`LAST_ROUND_THRESHOLD`], then closing with the
/// last round.
pub fn build_unstructured_round_config(extended_witness_length: usize) -> (c: RoundConfig)
    requires
        DEGREE * (extended_witness_length / 4) <= usize::MAX,
    ensures
        c == unstructured_chain(extended_witness_length as nat),
    decreases extended_witness_length,
{
    let main_witness_columns = 4usize;
    let single_col_height = extended_witness_length / main_witness_columns;
    let next_single_col_height = single_col_height / 2;
    let next_cols = 4usize;
    let next_wl = next_single_col_height * next_cols;

    let common = RoundConfigCommon {
        extended_witness_length,
        exact_binariness: false,
        l2: true,
        vdf: false,
        inner_evaluation_claims: 2,
        main_witness_columns,
        main_witness_prefix: Prefix { prefix: 0, length: 0 },
    };

    let next_config = if next_single_col_height >= LAST_ROUND_THRESHOLD {
        build_unstructured_round_config(next_wl)
    } else {
        RoundConfig::Last {
            common: RoundConfigCommon {
                extended_witness_length: next_wl,
                exact_binariness: false,
                l2: true,
                vdf: false,
                inner_evaluation_claims: 2,
                main_witness_columns: next_cols,
                main_witness_prefix: Prefix { prefix: 0, length: 0 },
            },
            projection_ratio: unstructured_projection_ratio(next_single_col_height),
        }
    };

    RoundConfig::IntermediateUnstructured {
        common,
        decomposition_base_log: 8,
        projection_ratio: unstructured_projection_ratio(single_col_height),
        next: Box::new(next_config),
    }
}

/// The first unstructured round: it takes the 8 columns of height `h` that
/// the last structured round hands on; after it come 4-column rounds.
fn build_first_unstructured_round_config(h: usize) -> (c: RoundConfig)
    requires
        h < PROJECTION_HEIGHT * 8,
    ensures
        c == first_unstructured_config(h as nat),
{
    let unstructured_cols = 8usize;
    let unstructured_extended_witness_length = h * unstructured_cols;
    let next_unstructured_height = h / 2;
    let next_unstructured_cols = 4usize;
    let next_unstructured_wl = next_unstructured_height * next_unstructured_cols;

    let unstructured_common = RoundConfigCommon {
        extended_witness_length: unstructured_extended_witness_length,
        exact_binariness: false,
        l2: true,
        vdf: false,
        inner_evaluation_claims: 2,
        main_witness_columns: unstructured_cols,
        main_witness_prefix: Prefix { prefix: 0, length: 0 },
    };

    let next_unstructured_config = if next_unstructured_height >= PROJECTION_HEIGHT {
        build_unstructured_round_config(next_unstructured_wl)
    } else {
        RoundConfig::Last {
            common: RoundConfigCommon {
                extended_witness_length: next_unstructured_wl,
                exact_binariness: false,
                l2: true,
                vdf: false,
                inner_evaluation_claims: 2,
                main_witness_columns: next_unstructured_cols,
                main_witness_prefix: Prefix { prefix: 0, length: 0 },
            },
            projection_ratio: unstructured_projection_ratio(next_unstructured_height),
        }
    };

    RoundConfig::IntermediateUnstructured {
        common: unstructured_common,
        decomposition_base_log: 8,
        projection_ratio: unstructured_projection_ratio(h),
        next: Box::new(next_unstructured_config),
    }
}

/// Builds the chain of round configurations for an extended witness of
/// length `extended_witness_length`, starting with a structured round (the
/// first round of the protocol if `is_first_round`).
pub fn build_round_config(extended_witness_length: usize, is_first_round: bool) -> (c: RoundConfig)
    requires
        is_first_round ==> extended_witness_length / 8 * 16 <= usize::MAX,
    ensures
        c == round_chain(extended_witness_length as nat, is_first_round),
    decreases
            (if is_first_round {
                1int
            } else {
                0int
            }),
            extended_witness_length,
{
    let main_witness_columns = if is_first_round {
        NUM_COLUMNS_INITIAL
    } else {
        8
    };
    let projection_ratio = if is_first_round {
        2
    } else {
        8
    };

    let single_col_height = extended_witness_length / 2 / main_witness_columns;
    let next_single_col_height = single_col_height / 2;
    let next_main_witness_columns = 8usize;
    let next_projection_ratio = 8usize;
    let can_recurse = next_single_col_height >= PROJECTION_HEIGHT * next_projection_ratio;

    let inner_evaluation_claims = if is_first_round {
        0
    } else {
        2
    };

    let common = RoundConfigCommon {
        extended_witness_length,
        exact_binariness: is_first_round,
        l2: !is_first_round,
        vdf: is_first_round,
        inner_evaluation_claims,
        main_witness_columns,
        main_witness_prefix: Prefix { prefix: 0b0, length: 1 },
    };

    let log_cols = ilog2(main_witness_columns);
    proof {
        if is_first_round {
            assert(exp2(1) == 2 * exp2(0));
            assert(exp2(2) == 2 * exp2(1));
            lemma_log2_is_floor(2, 1);
        } else {
            assert(exp2(1) == 2 * exp2(0));
            assert(exp2(2) == 2 * exp2(1));
            assert(exp2(3) == 2 * exp2(2));
            assert(exp2(4) == 2 * exp2(3));
            lemma_log2_is_floor(8, 3);
        }
    }
    let projection_prefix = Prefix { prefix: main_witness_columns, length: log_cols + 1 };

    proof {
        lemma_div_denominator(extended_witness_length as int, 2, main_witness_columns as int);
        lemma_div_denominator(extended_witness_length as int, 2 * main_witness_columns as int, 2);
    }
    if can_recurse {
        let next_extended_witness_length = next_single_col_height * next_main_witness_columns * 2;
        RoundConfig::Intermediate {
            common,
            decomposition_base_log: 8,
            projection_ratio,
            projection_prefix,
            next: Box::new(build_round_config(next_extended_witness_length, false)),
        }
    } else {
        let next_config = build_first_unstructured_round_config(next_single_col_height);
        RoundConfig::Intermediate {
            common,
            decomposition_base_log: 8,
            projection_ratio,
            projection_prefix,
            next: Box::new(next_config),
        }
    }
}

} // verus!

verus! {

/// The chain ends in the last round and holds only unstructured rounds
/// before it.
pub open spec fn unstructured_tail(c: RoundConfig) -> bool
    decreases c,
{
    match c {
        RoundConfig::Last { .. } => true,
        RoundConfig::IntermediateUnstructured { next, .. } => unstructured_tail(*next),
        RoundConfig::Intermediate { .. } => false,
    }
}

/// The chain is one or more structured rounds, then one or more unstructured
/// rounds, then the last round.
pub open spec fn structured_then_unstructured(c: RoundConfig) -> bool
    decreases c,
{
    match c {
        RoundConfig::Intermediate { next, .. } => {
            ||| (*next is Intermediate && structured_then_unstructured(*next))
            ||| (*next is IntermediateUnstructured && unstructured_tail(*next))
        },
        _ => false,
    }
}

/// From each round to the next, the column height halves (the fold, split
/// and decomposition of a round leave the next round columns of half the
/// height).
pub open spec fn heights_halve(c: RoundConfig) -> bool
    decreases c,
{
    match c {
        RoundConfig::Intermediate { next, .. } => (*next).spec_witness_height()
            == c.spec_witness_height() / 2 && heights_halve(*next),
        RoundConfig::IntermediateUnstructured { next, .. } => (*next).spec_witness_height()
            == c.spec_witness_height() / 2 && heights_halve(*next),
        RoundConfig::Last { .. } => true,
    }
}

/// Every round can carry its projection: a structured round's columns are at
/// least `PROJECTION_HEIGHT * projection_ratio` high, an unstructured round
/// and the last round use the ratio `unstructured_ratio` of their column
/// height (at most [`MAX_UNSTRUCT_PROJ_RATIO`]), and the last round's columns
/// are below [`LAST_ROUND_THRESHOLD`].
pub open spec fn projections_fit(c: RoundConfig) -> bool
    decreases c,
{
    match c {
        RoundConfig::Intermediate { projection_ratio, next, .. } => {
            &&& c.spec_witness_height() >= PROJECTION_HEIGHT as nat * projection_ratio as nat
            &&& projections_fit(*next)
        },
        RoundConfig::IntermediateUnstructured { projection_ratio, next, .. } => {
            &&& projection_ratio == unstructured_ratio(c.spec_witness_height())
            &&& projection_ratio <= MAX_UNSTRUCT_PROJ_RATIO
            &&& projections_fit(*next)
        },
        RoundConfig::Last { projection_ratio, .. } => {
            &&& projection_ratio == unstructured_ratio(c.spec_witness_height())
            &&& projection_ratio <= MAX_UNSTRUCT_PROJ_RATIO
            &&& c.spec_witness_height() < LAST_ROUND_THRESHOLD as nat
        },
    }
}

/// Every round after the first proves the l2 norm and two inner evaluation
/// claims, and neither the delay function nor exact binariness.
pub open spec fn later_rounds_prove_l2(c: RoundConfig) -> bool
    decreases c,
{
    let common = c.spec_common();
    &&& common.l2
    &&& !common.vdf
    &&& !common.exact_binariness
    &&& common.inner_evaluation_claims == 2
    &&& match c {
        RoundConfig::Intermediate { next, .. } => later_rounds_prove_l2(*next),
        RoundConfig::IntermediateUnstructured { next, .. } => later_rounds_prove_l2(*next),
        RoundConfig::Last { .. } => true,
    }
}

/// The extended witness of the round is exactly its columns times their
/// height.
pub open spec fn fills_columns(c: RoundConfig) -> bool {
    c.spec_common().extended_witness_length as nat == c.spec_witness_height()
        * c.spec_witness_width()
}

/// The decomposition base and the layout of every round: every round but the
/// last decomposes in base `2^8`; a structured round addresses its witness by
/// the prefix `(0, 1)` and its projection by `(cols, log2(cols) + 1)`, and a
/// structured round after it has 8 columns and projection ratio 8; the first
/// unstructured round has 8 columns, the unstructured rounds after it and the
/// last round 4; unstructured and last rounds use no prefix; and the extended
/// witness of every round after the first is exactly its columns times their
/// height.
pub open spec fn chain_shape(c: RoundConfig) -> bool
    decreases c,
{
    match c {
        RoundConfig::Intermediate {
            common,
            decomposition_base_log,
            projection_prefix,
            next,
            ..
        } => {
            &&& decomposition_base_log == 8
            &&& common.main_witness_prefix == Prefix { prefix: 0, length: 1 }
            &&& projection_prefix.prefix == common.main_witness_columns
            &&& projection_prefix.length == log2(common.main_witness_columns as nat) + 1
            &&& (*next is Intermediate ==> (*next).spec_common().main_witness_columns == 8
                && (*next).spec_projection_ratio() == 8)
            &&& (*next is IntermediateUnstructured ==> (*next).spec_common().main_witness_columns
                == 8)
            &&& fills_columns(*next)
            &&& chain_shape(*next)
        },
        RoundConfig::IntermediateUnstructured { common, decomposition_base_log, next, .. } => {
            &&& decomposition_base_log == 8
            &&& common.main_witness_prefix == Prefix { prefix: 0, length: 0 }
            &&& (*next).spec_common().main_witness_columns == 4
            &&& fills_columns(*next)
            &&& chain_shape(*next)
        },
        RoundConfig::Last { common, .. } => {
            &&& common.main_witness_prefix == Prefix { prefix: 0, length: 0 }
            &&& common.main_witness_columns == 4
        },
    }
}

proof fn lemma_exp2_small()
    ensures
        exp2(0) == 1,
        exp2(1) == 2,
{
    assert(exp2(1) == 2 * exp2(0));
}

/// The projection ratio of an unstructured round or of the last round is half
/// its column height (`DEGREE / PROJECTION_HEIGHT = 1/2`), capped at
/// [`MAX_UNSTRUCT_PROJ_RATIO`]`= 8`: `h / 2` below height 16, else 8.
pub proof fn lemma_unstructured_ratio_values(h: nat)
    ensures
        h < 16 ==> unstructured_ratio(h) == h / 2,
        h >= 16 ==> unstructured_ratio(h) == 8,
{
    assert(128 * h / 256 == h / 2);
}

/// The laws of the unstructured part of a chain.
proof fn lemma_unstructured_chain(ewl: nat)
    ensures
        unstructured_tail(unstructured_chain(ewl)),
        ewl <= usize::MAX ==> heights_halve(unstructured_chain(ewl)),
        ewl <= usize::MAX ==> projections_fit(unstructured_chain(ewl)),
        later_rounds_prove_l2(unstructured_chain(ewl)),
        ewl <= usize::MAX ==> chain_shape(unstructured_chain(ewl)),
        ewl <= usize::MAX ==> unstructured_chain(ewl).spec_witness_height() == ewl / 4,
    decreases ewl,
{
    lemma_exp2_small();
    let c = unstructured_chain(ewl);
    let h = ewl / 4;
    let nh = h / 2;
    let next = if nh >= LAST_ROUND_THRESHOLD as nat {
        unstructured_chain(nh * 4)
    } else {
        last_round_config(nh)
    };
    assert(c->IntermediateUnstructured_next == Box::new(next));
    assert(c.spec_common() == unstructured_common(ewl, 4));
    assert(c.spec_witness_width() == 4 * exp2(0));
    assert(nh * 4 <= ewl);
    if nh >= LAST_ROUND_THRESHOLD as nat {
        lemma_unstructured_chain(nh * 4);
        assert(nh * 4 / 4 == nh);
    } else {
        assert(heights_halve(next));
        assert(next.spec_common() == unstructured_common(nh * 4, 4));
        assert(next.spec_witness_width() == 4 * exp2(0));
        assert(nh * 4 / 4 == nh);
        assert(unstructured_tail(next));
        assert(later_rounds_prove_l2(next));
        assert(projections_fit(next));
        assert(nh * 4 <= usize::MAX ==> chain_shape(next));
    }
    assert(next.spec_common().main_witness_columns == 4);
    assert(unstructured_tail(c));
    assert(later_rounds_prove_l2(c));
    if ewl <= usize::MAX {
        assert(next.spec_common().extended_witness_length == nh * 4);
        assert(next.spec_witness_width() == 4);
        assert(next.spec_witness_height() == nh);
        assert(fills_columns(next));
        assert(chain_shape(c));
        assert(c.spec_witness_height() == h);
        assert(next.spec_witness_height() == nh);
        assert(heights_halve(c));
        assert(projections_fit(c));
    }
}

/// The laws of the part of a chain that starts with the first unstructured
/// round.
proof fn lemma_first_unstructured(h: nat)
    requires
        h < PROJECTION_HEIGHT * 8,
    ensures
        unstructured_tail(first_unstructured_config(h)),
        heights_halve(first_unstructured_config(h)),
        projections_fit(first_unstructured_config(h)),
        later_rounds_prove_l2(first_unstructured_config(h)),
        chain_shape(first_unstructured_config(h)),
        first_unstructured_config(h).spec_witness_height() == h,
{
    lemma_exp2_small();
    let c = first_unstructured_config(h);
    let nh = h / 2;
    let next = if nh >= PROJECTION_HEIGHT as nat {
        unstructured_chain(nh * 4)
    } else {
        last_round_config(nh)
    };
    assert(c->IntermediateUnstructured_next == Box::new(next));
    assert(c.spec_common() == unstructured_common(h * 8, 8));
    assert(c.spec_witness_width() == 8 * exp2(0));
    assert(h * 8 / 8 == h);
    if nh >= PROJECTION_HEIGHT as nat {
        lemma_unstructured_chain(nh * 4);
    } else {
        assert(heights_halve(next));
        assert(next.spec_common() == unstructured_common(nh * 4, 4));
        assert(next.spec_witness_width() == 4 * exp2(0));
        assert(nh * 4 / 4 == nh);
        assert(unstructured_tail(next));
        assert(later_rounds_prove_l2(next));
        assert(projections_fit(next));
        assert(chain_shape(next));
    }
    assert(next.spec_witness_height() == nh);
    assert(heights_halve(next));
    assert(heights_halve(c));
    assert(next.spec_common().main_witness_columns == 4);
    assert(chain_shape(c));
}

/// The laws of a chain built from a structured round.
proof fn lemma_round_chain(ewl: nat, first: bool)
    requires
        ewl <= usize::MAX,
        first ==> ewl / 8 * 16 <= usize::MAX,
        !first ==> ewl / 16 >= PROJECTION_HEIGHT * 8,
    ensures
        structured_then_unstructured(round_chain(ewl, first)),
        heights_halve(round_chain(ewl, first)),
        first ==> round_chain(ewl, first).spec_witness_height() == ewl / 4,
        !first ==> round_chain(ewl, first).spec_witness_height() == ewl / 16,
        projections_fit(*(round_chain(ewl, first)->Intermediate_next)),
        !first ==> projections_fit(round_chain(ewl, first)),
        later_rounds_prove_l2(*(round_chain(ewl, first)->Intermediate_next)),
        !first ==> later_rounds_prove_l2(round_chain(ewl, first)),
        chain_shape(round_chain(ewl, first)),
        round_chain(ewl, first).spec_common().main_witness_columns == if first {
            NUM_COLUMNS_INITIAL
        } else {
            8
        },
        round_chain(ewl, first).spec_projection_ratio() == if first {
            2usize
        } else {
            8
        },
    decreases
            (if first {
                1int
            } else {
                0int
            }),
            ewl,
{
    lemma_exp2_small();
    let c = round_chain(ewl, first);
    let cols: nat = if first { NUM_COLUMNS_INITIAL as nat } else { 8 };
    lemma_div_denominator(ewl as int, 2, cols as int);
    lemma_div_denominator(ewl as int, 2 * cols as int, 2);
    let nsingle = ewl / 2 / cols / 2;
    assert(c.spec_common() == structured_common(ewl, first));
    assert(c.spec_witness_width() == cols * exp2(1));
    assert(c.spec_witness_height() == ewl / (2 * cols));
    let next = if nsingle >= PROJECTION_HEIGHT as nat * 8 {
        round_chain(nsingle * 16, false)
    } else {
        first_unstructured_config(nsingle)
    };
    assert(c->Intermediate_next == Box::new(next));
    if nsingle >= PROJECTION_HEIGHT as nat * 8 {
        lemma_round_chain(nsingle * 16, false);
        assert(nsingle * 16 / 16 == nsingle);
    } else {
        lemma_first_unstructured(nsingle);
    }
    assert(next.spec_witness_height() == nsingle);
    assert(heights_halve(c));
    if !first {
        assert(projections_fit(c));
    }
    assert(exp2(2) == 2 * exp2(1));
    assert(exp2(3) == 2 * exp2(2));
    assert(exp2(4) == 2 * exp2(3));
    lemma_log2_is_floor(2, 1);
    lemma_log2_is_floor(8, 3);
    assert(next.spec_common().main_witness_columns == 8);
    assert(chain_shape(c));
}

/// The chain that [`build_round_config`] builds for the first round is one or
/// more structured rounds, then one or more unstructured rounds, then the last
/// round; the column height halves from each round to the next; the first
/// round proves the delay function and exact binariness in
/// [`NUM_COLUMNS_INITIAL`] columns with projection ratio 2, every later round
/// the l2 norm; every round after the first can carry its projection; and
/// every round has the decomposition base and layout of [`chain_shape`].
pub proof fn lemma_build_round_config_chain(extended_witness_length: usize)
    requires
        extended_witness_length / 8 * 16 <= usize::MAX,
    ensures
        ({
            let c = round_chain(extended_witness_length as nat, true);
            &&& c is Intermediate
            &&& structured_then_unstructured(c)
            &&& heights_halve(c)
            &&& c.spec_witness_height() == extended_witness_length / 4
            &&& c.spec_common().vdf && c.spec_common().exact_binariness && !c.spec_common().l2
            &&& c.spec_common().main_witness_columns == NUM_COLUMNS_INITIAL
            &&& c.spec_common().inner_evaluation_claims == 0
            &&& projections_fit(*(c->Intermediate_next))
            &&& later_rounds_prove_l2(*(c->Intermediate_next))
            &&& chain_shape(c)
            &&& c.spec_projection_ratio() == 2
        }),
{
    lemma_round_chain(extended_witness_length as nat, true);
}

/// The chain that [`build_unstructured_round_config`] builds is one or more
/// unstructured rounds, then the last round; the column height halves from
/// each round to the next; every round proves the l2 norm, can carry its
/// projection, and has the decomposition base and layout of [`chain_shape`].
pub proof fn lemma_build_unstructured_round_config_chain(extended_witness_length: usize)
    ensures
        ({
            let c = unstructured_chain(extended_witness_length as nat);
            &&& c is IntermediateUnstructured
            &&& unstructured_tail(c)
            &&& heights_halve(c)
            &&& projections_fit(c)
            &&& later_rounds_prove_l2(c)
            &&& chain_shape(c)
        }),
{
    lemma_unstructured_chain(extended_witness_length as nat);
}

} // verus!
