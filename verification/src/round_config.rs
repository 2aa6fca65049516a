//! The configuration of one round of the protocol, chained to the
//! configuration of the next round, and the prefix addressing that places
//! witness blocks inside the extended witness.
use vstd::prelude::*;
use crate::arith::{exp2, exp2_usize, ilog2, log2};
use crate::config::PROJECTION_HEIGHT;

verus! {

/// A block of the extended witness, addressed by the `length` most
/// significant bits `prefix` of the index.
#[derive(Clone, Copy, Debug, PartialEq, Eq, Structural)]
pub struct Prefix {
    pub prefix: usize,
    pub length: usize,
}

/// What every round's configuration has.
#[derive(Clone, Copy, Debug, PartialEq, Eq, Structural)]
pub struct RoundConfigCommon {
    pub main_witness_prefix: Prefix,
    pub main_witness_columns: usize,
    pub extended_witness_length: usize,
    /// whether the round proves exact binariness
    pub exact_binariness: bool,
    /// whether the round proves the delay function (first round only)
    pub vdf: bool,
    /// whether the round proves the l2 norm of the witness
    pub l2: bool,
    /// how many inner evaluation claims the round receives
    pub inner_evaluation_claims: usize,
}

/// The configuration of a round and of all the rounds after it.
pub enum RoundConfig {
    Intermediate {
        common: RoundConfigCommon,
        decomposition_base_log: u64,
        projection_ratio: usize,
        projection_prefix: Prefix,
        next: Box<RoundConfig>,
    },
    IntermediateUnstructured {
        projection_ratio: usize,
        common: RoundConfigCommon,
        decomposition_base_log: u64,
        next: Box<RoundConfig>,
    },
    Last { common: RoundConfigCommon, projection_ratio: usize },
}

impl Clone for RoundConfig {
    /// A copy of the whole chain.
    fn clone(&self) -> (c: Self)
        ensures
            c == *self,
        decreases self,
    {
        match self {
            RoundConfig::Intermediate {
                common,
                decomposition_base_log,
                projection_ratio,
                projection_prefix,
                next,
            } => RoundConfig::Intermediate {
                common: *common,
                decomposition_base_log: *decomposition_base_log,
                projection_ratio: *projection_ratio,
                projection_prefix: *projection_prefix,
                next: Box::new((**next).clone()),
            },
            RoundConfig::IntermediateUnstructured {
                projection_ratio,
                common,
                decomposition_base_log,
                next,
            } => RoundConfig::IntermediateUnstructured {
                projection_ratio: *projection_ratio,
                common: *common,
                decomposition_base_log: *decomposition_base_log,
                next: Box::new((**next).clone()),
            },
            RoundConfig::Last { common, projection_ratio } => RoundConfig::Last {
                common: *common,
                projection_ratio: *projection_ratio,
            },
        }
    }
}

impl RoundConfig {
    /// The common part of the round.
    pub open spec fn spec_common(self) -> RoundConfigCommon {
        match self {
            RoundConfig::Intermediate { common, .. } => common,
            RoundConfig::IntermediateUnstructured { common, .. } => common,
            RoundConfig::Last { common, .. } => common,
        }
    }

    /// The projection ratio of the round.
    pub open spec fn spec_projection_ratio(self) -> usize {
        match self {
            RoundConfig::Intermediate { projection_ratio, .. } => projection_ratio,
            RoundConfig::IntermediateUnstructured { projection_ratio, .. } => projection_ratio,
            RoundConfig::Last { projection_ratio, .. } => projection_ratio,
        }
    }

    /// The configuration of the next round, if there is one.
    pub open spec fn spec_next(self) -> Option<RoundConfig> {
        match self {
            RoundConfig::Intermediate { next, .. } => Some(*next),
            RoundConfig::IntermediateUnstructured { next, .. } => Some(*next),
            RoundConfig::Last { .. } => None,
        }
    }

    /// Number of columns the witness is laid out in: the main columns, each
    /// repeated for every value of the main witness prefix.
    pub open spec fn spec_witness_width(self) -> nat {
        self.spec_common().main_witness_columns as nat * exp2(
            self.spec_common().main_witness_prefix.length as nat,
        )
    }

    /// Height of one column of the witness.
    pub open spec fn spec_witness_height(self) -> nat {
        self.spec_common().extended_witness_length as nat / self.spec_witness_width()
    }

    /// Number of sumcheck variables that select the column and the prefix.
    pub open spec fn spec_outer_points_len(self) -> nat {
        log2(self.spec_common().main_witness_columns as nat)
            + self.spec_common().main_witness_prefix.length as nat
    }

    /// The common part of the round.
    pub fn common(&self) -> (c: &RoundConfigCommon)
        ensures
            *c == self.spec_common(),
    {
        match self {
            RoundConfig::Intermediate { common, .. } => common,
            RoundConfig::Last { common, .. } => common,
            RoundConfig::IntermediateUnstructured { common, .. } => common,
        }
    }

    /// Whether this is the last round.
    pub fn is_last(&self) -> (b: bool)
        ensures
            b == (self is Last),
    {
        match self {
            RoundConfig::Last { .. } => true,
            _ => false,
        }
    }

    /// Number of columns of the witness laid out in the extended witness.
    pub fn witness_width(&self) -> (w: usize)
        requires
            exp2(self.spec_common().main_witness_prefix.length as nat) <= usize::MAX,
            self.spec_witness_width() <= usize::MAX,
        ensures
            w == self.spec_witness_width(),
    {
        let common = self.common();
        let p = exp2_usize(common.main_witness_prefix.length);
        common.main_witness_columns * p
    }

    /// Height of one column of the witness.
    pub fn witness_height(&self) -> (h: usize)
        requires
            exp2(self.spec_common().main_witness_prefix.length as nat) <= usize::MAX,
            0 < self.spec_witness_width() <= usize::MAX,
        ensures
            h == self.spec_witness_height(),
    {
        self.common().extended_witness_length / self.witness_width()
    }

    /// The projection ratio of the round.
    pub fn projection_ratio(&self) -> (r: usize)
        ensures
            r == self.spec_projection_ratio(),
    {
        match self {
            RoundConfig::Intermediate { projection_ratio, .. } => *projection_ratio,
            RoundConfig::IntermediateUnstructured { projection_ratio, .. } => *projection_ratio,
            RoundConfig::Last { projection_ratio, .. } => *projection_ratio,
        }
    }

    /// Height that each projected column is projected to.
    pub fn projection_height(&self) -> (h: usize)
        ensures
            h == PROJECTION_HEIGHT,
    {
        PROJECTION_HEIGHT
    }

    /// Number of sumcheck variables that select the column and the prefix:
    /// `log2(main_witness_columns) + main_witness_prefix.length`.
    pub fn outer_points_len(&self) -> (n: usize)
        requires
            self.spec_common().main_witness_columns > 0,
            self.spec_outer_points_len() <= usize::MAX,
        ensures
            n == self.spec_outer_points_len(),
    {
        let common = self.common();
        let l = ilog2(common.main_witness_columns);
        l + common.main_witness_prefix.length
    }
}

} // verus!
