//! Global protocol parameters and the run-time settings that may override
//! some of them once.
use vstd::prelude::*;

verus! {

/// Ring degree.
pub const DEGREE: usize = 128;

/// Half of the ring degree: the number of quadratic-extension slots.
pub const HALF_DEGREE: usize = 64;

/// The modulus `q`.
pub const MOD_Q: u64 = 1125899906839937;

/// Number of independent batches of the unstructured projection.
pub const NOF_BATCHES: usize = 2;

/// Whether the prover runs its self-checks.
pub const DEBUG: bool = true;

/// Whether the prover estimates the hardness of the SIS instances.
pub const DEBUG_HARDNESS: bool = true;

/// The application that the protocol is run for.
#[allow(non_camel_case_types)]
#[derive(Clone, Copy, Debug, PartialEq, Eq, Structural)]
pub enum Mode {
    SNARK,
    VDF,
    FOLDING_SCHEME,
}

/// The mode used when none was set.
pub const MODE: Mode = Mode::VDF;

/// The witness dimension used when none was set (`2^20`).
pub const WITNESS_DIM: usize = 1048576;

/// Number of columns of the initial witness.
pub const WITNESS_WIDTH: usize = 2;

/// The commitment rank used when none was set.
pub const RANK: usize = 8;

/// The targeted security level in bits.
pub const EXPECTED_SEC_PARAM: usize = 128;

/// Height of the delay-function matrix.
pub const VDF_MATRIX_HEIGHT: usize = 4;

/// Bits per decomposed delay-function component.
pub const VDF_BITS: usize = 64;

/// Width of the delay-function matrix.
pub const VDF_MATRIX_WIDTH: usize = VDF_BITS * VDF_MATRIX_HEIGHT;

/// Step stride for the powers of the delay-function challenge: consecutive
/// steps are spaced `VDF_MATRIX_HEIGHT` apart.
pub const VDF_STRIDE: usize = VDF_MATRIX_HEIGHT;

/// Number of columns of the witness in the first round.
pub const NUM_COLUMNS_INITIAL: usize = 2;

/// Height that each projected column is projected to.
pub const PROJECTION_HEIGHT: usize = 256;

/// Largest projection ratio of an unstructured projection.
pub const MAX_UNSTRUCT_PROJ_RATIO: usize = 8;

/// Column height below which the unstructured rounds stop.
pub const LAST_ROUND_THRESHOLD: usize = 256;

/// The settings of one run: the rank, the witness dimension and the mode,
/// each of which may be set once. What was not set takes its default.
pub struct Settings {
    rank_override: Option<usize>,
    witness_dim_override: Option<usize>,
    mode_override: Option<Mode>,
}

/// The abstract state of [`Settings`]: which values were set, and to what.
pub struct SettingsView {
    pub rank: Option<usize>,
    pub witness_dim: Option<usize>,
    pub mode: Option<Mode>,
}

impl SettingsView {
    /// The rank in effect: the one that was set, else [`RANK`].
    pub open spec fn rank_in_effect(self) -> usize {
        match self.rank {
            Some(r) => r,
            None => RANK,
        }
    }

    /// The witness dimension in effect: the one that was set, else
    /// [`WITNESS_DIM`].
    pub open spec fn witness_dim_in_effect(self) -> usize {
        match self.witness_dim {
            Some(d) => d,
            None => WITNESS_DIM,
        }
    }

    /// The mode in effect: the one that was set, else [`MODE`].
    pub open spec fn mode_in_effect(self) -> Mode {
        match self.mode {
            Some(m) => m,
            None => MODE,
        }
    }

    /// Setting the rank: refused on zero and when a rank was set before.
    pub open spec fn after_set_rank(self, rank: usize) -> Result<SettingsView, Seq<char>> {
        if rank == 0 {
            Err("rank must be greater than 0"@)
        } else if self.rank is Some {
            Err("rank has already been set"@)
        } else {
            Ok(SettingsView { rank: Some(rank), ..self })
        }
    }

    /// Setting the witness dimension: refused on zero and when one was set
    /// before.
    pub open spec fn after_set_witness_dim(self, witness_dim: usize) -> Result<
        SettingsView,
        Seq<char>,
    > {
        if witness_dim == 0 {
            Err("witness_dim must be greater than 0"@)
        } else if self.witness_dim is Some {
            Err("witness_dim has already been set"@)
        } else {
            Ok(SettingsView { witness_dim: Some(witness_dim), ..self })
        }
    }

    /// Setting the mode: refused when a mode was set before.
    pub open spec fn after_set_mode(self, mode: Mode) -> Result<SettingsView, Seq<char>> {
        if self.mode is Some {
            Err("mode has already been set"@)
        } else {
            Ok(SettingsView { mode: Some(mode), ..self })
        }
    }
}

/// `res` is what a setter returns when its abstract effect is `effect`:
/// on success the settings become the new state, on failure they stay as
/// they were and the error carries the message.
pub open spec fn setter_outcome(
    effect: Result<SettingsView, Seq<char>>,
    res: Result<(), String>,
    before: SettingsView,
    after: SettingsView,
) -> bool {
    match res {
        Ok(_) => effect == Ok::<SettingsView, Seq<char>>(after),
        Err(e) => effect == Err::<SettingsView, Seq<char>>(e@) && after == before,
    }
}

impl View for Settings {
    type V = SettingsView;

    closed spec fn view(&self) -> SettingsView {
        SettingsView {
            rank: self.rank_override,
            witness_dim: self.witness_dim_override,
            mode: self.mode_override,
        }
    }
}

impl Settings {
    /// A rank or witness dimension, once set, is never zero.
    #[verifier::type_invariant]
    closed spec fn inv(self) -> bool {
        &&& self.rank_override != Some(0usize)
        &&& self.witness_dim_override != Some(0usize)
    }

    /// Settings in which nothing was set.
    pub fn new() -> (s: Settings)
        ensures
            s@.rank is None,
            s@.witness_dim is None,
            s@.mode is None,
    {
        Settings { rank_override: None, witness_dim_override: None, mode_override: None }
    }
}

/// Sets the rank (see [`SettingsView::after_set_rank`]).
pub fn set_rank(settings: &mut Settings, rank: usize) -> (res: Result<(), String>)
    ensures
        setter_outcome(old(settings)@.after_set_rank(rank), res, old(settings)@, final(settings)@),
{
    proof {
        use_type_invariant(&*settings);
    }
    if rank == 0 {
        return Err(String::from_str("rank must be greater than 0"));
    }
    if settings.rank_override.is_some() {
        return Err(String::from_str("rank has already been set"));
    }
    settings.rank_override = Some(rank);
    Ok(())
}

/// The rank in effect: the one that was set, else [`RANK`]; always positive.
pub fn rank(settings: &Settings) -> (r: usize)
    ensures
        r == settings@.rank_in_effect(),
        r > 0,
{
    proof {
        use_type_invariant(settings);
    }
    match settings.rank_override {
        Some(r) => r,
        None => RANK,
    }
}

/// Sets the witness dimension (see [`SettingsView::after_set_witness_dim`]).
pub fn set_witness_dim(settings: &mut Settings, witness_dim: usize) -> (res: Result<(), String>)
    ensures
        setter_outcome(
            old(settings)@.after_set_witness_dim(witness_dim),
            res,
            old(settings)@,
            final(settings)@,
        ),
{
    proof {
        use_type_invariant(&*settings);
    }
    if witness_dim == 0 {
        return Err(String::from_str("witness_dim must be greater than 0"));
    }
    if settings.witness_dim_override.is_some() {
        return Err(String::from_str("witness_dim has already been set"));
    }
    settings.witness_dim_override = Some(witness_dim);
    Ok(())
}

/// The witness dimension in effect: the one that was set, else
/// [`WITNESS_DIM`]; always positive.
pub fn witness_dim(settings: &Settings) -> (d: usize)
    ensures
        d == settings@.witness_dim_in_effect(),
        d > 0,
{
    proof {
        use_type_invariant(settings);
    }
    match settings.witness_dim_override {
        Some(d) => d,
        None => WITNESS_DIM,
    }
}

/// Sets the mode (see [`SettingsView::after_set_mode`]).
pub fn set_mode(settings: &mut Settings, mode: Mode) -> (res: Result<(), String>)
    ensures
        setter_outcome(old(settings)@.after_set_mode(mode), res, old(settings)@, final(settings)@),
{
    proof {
        use_type_invariant(&*settings);
    }
    if settings.mode_override.is_some() {
        return Err(String::from_str("mode has already been set"));
    }
    settings.mode_override = Some(mode);
    Ok(())
}

/// The mode in effect: the one that was set, else [`MODE`].
pub fn mode(settings: &Settings) -> (m: Mode)
    ensures
        m == settings@.mode_in_effect(),
{
    match settings.mode_override {
        Some(m) => m,
        None => MODE,
    }
}

/// Height of the initial witness: the witness dimension spread over
/// [`WITNESS_WIDTH`] columns.
pub fn witness_height(settings: &Settings) -> (h: usize)
    ensures
        h == settings@.witness_dim_in_effect() / WITNESS_WIDTH,
{
    witness_dim(settings) / WITNESS_WIDTH
}

/// Each value can be set once: after a successful set, the value in effect
/// is the one set, the other values are unchanged, and setting it again fails
/// with "... has already been set" whatever the new value.
pub proof fn lemma_set_once(v: SettingsView, rank: usize, dim: usize, mode: Mode, rank2: usize, dim2: usize, mode2: Mode)
    ensures
        v.after_set_rank(rank) matches Ok(w) ==> {
            &&& w.rank_in_effect() == rank
            &&& w.witness_dim == v.witness_dim && w.mode == v.mode
            &&& w.after_set_rank(rank2) == if rank2 == 0 {
                Err::<SettingsView, Seq<char>>("rank must be greater than 0"@)
            } else {
                Err::<SettingsView, Seq<char>>("rank has already been set"@)
            }
        },
        v.after_set_witness_dim(dim) matches Ok(w) ==> {
            &&& w.witness_dim_in_effect() == dim
            &&& w.rank == v.rank && w.mode == v.mode
            &&& w.after_set_witness_dim(dim2) == if dim2 == 0 {
                Err::<SettingsView, Seq<char>>("witness_dim must be greater than 0"@)
            } else {
                Err::<SettingsView, Seq<char>>("witness_dim has already been set"@)
            }
        },
        v.after_set_mode(mode) matches Ok(w) ==> {
            &&& w.mode_in_effect() == mode
            &&& w.rank == v.rank && w.witness_dim == v.witness_dim
            &&& w.after_set_mode(mode2) == Err::<SettingsView, Seq<char>>("mode has already been set"@)
        },
{
}

/// The three values are independent: setting one of them to an allowed
/// value succeeds whenever that value was not set before, whatever the others
/// are, and changes only that value.
pub proof fn lemma_set_independent(v: SettingsView, rank: usize, dim: usize, mode: Mode)
    ensures
        v.rank is None && rank > 0 ==> v.after_set_rank(rank) == Ok::<SettingsView, Seq<char>>(
            SettingsView { rank: Some(rank), witness_dim: v.witness_dim, mode: v.mode },
        ),
        v.witness_dim is None && dim > 0 ==> v.after_set_witness_dim(dim) == Ok::<
            SettingsView,
            Seq<char>,
        >(SettingsView { rank: v.rank, witness_dim: Some(dim), mode: v.mode }),
        v.mode is None ==> v.after_set_mode(mode) == Ok::<SettingsView, Seq<char>>(
            SettingsView { rank: v.rank, witness_dim: v.witness_dim, mode: Some(mode) },
        ),
        rank == 0 ==> v.after_set_rank(rank) is Err,
        dim == 0 ==> v.after_set_witness_dim(dim) is Err,
        v.rank is Some ==> v.after_set_rank(rank) is Err,
        v.witness_dim is Some ==> v.after_set_witness_dim(dim) is Err,
        v.mode is Some ==> v.after_set_mode(mode) is Err,
{
}

/// Nothing set, every value takes its default.
pub proof fn lemma_defaults(v: SettingsView)
    requires
        v.rank is None,
        v.witness_dim is None,
        v.mode is None,
    ensures
        v.rank_in_effect() == RANK,
        v.witness_dim_in_effect() == WITNESS_DIM,
        v.mode_in_effect() == MODE,
{
}

} // verus!
