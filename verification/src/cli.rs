//! The command-line grammar of the executable.
use vstd::prelude::*;
use crate::arith::{exp2, exp2_usize, lemma_exp2_below_bits};
use crate::config::Mode;
use crate::text::{
    ascii_lowercase, decimal, decimal_string, lowercase_eq, parse_usize, parse_usize_spec,
    starts_with, str_eq,
};

verus! {

/// The values that the command line sets; what it does not set stays `None`.
pub struct CliConfig {
    pub rank: Option<usize>,
    pub witness_dim: Option<usize>,
    pub mode: Option<Mode>,
}

/// What the command line asks for.
pub enum CliCommand {
    /// Run the protocol with these settings.
    Run(CliConfig),
    /// Print the usage and stop.
    Help,
}

/// The mode that `value` names, case-insensitively: `snark`, `vdf`, or one of
/// `folding`, `folding_scheme`, `folding-scheme`.
pub open spec fn parse_mode_spec(value: Seq<char>) -> Result<Mode, Seq<char>> {
    let l = ascii_lowercase(value);
    if l == "snark"@ {
        Ok(Mode::SNARK)
    } else if l == "vdf"@ {
        Ok(Mode::VDF)
    } else if l == "folding"@ || l == "folding_scheme"@ || l == "folding-scheme"@ {
        Ok(Mode::FOLDING_SCHEME)
    } else {
        Err("invalid mode value: "@ + value + " (expected one of: snark, vdf, folding-scheme)"@)
    }
}

/// The witness dimension `2^k` for the logarithm `k` that `value` spells,
/// which must be below the word size.
pub open spec fn parse_witness_dim_log_spec(value: Seq<char>) -> Result<usize, Seq<char>> {
    match parse_usize_spec(value) {
        None => Err("invalid witness dim log value: "@ + value),
        Some(k) => if k >= usize::BITS {
            Err("witness dim log is too large for this platform: "@ + decimal(k as nat))
        } else {
            Ok(exp2(k as nat) as usize)
        },
    }
}

/// The rank that `value` spells.
pub open spec fn parse_rank_spec(value: Seq<char>) -> Result<usize, Seq<char>> {
    match parse_usize_spec(value) {
        None => Err("invalid rank value: "@ + value),
        Some(r) => Ok(r),
    }
}

/// The configuration with `rank` set.
pub open spec fn with_rank(cfg: CliConfig, rank: usize) -> CliConfig {
    CliConfig { rank: Some(rank), ..cfg }
}

/// The configuration with `witness_dim` set.
pub open spec fn with_witness_dim(cfg: CliConfig, witness_dim: usize) -> CliConfig {
    CliConfig { witness_dim: Some(witness_dim), ..cfg }
}

/// The configuration with `mode` set.
pub open spec fn with_mode(cfg: CliConfig, mode: Mode) -> CliConfig {
    CliConfig { mode: Some(mode), ..cfg }
}

/// What the arguments from position `i` on ask for, given the configuration
/// `cfg` that the arguments before set. A later setting of a value overrides
/// an earlier one; `--help` stops at once.
pub open spec fn parse_cli_spec(args: Seq<Seq<char>>, i: nat, cfg: CliConfig) -> Result<
    CliCommand,
    Seq<char>,
>
    decreases args.len() - i,
{
    if i >= args.len() {
        Ok(CliCommand::Run(cfg))
    } else {
        let arg = args[i as int];
        if arg == "--rank"@ || arg == "-r"@ {
            if i + 1 >= args.len() {
                Err("missing value for --rank"@)
            } else {
                match parse_rank_spec(args[i + 1 as int]) {
                    Ok(r) => parse_cli_spec(args, i + 2, with_rank(cfg, r)),
                    Err(e) => Err(e),
                }
            }
        } else if "--rank="@.is_prefix_of(arg) {
            match parse_rank_spec(arg.skip("--rank="@.len() as int)) {
                Ok(r) => parse_cli_spec(args, i + 1, with_rank(cfg, r)),
                Err(e) => Err(e),
            }
        } else if arg == "--wit-dim-log"@ || arg == "-w"@ {
            if i + 1 >= args.len() {
                Err("missing value for --wit-dim-log"@)
            } else {
                match parse_witness_dim_log_spec(args[i + 1 as int]) {
                    Ok(d) => parse_cli_spec(args, i + 2, with_witness_dim(cfg, d)),
                    Err(e) => Err(e),
                }
            }
        } else if "--wit-dim-log="@.is_prefix_of(arg) {
            match parse_witness_dim_log_spec(arg.skip("--wit-dim-log="@.len() as int)) {
                Ok(d) => parse_cli_spec(args, i + 1, with_witness_dim(cfg, d)),
                Err(e) => Err(e),
            }
        } else if arg == "--mode"@ || arg == "-m"@ {
            if i + 1 >= args.len() {
                Err("missing value for --mode"@)
            } else {
                match parse_mode_spec(args[i + 1 as int]) {
                    Ok(m) => parse_cli_spec(args, i + 2, with_mode(cfg, m)),
                    Err(e) => Err(e),
                }
            }
        } else if "--mode="@.is_prefix_of(arg) {
            match parse_mode_spec(arg.skip("--mode="@.len() as int)) {
                Ok(m) => parse_cli_spec(args, i + 1, with_mode(cfg, m)),
                Err(e) => Err(e),
            }
        } else if arg == "--help"@ || arg == "-h"@ {
            Ok(CliCommand::Help)
        } else {
            Err("unknown argument: "@ + arg)
        }
    }
}

/// The character views of the arguments.
pub open spec fn arg_views(args: Seq<String>) -> Seq<Seq<char>> {
    args.map_values(|a: String| a@)
}

/// The result of a parse, with the error message taken by its characters.
pub open spec fn result_view<T>(r: Result<T, String>) -> Result<T, Seq<char>> {
    match r {
        Ok(t) => Ok(t),
        Err(e) => Err(e@),
    }
}

/// `a` followed by `b`.
fn concat_str(a: &str, b: &str) -> (s: String)
    ensures
        s@ == a@ + b@,
{
    let mut s = String::from_str(a);
    s.append(b);
    s
}

/// The mode that `value` names (see [`parse_mode_spec`]).
pub fn parse_mode(value: &str) -> (r: Result<Mode, String>)
    ensures
        result_view(r) == parse_mode_spec(value@),
{
    proof {
        reveal_strlit("snark");
        reveal_strlit("vdf");
        reveal_strlit("folding");
        reveal_strlit("folding_scheme");
        reveal_strlit("folding-scheme");
    }
    if lowercase_eq(value, "snark") {
        Ok(Mode::SNARK)
    } else if lowercase_eq(value, "vdf") {
        Ok(Mode::VDF)
    } else if lowercase_eq(value, "folding") || lowercase_eq(value, "folding_scheme")
        || lowercase_eq(value, "folding-scheme") {
        Ok(Mode::FOLDING_SCHEME)
    } else {
        let mut e = String::from_str("invalid mode value: ");
        e.append(value);
        e.append(" (expected one of: snark, vdf, folding-scheme)");
        Err(e)
    }
}

/// The witness dimension `2^k` for the logarithm `k` that `value` spells
/// (see [`parse_witness_dim_log_spec`]).
pub fn parse_witness_dim_log(value: &str) -> (r: Result<usize, String>)
    ensures
        result_view(r) == parse_witness_dim_log_spec(value@),
{
    let log_dim = match parse_usize(value) {
        Some(k) => k,
        None => {
            return Err(concat_str("invalid witness dim log value: ", value));
        },
    };
    if log_dim >= usize::BITS as usize {
        let mut e = String::from_str("witness dim log is too large for this platform: ");
        let digits = decimal_string(log_dim);
        e.append(digits.as_str());
        return Err(e);
    }
    proof {
        lemma_exp2_below_bits(log_dim as nat);
    }
    Ok(exp2_usize(log_dim))
}

/// The rank that `value` spells.
fn parse_rank(value: &str) -> (r: Result<usize, String>)
    ensures
        result_view(r) == parse_rank_spec(value@),
{
    match parse_usize(value) {
        Some(r) => Ok(r),
        None => Err(concat_str("invalid rank value: ", value)),
    }
}

/// The part of `arg` after its first `n` characters.
fn rest_of(arg: &str, n: usize) -> (s: &str)
    requires
        n <= arg@.len(),
    ensures
        s@ == arg@.skip(n as int),
{
    let s = arg.substring_char(n, arg.unicode_len());
    proof {
        assert(s@ =~= arg@.skip(n as int));
    }
    s
}

/// What the arguments (without the program name) ask for (see
/// [`parse_cli_spec`]).
pub fn parse_cli_config(args: &Vec<String>) -> (r: Result<CliCommand, String>)
    ensures
        result_view(r) == parse_cli_spec(
            arg_views(args@),
            0,
            CliConfig { rank: None, witness_dim: None, mode: None },
        ),
{
    let ghost views = arg_views(args@);
    let ghost start = CliConfig { rank: None, witness_dim: None, mode: None };
    let mut cfg = CliConfig { rank: None, witness_dim: None, mode: None };
    let mut i: usize = 0;
    while i < args.len()
        invariant
            views == arg_views(args@),
            start == (CliConfig { rank: None, witness_dim: None, mode: None }),
            views.len() == args@.len(),
            i <= args@.len(),
            parse_cli_spec(views, 0, start) == parse_cli_spec(views, i as nat, cfg),
        decreases args@.len() - i,
    {
        let arg = args[i].as_str();
        let ghost av = views[i as int];
        assert(av == arg@);
        if str_eq(arg, "--rank") || str_eq(arg, "-r") {
            if i + 1 >= args.len() {
                return Err(String::from_str("missing value for --rank"));
            }
            let value = args[i + 1].as_str();
            assert(views[i + 1] == value@);
            match parse_rank(value) {
                Ok(r) => {
                    cfg = CliConfig { rank: Some(r), ..cfg };
                },
                Err(e) => {
                    return Err(e);
                },
            }
            i = i + 2;
        } else if starts_with(arg, "--rank=") {
            let value = rest_of(arg, "--rank=".unicode_len());
            match parse_rank(value) {
                Ok(r) => {
                    cfg = CliConfig { rank: Some(r), ..cfg };
                },
                Err(e) => {
                    return Err(e);
                },
            }
            i = i + 1;
        } else if str_eq(arg, "--wit-dim-log") || str_eq(arg, "-w") {
            if i + 1 >= args.len() {
                return Err(String::from_str("missing value for --wit-dim-log"));
            }
            let value = args[i + 1].as_str();
            assert(views[i + 1] == value@);
            match parse_witness_dim_log(value) {
                Ok(d) => {
                    cfg = CliConfig { witness_dim: Some(d), ..cfg };
                },
                Err(e) => {
                    return Err(e);
                },
            }
            i = i + 2;
        } else if starts_with(arg, "--wit-dim-log=") {
            let value = rest_of(arg, "--wit-dim-log=".unicode_len());
            match parse_witness_dim_log(value) {
                Ok(d) => {
                    cfg = CliConfig { witness_dim: Some(d), ..cfg };
                },
                Err(e) => {
                    return Err(e);
                },
            }
            i = i + 1;
        } else if str_eq(arg, "--mode") || str_eq(arg, "-m") {
            if i + 1 >= args.len() {
                return Err(String::from_str("missing value for --mode"));
            }
            let value = args[i + 1].as_str();
            assert(views[i + 1] == value@);
            match parse_mode(value) {
                Ok(m) => {
                    cfg = CliConfig { mode: Some(m), ..cfg };
                },
                Err(e) => {
                    return Err(e);
                },
            }
            i = i + 2;
        } else if starts_with(arg, "--mode=") {
            let value = rest_of(arg, "--mode=".unicode_len());
            match parse_mode(value) {
                Ok(m) => {
                    cfg = CliConfig { mode: Some(m), ..cfg };
                },
                Err(e) => {
                    return Err(e);
                },
            }
            i = i + 1;
        } else if str_eq(arg, "--help") || str_eq(arg, "-h") {
            return Ok(CliCommand::Help);
        } else {
            return Err(concat_str("unknown argument: ", arg));
        }
    }
    Ok(CliCommand::Run(cfg))
}

} // verus!

verus! {

/// Each setting on the command line sets its value whatever the arguments
/// before it set, and leaves the other two values as they were; so a later
/// setting of a value overrides an earlier one. Stated for every form of
/// every flag: `-r x`, `--rank x`, `--rank=x`, `-w x`, `--wit-dim-log x`,
/// `--wit-dim-log=x`, `-m x`, `--mode x`, `--mode=x`.
pub proof fn lemma_later_setting_overrides(args: Seq<Seq<char>>, i: nat, cfg: CliConfig)
    requires
        i < args.len(),
    ensures
        (args[i as int] == "-r"@ || args[i as int] == "--rank"@) && i + 1 < args.len()
            ==> match parse_rank_spec(args[(i + 1) as int]) {
            Ok(r) => parse_cli_spec(args, i, cfg) == parse_cli_spec(
                args,
                i + 2,
                CliConfig { rank: Some(r), witness_dim: cfg.witness_dim, mode: cfg.mode },
            ),
            Err(e) => parse_cli_spec(args, i, cfg) == Err::<CliCommand, Seq<char>>(e),
        },
        (args[i as int] == "-w"@ || args[i as int] == "--wit-dim-log"@) && i + 1 < args.len()
            ==> match parse_witness_dim_log_spec(args[(i + 1) as int]) {
            Ok(d) => parse_cli_spec(args, i, cfg) == parse_cli_spec(
                args,
                i + 2,
                CliConfig { rank: cfg.rank, witness_dim: Some(d), mode: cfg.mode },
            ),
            Err(e) => parse_cli_spec(args, i, cfg) == Err::<CliCommand, Seq<char>>(e),
        },
        (args[i as int] == "-m"@ || args[i as int] == "--mode"@) && i + 1 < args.len()
            ==> match parse_mode_spec(args[(i + 1) as int]) {
            Ok(m) => parse_cli_spec(args, i, cfg) == parse_cli_spec(
                args,
                i + 2,
                CliConfig { rank: cfg.rank, witness_dim: cfg.witness_dim, mode: Some(m) },
            ),
            Err(e) => parse_cli_spec(args, i, cfg) == Err::<CliCommand, Seq<char>>(e),
        },
        "--rank="@.is_prefix_of(args[i as int]) ==> match parse_rank_spec(
            args[i as int].skip(7),
        ) {
            Ok(r) => parse_cli_spec(args, i, cfg) == parse_cli_spec(
                args,
                i + 1,
                CliConfig { rank: Some(r), witness_dim: cfg.witness_dim, mode: cfg.mode },
            ),
            Err(e) => parse_cli_spec(args, i, cfg) == Err::<CliCommand, Seq<char>>(e),
        },
        "--wit-dim-log="@.is_prefix_of(args[i as int]) ==> match parse_witness_dim_log_spec(
            args[i as int].skip(14),
        ) {
            Ok(d) => parse_cli_spec(args, i, cfg) == parse_cli_spec(
                args,
                i + 1,
                CliConfig { rank: cfg.rank, witness_dim: Some(d), mode: cfg.mode },
            ),
            Err(e) => parse_cli_spec(args, i, cfg) == Err::<CliCommand, Seq<char>>(e),
        },
        "--mode="@.is_prefix_of(args[i as int]) ==> match parse_mode_spec(args[i as int].skip(7)) {
            Ok(m) => parse_cli_spec(args, i, cfg) == parse_cli_spec(
                args,
                i + 1,
                CliConfig { rank: cfg.rank, witness_dim: cfg.witness_dim, mode: Some(m) },
            ),
            Err(e) => parse_cli_spec(args, i, cfg) == Err::<CliCommand, Seq<char>>(e),
        },
        (args[i as int] == "-h"@ || args[i as int] == "--help"@) ==> parse_cli_spec(args, i, cfg)
            == Ok::<CliCommand, Seq<char>>(CliCommand::Help),
{
    reveal_strlit("-r");
    reveal_strlit("--rank");
    reveal_strlit("--rank=");
    reveal_strlit("-w");
    reveal_strlit("--wit-dim-log");
    reveal_strlit("--wit-dim-log=");
    reveal_strlit("-m");
    reveal_strlit("--mode");
    reveal_strlit("--mode=");
    reveal_strlit("-h");
    reveal_strlit("--help");
    let a = args[i as int];
    if a == "-w"@ || a == "--wit-dim-log"@ || a == "-m"@ || a == "--mode"@ {
        assert(a != "-r"@ && a != "--rank"@) by {
            if a.len() == 2 {
                assert(a[1] != "-r"@[1]);
            } else {
                assert(a[2] != "--rank"@[2]);
            }
        }
        assert(!"--rank="@.is_prefix_of(a)) by {
            if a.len() >= 7 {
                assert(a[2] != "--rank="@[2]);
            }
        }
    }
    if a == "-m"@ || a == "--mode"@ {
        assert(a != "-w"@ && a != "--wit-dim-log"@) by {
            if a.len() == 2 {
                assert(a[1] != "-w"@[1]);
            } else {
                assert(a[2] != "--wit-dim-log"@[2]);
            }
        }
        assert(!"--wit-dim-log="@.is_prefix_of(a));
    }
    if a == "-h"@ || a == "--help"@ {
        if a.len() == 2 {
            assert(a[1] != "-r"@[1] && a[1] != "-w"@[1] && a[1] != "-m"@[1]);
        } else {
            assert(a[2] != "--rank"@[2] && a[2] != "--wit-dim-log"@[2] && a[2] != "--mode"@[2]);
            assert(!"--mode="@.is_prefix_of(a)) by {
                assert(a.len() < 7);
            }
        }
        assert(!"--rank="@.is_prefix_of(a));
        assert(!"--wit-dim-log="@.is_prefix_of(a));
        assert(!"--mode="@.is_prefix_of(a));
    }
    if "--wit-dim-log="@.is_prefix_of(a) || "--mode="@.is_prefix_of(a) {
        assert(a.len() >= 7);
        if "--mode="@.is_prefix_of(a) {
            assert(a.subrange(0, 7)[2] == a[2]);
            assert(a[2] == 'm');
        } else {
            assert(a.subrange(0, 14)[2] == a[2]);
            assert(a[2] == 'w');
        }
        assert(a != "-r"@ && a != "--rank"@ && a != "-w"@ && a != "-m"@);
        assert(a[2] != "--rank"@[2]);
        assert(!"--rank="@.is_prefix_of(a)) by {
            assert(a[2] != "--rank="@[2]);
        }
        if "--mode="@.is_prefix_of(a) {
            assert(a != "--wit-dim-log"@) by {
                assert(a[2] != "--wit-dim-log"@[2]);
            }
            assert(!"--wit-dim-log="@.is_prefix_of(a)) by {
                assert(a[2] != "--wit-dim-log="@[2]);
            }
            assert(a != "--mode"@) by {
                assert(a.len() != 6);
            }
            assert(a != "-m"@);
            assert(a != "-w"@);
            assert(a.skip("--mode="@.len() as int) == a.skip(7));
            assert(parse_cli_spec(args, i, cfg) == match parse_mode_spec(a.skip(7)) {
                Ok(m) => parse_cli_spec(args, i + 1, with_mode(cfg, m)),
                Err(e) => Err(e),
            });
        } else {
            assert(a != "--wit-dim-log"@) by {
                assert(a.len() != 13);
            }
        }
    }
}

/// Parsing the arguments without any settings gives the configuration where
/// nothing is set.
pub proof fn lemma_no_arguments(cfg: CliConfig)
    ensures
        parse_cli_spec(Seq::<Seq<char>>::empty(), 0, cfg) == Ok::<CliCommand, Seq<char>>(
            CliCommand::Run(cfg),
        ),
{
}

} // verus!
