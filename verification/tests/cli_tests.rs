use salsaa::cli::{parse_cli_config, parse_mode, parse_witness_dim_log, CliCommand};
use salsaa::config::Mode;

fn args(v: &[&str]) -> Vec<String> {
    v.iter().map(|s| s.to_string()).collect()
}

#[test]
fn parse_mode_accepts_names_in_any_case() {
    assert_eq!(parse_mode("snark"), Ok(Mode::SNARK));
    assert_eq!(parse_mode("SNARK"), Ok(Mode::SNARK));
    assert_eq!(parse_mode("Vdf"), Ok(Mode::VDF));
    assert_eq!(parse_mode("folding"), Ok(Mode::FOLDING_SCHEME));
    assert_eq!(parse_mode("folding_scheme"), Ok(Mode::FOLDING_SCHEME));
    assert_eq!(parse_mode("Folding-Scheme"), Ok(Mode::FOLDING_SCHEME));
}

#[test]
fn parse_mode_rejects_other_values() {
    assert_eq!(
        parse_mode("stark"),
        Err("invalid mode value: stark (expected one of: snark, vdf, folding-scheme)".to_string())
    );
    assert_eq!(
        parse_mode(""),
        Err("invalid mode value:  (expected one of: snark, vdf, folding-scheme)".to_string())
    );
    assert_eq!(
        parse_mode("snarks"),
        Err("invalid mode value: snarks (expected one of: snark, vdf, folding-scheme)".to_string())
    );
}

#[test]
fn parse_witness_dim_log_gives_power_of_two() {
    assert_eq!(parse_witness_dim_log("26"), Ok(1 << 26));
    assert_eq!(parse_witness_dim_log("0"), Ok(1));
    assert_eq!(parse_witness_dim_log("+3"), Ok(8));
    assert_eq!(parse_witness_dim_log("007"), Ok(128));
    let top = (usize::BITS - 1).to_string();
    assert_eq!(parse_witness_dim_log(&top), Ok(1usize << (usize::BITS - 1)));
}

#[test]
fn parse_witness_dim_log_errors() {
    assert_eq!(
        parse_witness_dim_log("x"),
        Err("invalid witness dim log value: x".to_string())
    );
    assert_eq!(
        parse_witness_dim_log("-1"),
        Err("invalid witness dim log value: -1".to_string())
    );
    assert_eq!(
        parse_witness_dim_log(""),
        Err("invalid witness dim log value: ".to_string())
    );
    assert_eq!(
        parse_witness_dim_log("+"),
        Err("invalid witness dim log value: +".to_string())
    );
    let bits = usize::BITS.to_string();
    assert_eq!(
        parse_witness_dim_log(&bits),
        Err(format!("witness dim log is too large for this platform: {}", usize::BITS))
    );
    assert_eq!(
        parse_witness_dim_log("0100"),
        Err("witness dim log is too large for this platform: 100".to_string())
    );
    assert_eq!(
        parse_witness_dim_log("99999999999999999999999"),
        Err("invalid witness dim log value: 99999999999999999999999".to_string())
    );
}

fn run(v: &[&str]) -> (Option<usize>, Option<usize>, Option<Mode>) {
    match parse_cli_config(&args(v)) {
        Ok(CliCommand::Run(c)) => (c.rank, c.witness_dim, c.mode),
        Ok(CliCommand::Help) => panic!("unexpected help"),
        Err(e) => panic!("unexpected error {e}"),
    }
}

fn err(v: &[&str]) -> String {
    match parse_cli_config(&args(v)) {
        Err(e) => e,
        Ok(_) => panic!("expected an error"),
    }
}

#[test]
fn cli_empty_sets_nothing() {
    assert_eq!(run(&[]), (None, None, None));
}

#[test]
fn cli_readme_example() {
    assert_eq!(
        run(&["-r", "11", "-w", "26", "-m", "snark"]),
        (Some(11), Some(1 << 26), Some(Mode::SNARK))
    );
}

#[test]
fn cli_long_and_equals_forms() {
    assert_eq!(
        run(&["--rank=9", "--wit-dim-log=20", "--mode=folding-scheme"]),
        (Some(9), Some(1 << 20), Some(Mode::FOLDING_SCHEME))
    );
    assert_eq!(
        run(&["--rank", "9", "--wit-dim-log", "20", "--mode", "VDF"]),
        (Some(9), Some(1 << 20), Some(Mode::VDF))
    );
}

#[test]
fn cli_later_value_overrides() {
    assert_eq!(run(&["-r", "3", "--rank=5"]), (Some(5), None, None));
}

#[test]
fn cli_help_stops_parsing() {
    assert!(matches!(
        parse_cli_config(&args(&["-r", "3", "--help", "--bogus"])),
        Ok(CliCommand::Help)
    ));
    assert!(matches!(parse_cli_config(&args(&["-h"])), Ok(CliCommand::Help)));
}

#[test]
fn cli_errors() {
    assert_eq!(err(&["-r"]), "missing value for --rank");
    assert_eq!(err(&["--wit-dim-log"]), "missing value for --wit-dim-log");
    assert_eq!(err(&["-m"]), "missing value for --mode");
    assert_eq!(err(&["-r", "eleven"]), "invalid rank value: eleven");
    assert_eq!(err(&["--rank="]), "invalid rank value: ");
    assert_eq!(err(&["--wit-dim-log=a"]), "invalid witness dim log value: a");
    assert_eq!(
        err(&["--mode=x"]),
        "invalid mode value: x (expected one of: snark, vdf, folding-scheme)"
    );
    assert_eq!(err(&["--verbose"]), "unknown argument: --verbose");
    assert_eq!(err(&["-r", "2", "extra"]), "unknown argument: extra");
    // the rank itself is not checked here: zero is refused when it is set
    assert_eq!(run(&["-r", "0"]), (Some(0), None, None));
}
