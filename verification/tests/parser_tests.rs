use sdag::sscheduler::parser::{parse_args, ErrorKind, Opt, CLI};

#[test]
fn parse_from_args() {
    let iter = ["sscheduler", "--pipeline=pipeline.json", "--wait-seconds=2"];
    let cli = CLI::try_parse_from(&iter).unwrap();
    assert_eq!(cli.pipeline, "pipeline.json");
    assert_eq!(cli.wait_seconds, 2);
    assert_eq!(cli.max_concurrency, 0);
    assert_eq!(cli.restart, false);
}

#[test]
#[should_panic]
fn pipeline_is_missing() {
    let iter = ["sscheduler", "--wait-seconds=2"];
    CLI::try_parse_from(&iter).unwrap();
}

#[test]
fn parse_log_level() {
    let iter = [
        "sscheduler",
        "--pipeline=pipeline.json",
        "--log-level=debug",
    ];
    let cli = CLI::try_parse_from(&iter).unwrap();
    assert_eq!(cli.log_level, String::from("debug"));
}

#[test]
fn parse_max_concurrency() {
    let iter = [
        "sscheduler",
        "--pipeline=pipeline.json",
        "--max-concurrency=3",
    ];
    let cli = CLI::try_parse_from(&iter).unwrap();
    assert_eq!(cli.max_concurrency, 3);
}

#[test]
fn parse_restart() {
    let iter = ["sscheduler", "--pipeline=pipeline.json", "--restart"];
    let cli = CLI::try_parse_from(&iter).unwrap();
    assert!(cli.restart);
}

#[test]
fn parse_local() {
    let iter = ["sscheduler", "--pipeline=pipeline.json", "--local"];
    let cli = CLI::try_parse_from(&iter).unwrap();
    assert!(cli.local);
}

#[test]
fn parse_args_with_local() {
    let argv = vec![
        "sscheduler".to_string(),
        "--pipeline=pipeline.json".to_string(),
        "--local".to_string(),
        "--wait-seconds=5".to_string(),
    ];
    let args = parse_args(argv).unwrap();
    assert!(args.local);
    assert_eq!(args.wait_seconds, 0);
}

#[test]
fn parse_short_and_separate_values() {
    let cli = CLI::try_parse_from(&["sscheduler", "-p", "dag.json", "-w", "7", "-m3", "-l=warn", "-r"])
        .unwrap();
    assert_eq!(cli.pipeline, "dag.json");
    assert_eq!(cli.wait_seconds, 7);
    assert_eq!(cli.max_concurrency, 3);
    assert_eq!(cli.log_level, "warn");
    assert!(cli.restart);
    assert!(!cli.local);
}

#[test]
fn parse_defaults() {
    let cli = CLI::try_parse_from(&["sscheduler", "--pipeline", "p.json"]).unwrap();
    assert_eq!(cli.wait_seconds, 5);
    assert_eq!(cli.max_concurrency, 0);
    assert_eq!(cli.log_level, "info");
    assert!(!cli.restart);
    assert!(!cli.local);
}

#[test]
fn parse_errors() {
    let e = CLI::try_parse_from(&["sscheduler"]).unwrap_err();
    assert_eq!(e.kind, ErrorKind::MissingPipeline);
    let e = CLI::try_parse_from(&["sscheduler", "--pipeline"]).unwrap_err();
    assert_eq!(e.kind, ErrorKind::MissingValue(Opt::Pipeline));
    let e = CLI::try_parse_from(&["sscheduler", "-p", "a", "-p", "b"]).unwrap_err();
    assert_eq!(e.kind, ErrorKind::Repeated(Opt::Pipeline));
    let e = CLI::try_parse_from(&["sscheduler", "-p", "a", "--wait-seconds=x1"]).unwrap_err();
    assert_eq!(e.kind, ErrorKind::InvalidValue(Opt::WaitSeconds));
    assert_eq!(e.token, "x1");
    let e = CLI::try_parse_from(&["sscheduler", "-p", "a", "--verbose"]).unwrap_err();
    assert_eq!(e.kind, ErrorKind::UnexpectedArgument);
    assert_eq!(e.token, "--verbose");
    let e = CLI::try_parse_from(&["sscheduler", "-p", "a", "--restart=yes"]).unwrap_err();
    assert_eq!(e.kind, ErrorKind::UnexpectedArgument);
    let e = CLI::try_parse_from(&["sscheduler", "-p", "a", "-w", "99999999999999999999"]).unwrap_err();
    assert_eq!(e.kind, ErrorKind::InvalidValue(Opt::WaitSeconds));
}

#[test]
fn parse_number_with_plus_sign() {
    let cli = CLI::try_parse_from(&["sscheduler", "-p", "a", "--wait-seconds=+12"]).unwrap();
    assert_eq!(cli.wait_seconds, 12);
}

#[test]
fn help_and_version_requests() {
    for flag in ["--help", "-h"] {
        let e = CLI::try_parse_from(&["sscheduler", flag]).unwrap_err();
        assert_eq!(e.kind, ErrorKind::DisplayHelp);
        assert!(e.token.starts_with("Slurm job scheduler\n\nUsage: sscheduler [OPTIONS] --pipeline <FILE>"));
        assert!(e.token.contains("  -V, --version"));
    }
    for flag in ["--version", "-V"] {
        let e = CLI::try_parse_from(&["sscheduler", "-p", "x.json", flag]).unwrap_err();
        assert_eq!(e.kind, ErrorKind::DisplayVersion);
        assert_eq!(e.token, "sscheduler 0.1.0\n");
    }
    let e = parse_args(vec!["sscheduler".to_string(), "--help".to_string()]).unwrap_err();
    assert_eq!(e.kind, ErrorKind::DisplayHelp);
    let e = CLI::try_parse_from(&["sscheduler", "--bogus", "--help"]).unwrap_err();
    assert_eq!(e.kind, ErrorKind::UnexpectedArgument);
}

#[test]
fn stacked_short_flags() {
    let cli = CLI::try_parse_from(&["sscheduler", "-rp", "dag.json"]).unwrap();
    assert!(cli.restart);
    assert_eq!(cli.pipeline, "dag.json");
    let cli = CLI::try_parse_from(&["sscheduler", "-rpdag.json", "-w3"]).unwrap();
    assert!(cli.restart);
    assert_eq!(cli.pipeline, "dag.json");
    assert_eq!(cli.wait_seconds, 3);
    let cli = CLI::try_parse_from(&["sscheduler", "-rp=dag.json"]).unwrap();
    assert_eq!(cli.pipeline, "dag.json");
    let cli = CLI::try_parse_from(&["sscheduler", "-pr"]).unwrap();
    assert_eq!(cli.pipeline, "r");
    assert!(!cli.restart);
    let e = CLI::try_parse_from(&["sscheduler", "-p", "a", "-rr"]).unwrap_err();
    assert_eq!(e.kind, ErrorKind::Repeated(Opt::Restart));
    let e = CLI::try_parse_from(&["sscheduler", "-p", "a", "-rx"]).unwrap_err();
    assert_eq!(e.kind, ErrorKind::UnexpectedArgument);
    assert_eq!(e.token, "-rx");
    let e = CLI::try_parse_from(&["sscheduler", "-rh"]).unwrap_err();
    assert_eq!(e.kind, ErrorKind::DisplayHelp);
    let e = CLI::try_parse_from(&["sscheduler", "-p", "a", "-r=1"]).unwrap_err();
    assert_eq!(e.kind, ErrorKind::UnexpectedArgument);
}
