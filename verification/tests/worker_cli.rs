use rrtl_runtime::transport::RuntimeTimeout;
use rrtl_runtime::worker_cli::{WorkerCommand, WorkerConfig, run, usage};

fn args(values: &[&str]) -> Vec<String> {
    values.iter().map(|value| value.to_string()).collect()
}

/// Parses with every argument taken for a socket address.
fn parse(values: &[&str]) -> Result<WorkerConfig, String> {
    let args = args(values);
    let invalid: Vec<Option<String>> = args.iter().map(|_| None).collect();
    WorkerConfig::parse(&args, &invalid)
}

#[test]
fn parses_defaults() {
    let config = parse(&[]).unwrap();
    assert_eq!(config.transport.bind_addr, "127.0.0.1:0");
    assert_eq!(config.max_connections, None);
    assert_eq!(config.transport.read_timeout, Some(RuntimeTimeout::from_secs(30)));
    assert_eq!(config.transport.write_timeout, Some(RuntimeTimeout::from_secs(30)));
}

#[test]
fn parses_bind_and_once() {
    let config = parse(&["--bind", "127.0.0.1:9000", "--once"]).unwrap();
    assert_eq!(config.transport.bind_addr, "127.0.0.1:9000");
    assert_eq!(config.max_connections, Some(1));
}

#[test]
fn parses_max_connections_and_timeouts() {
    let config = parse(&[
        "--max-connections",
        "3",
        "--read-timeout-ms",
        "none",
        "--write-timeout-ms",
        "250",
    ])
    .unwrap();
    assert_eq!(config.max_connections, Some(3));
    assert_eq!(config.transport.read_timeout, None);
    assert_eq!(config.transport.write_timeout, Some(RuntimeTimeout::from_millis(250)));
}

#[test]
fn rejects_invalid_max_connections() {
    let err = parse(&["--max-connections", "0"]).unwrap_err();
    assert!(err.contains("greater than zero"));
}

#[test]
fn rejects_duplicate_connection_bounds() {
    let err = parse(&["--once", "--max-connections", "2"]).unwrap_err();
    assert!(err.contains("cannot be used more than once"));
}

#[test]
fn rejects_invalid_timeout() {
    let err = parse(&["--read-timeout-ms", "soon"]).unwrap_err();
    assert!(err.contains("invalid timeout"));
}

#[test]
fn rejects_missing_values() {
    let err = parse(&["--bind"]).unwrap_err();
    assert!(err.contains("--bind requires a value"));
}

#[test]
fn rejects_invalid_bind_addresses() {
    let args = args(&["--bind", "nowhere"]);
    let invalid = vec![None, Some("invalid socket address syntax".to_string())];
    let err = WorkerConfig::parse(&args, &invalid).unwrap_err();
    assert_eq!(err, "invalid --bind socket address: invalid socket address syntax");
}

#[test]
fn quotes_numbers_that_do_not_parse() {
    let err = parse(&["--max-connections", "many"]).unwrap_err();
    assert_eq!(err, "invalid --max-connections value: invalid digit found in string");
    let err = parse(&["--write-timeout-ms", "99999999999999999999"]).unwrap_err();
    assert_eq!(
        err,
        "invalid timeout value `99999999999999999999`: number too large to fit in target type"
    );
}

#[test]
fn numbers_may_have_a_plus_sign() {
    assert_eq!(parse(&["--max-connections", "+7"]).unwrap().max_connections, Some(7));
    assert!(parse(&["--max-connections", "-7"]).is_err());
    assert!(parse(&["--max-connections", "+"]).is_err());
}

#[test]
fn rejects_unknown_arguments() {
    let err = parse(&["--fast"]).unwrap_err();
    assert_eq!(err, format!("unknown argument `--fast`\n{}", usage()));
}

#[test]
fn help_is_given_wherever_it_is_asked_for() {
    let args = args(&["--bind", "-h"]);
    let invalid = vec![None, None];
    assert_eq!(run(&args, &invalid), Ok(WorkerCommand::Help(usage())));
}

#[test]
fn arguments_decide_how_connections_are_served() {
    let args = args(&["--once"]);
    match run(&args, &vec![None]).unwrap() {
        WorkerCommand::Serve(config) => assert_eq!(config.max_connections, Some(1)),
        WorkerCommand::Help(_) => panic!("help was not asked for"),
    }
    assert!(run(&args, &vec![None]).is_ok());
}
