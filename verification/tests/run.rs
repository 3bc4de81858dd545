use tenon::error::ErrorKind;
use tenon::tools::run::{
    apply_output_filters, command_matches_whitelist, find_shell_metacharacter,
    has_env_var_prefix, output_truncated, parse_whitelist_pattern, Run, RunArgs,
    RUN_OUTPUT_CAP,
};

fn args(command: &str) -> RunArgs {
    RunArgs {
        command: command.to_string(),
        cwd: None,
        timeout: None,
        filter: None,
        direction: None,
        limit: None,
        env: None,
    }
}

fn whitelist() -> Vec<String> {
    vec!["cargo test *".to_string(), "git status".to_string()]
}

#[test]
fn run_refuses_pipes_first() {
    let err = Run::plan(&args("ls | grep x && echo"), &whitelist()).err().unwrap();
    assert_eq!(err.kind, ErrorKind::InvalidInput);
    assert_eq!(
        err.to_message(),
        "Shell metacharacter '|' not allowed. No shell features (pipes, &&, redirects, $()). Use filter/limit/direction."
    );
    assert_eq!(find_shell_metacharacter("echo $(id)"), Some("$("));
    assert_eq!(find_shell_metacharacter("echo hi"), None);
}

#[test]
fn run_refuses_env_prefix() {
    assert!(has_env_var_prefix("FOO=1 cargo test"));
    assert!(!has_env_var_prefix("cargo test --features=x"));
    let err = Run::plan(&args("RUST_LOG=debug cargo run"), &whitelist()).err().unwrap();
    assert_eq!(
        err.to_message(),
        "Env var prefix not allowed. No shell features (VAR=value cmd). Use env field."
    );
}

#[test]
fn run_refuses_unbalanced_quotes_and_empty() {
    let err = Run::plan(&args("echo 'oops"), &whitelist()).err().unwrap();
    assert_eq!(err.to_message(), "Failed to parse command: 'echo 'oops'");
    let err = Run::plan(&args("   "), &whitelist()).err().unwrap();
    assert_eq!(err.to_message(), "Empty command");
}

#[test]
fn run_plan_splits_words_and_checks_whitelist() {
    let plan = Run::plan(&args("cargo test --lib 'a b'"), &whitelist()).ok().unwrap();
    assert_eq!(plan.program, "cargo");
    assert_eq!(plan.args, vec!["test".to_string(), "--lib".to_string(), "a b".to_string()]);
    assert_eq!(plan.timeout_secs, 30);
    assert!(!plan.needs_safety_check);
    let mut with_timeout = args("rm -rf build");
    with_timeout.timeout = Some(5);
    let plan = Run::plan(&with_timeout, &whitelist()).ok().unwrap();
    assert_eq!(plan.timeout_secs, 5);
    assert!(plan.needs_safety_check);
}

#[test]
fn run_lone_star_is_not_a_wildcard() {
    let tokens = vec!["ls".to_string()];
    assert!(!command_matches_whitelist(&tokens, &vec!["*".to_string()]));
    let (words, _) = parse_whitelist_pattern("git status");
    assert_eq!(words, vec!["git".to_string(), "status".to_string()]);
    assert!(command_matches_whitelist(
        &vec!["git".to_string(), "status".to_string()],
        &whitelist()
    ));
}

#[test]
fn run_filters_tail_and_head() {
    let out = "a ok\nb\nc ok\nd ok\n";
    assert_eq!(apply_output_filters(out, Some("ok"), Some("tail"), Some(2)), "c ok\nd ok");
    assert_eq!(apply_output_filters(out, Some("ok"), Some("head"), Some(2)), "a ok\nc ok");
    assert_eq!(apply_output_filters(out, None, None, Some(1)), "a ok");
    assert_eq!(apply_output_filters(out, None, None, None), "a ok\nb\nc ok\nd ok");
}

#[test]
fn run_output_cap_counts_both_streams() {
    let big = "x".repeat(RUN_OUTPUT_CAP);
    assert!(!output_truncated(&big, ""));
    assert!(output_truncated(&big, "y"));
}
