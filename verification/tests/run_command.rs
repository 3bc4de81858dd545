use tenon::tools::run_command::{
    apply_output_filters, command_matches_whitelist, parse_whitelist_pattern, plan_run_command,
    safety_verdict, truncate_output, ArgAllowance, RunCommandArgs, RunCommandError, OUTPUT_CAP,
};

#[test]
fn test_parse_whitelist_exact() {
    let (tokens, allowance) = parse_whitelist_pattern("make");
    assert_eq!(tokens, vec!["make"]);
    assert!(matches!(allowance, ArgAllowance::Exact));
}

#[test]
fn test_parse_whitelist_one_arg() {
    let (tokens, allowance) = parse_whitelist_pattern("make ?");
    assert_eq!(tokens, vec!["make"]);
    assert!(matches!(allowance, ArgAllowance::OneArg));
}

#[test]
fn test_parse_whitelist_any_args() {
    let (tokens, allowance) = parse_whitelist_pattern("git log *");
    assert_eq!(tokens, vec!["git", "log"]);
    assert!(matches!(allowance, ArgAllowance::AnyArgs));
}

#[test]
fn test_command_matches_whitelist_with_argv() {
    let whitelist = vec!["git log *".to_string(), "make".to_string()];
    let argv = vec!["git".to_string(), "log".to_string(), "--oneline".to_string()];
    assert!(command_matches_whitelist(&argv, &whitelist));
    let argv = vec!["make".to_string()];
    assert!(command_matches_whitelist(&argv, &whitelist));
}

#[test]
fn test_head_keeps_first_n_lines() {
    let stdout = "line1\nline2\nline3\nline4\nline5";
    let result = apply_output_filters(stdout, None, Some(3), None);
    assert_eq!(result, "line1\nline2\nline3");
}

#[test]
fn test_tail_keeps_last_n_lines() {
    let stdout = "line1\nline2\nline3\nline4\nline5";
    let result = apply_output_filters(stdout, None, None, Some(3));
    assert_eq!(result, "line3\nline4\nline5");
}

#[test]
fn test_truncate_output_under_cap() {
    let output = "line1\nline2\nline3";
    let (result, truncated) = truncate_output(output);
    assert_eq!(result, "line1\nline2\nline3");
    assert!(!truncated);
}

#[test]
fn test_truncate_output_over_cap() {
    let output = "x".repeat(100_000);
    let (result, truncated) = truncate_output(&output);
    assert!(truncated);
    assert_eq!(result.len(), OUTPUT_CAP);
}

#[test]
fn test_standalone_wildcard_allows_all_commands() {
    let whitelist = vec!["*".to_string()];
    let combined = vec!["make".to_string()];
    assert!(command_matches_whitelist(&combined, &whitelist));
    let combined = vec!["git".to_string(), "log".to_string(), "--oneline".to_string()];
    assert!(command_matches_whitelist(&combined, &whitelist));
    let combined = vec!["cargo".to_string(), "build".to_string(), "--release".to_string()];
    assert!(command_matches_whitelist(&combined, &whitelist));
}

#[test]
fn one_arg_pattern_rejects_two_arguments() {
    let whitelist = vec!["make ?".to_string()];
    assert!(command_matches_whitelist(&["make".to_string(), "all".to_string()], &whitelist));
    assert!(!command_matches_whitelist(
        &["make".to_string(), "a".to_string(), "b".to_string()],
        &whitelist
    ));
    assert!(!command_matches_whitelist(&["make".to_string()], &whitelist));
}

#[test]
fn filter_keeps_matching_lines() {
    let stdout = "alpha-out\nbeta\nalpha-two";
    assert_eq!(apply_output_filters(stdout, Some("alpha"), None, None), "alpha-out\nalpha-two");
}

fn args(argv: Vec<&str>, filter: Option<&str>, head: Option<usize>, tail: Option<usize>) -> RunCommandArgs {
    RunCommandArgs {
        argv: argv.into_iter().map(|s| s.to_string()).collect(),
        path: None,
        timeout: None,
        filter: filter.map(|s| s.to_string()),
        head,
        tail,
        env: None,
    }
}

#[test]
fn plan_refuses_two_filters_and_empty_argv() {
    let whitelist = vec!["*".to_string()];
    match plan_run_command(&args(vec!["echo"], Some("a"), Some(1), None), &whitelist) {
        Err(RunCommandError::InvalidArgs(m)) => {
            assert_eq!(m, "filter, head, and tail are mutually exclusive. Use only one.")
        }
        _ => panic!("expected InvalidArgs"),
    }
    match plan_run_command(&args(vec!["  "], None, None, None), &whitelist) {
        Err(RunCommandError::InvalidArgs(m)) => assert_eq!(m, "Empty argv"),
        _ => panic!("expected InvalidArgs"),
    }
}

#[test]
fn plan_splits_program_and_checks_whitelist() {
    let whitelist = vec!["git log *".to_string()];
    let plan = plan_run_command(&args(vec!["git", "log", "-1"], None, None, None), &whitelist)
        .ok()
        .unwrap();
    assert_eq!(plan.program, "git");
    assert_eq!(plan.args, vec!["log".to_string(), "-1".to_string()]);
    assert_eq!(plan.timeout_secs, 30);
    assert_eq!(plan.full_command, "git log -1");
    assert!(!plan.needs_safety_check);
    let plan = plan_run_command(&args(vec!["rm", "-rf", "x"], None, None, None), &whitelist)
        .ok()
        .unwrap();
    assert!(plan.needs_safety_check);
}

#[test]
fn safety_verdict_first_denial_decides() {
    match safety_verdict(&vec![]) {
        Err(RunCommandError::PermissionDenied(m)) => assert_eq!(
            m,
            "Command not in whitelist and no check_models configured for LLM safety check"
        ),
        _ => panic!("expected PermissionDenied"),
    }
    assert!(safety_verdict(&vec![Ok((true, None)), Ok((true, None))]).is_ok());
    match safety_verdict(&vec![Ok((true, None)), Ok((false, Some("secret".to_string()))), Err("x".to_string())]) {
        Err(RunCommandError::PermissionDenied(m)) => {
            assert_eq!(m, "Command denied by safety check: secret")
        }
        _ => panic!("expected PermissionDenied"),
    }
    match safety_verdict(&vec![Err("timeout".to_string())]) {
        Err(RunCommandError::Other(m)) => assert_eq!(m, "timeout"),
        _ => panic!("expected Other"),
    }
}
