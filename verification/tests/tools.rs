use tenon::tools::{
    all_tool_names, get_tool_classification, resolve_tool_names, select_in_order,
    tool_display_summary, tool_matches_selectors, ToolCallArgs, ToolClassification,
};

#[test]
fn select_in_order_preserves_selector_order() {
    let tools = vec![
        Some(("a".to_string(), 1)),
        Some(("b".to_string(), 2)),
        Some(("c".to_string(), 3)),
    ];
    let selectors = ["c", "a", "b"];
    let result: Vec<i32> = select_in_order(tools, &selectors);
    assert_eq!(result, vec![3, 1, 2]);
}

#[test]
fn select_in_order_groups_prefix_selector_matches() {
    let tools = vec![
        Some(("srv____tool1".to_string(), 1)),
        Some(("srv____tool2".to_string(), 2)),
        Some(("other".to_string(), 3)),
    ];
    let selectors = ["srv", "other"];
    let result: Vec<i32> = select_in_order(tools, &selectors);
    assert_eq!(result, vec![1, 2, 3]);
}

#[test]
fn select_in_order_takes_each_tool_once() {
    let tools = vec![Some(("srv____a".to_string(), 1)), Some(("b".to_string(), 2))];
    let selectors = ["srv____a", "srv", "srv____a"];
    let result: Vec<i32> = select_in_order(tools, &selectors);
    assert_eq!(result, vec![1]);
}

#[test]
fn selectors_with_separator_match_exactly() {
    assert!(tool_matches_selectors("srv____a", &["srv____a"]));
    assert!(!tool_matches_selectors("srv____ab", &["srv____a"]));
    assert!(tool_matches_selectors("srv____ab", &["srv"]));
    assert!(!tool_matches_selectors("srvx", &["srv"]));
    assert!(tool_matches_selectors("edit_file", &["read_file", "edit_file"]));
}

#[test]
fn classification_of_tools() {
    assert_eq!(get_tool_classification("read_file"), ToolClassification::Idempotent);
    assert_eq!(get_tool_classification("web_search"), ToolClassification::NonMutating);
    assert_eq!(get_tool_classification("edit_file"), ToolClassification::Mutating);
    assert_eq!(get_tool_classification("start_workflow"), ToolClassification::System);
    assert_eq!(get_tool_classification("srv____x"), ToolClassification::Unknown);
}

#[test]
fn all_tool_names_add_web_search_and_mcp_tools() {
    let without = all_tool_names(false, vec![]);
    assert_eq!(without.len(), 10);
    assert!(!without.contains(&"web_search".to_string()));
    let with = all_tool_names(true, vec!["srv____a".to_string()]);
    assert_eq!(with.len(), 12);
    assert_eq!(with[10], "web_search");
    assert_eq!(with[11], "srv____a");
}

#[test]
fn resolve_tool_names_keeps_known_matches() {
    let all = vec!["edit_file".to_string(), "srv____a".to_string(), "srv____b".to_string()];
    let names = resolve_tool_names(&["srv", "edit_file"], &all);
    assert!(names.contains(&"srv____a".to_string()));
    assert!(names.contains(&"edit_file".to_string()));
}

fn call_args(strings: &[(&str, &str)], arg_list: Option<Vec<&str>>) -> ToolCallArgs {
    ToolCallArgs {
        strings: strings.iter().map(|(k, v)| (k.to_string(), v.to_string())).collect(),
        arg_list: arg_list.map(|l| l.into_iter().map(|x| x.to_string()).collect()),
    }
}

#[test]
fn summary_of_run_command_joins_arguments() {
    let args = call_args(&[("command", "cargo")], Some(vec!["test", "--lib"]));
    assert_eq!(tool_display_summary("run_command", &args, None), Some("command: cargo test --lib".to_string()));
    let bare = call_args(&[("command", "ls")], Some(vec![]));
    assert_eq!(tool_display_summary("run_command", &bare, None), Some("command: ls".to_string()));
    let missing = call_args(&[], None);
    assert_eq!(tool_display_summary("run_command", &missing, None), None);
}

#[test]
fn summary_puts_text_on_one_line() {
    let args = call_args(&[("query", "rust\nverus")], None);
    assert_eq!(tool_display_summary("web_search", &args, None), Some("query: rust\u{21b5}verus".to_string()));
}

#[test]
fn summary_shows_paths_relative_to_cwd() {
    let args = call_args(&[("filepath", "/home/u/proj/src/lib.rs")], None);
    assert_eq!(
        tool_display_summary("read_file", &args, Some("/home/u/proj")),
        Some("filepath: ./src/lib.rs".to_string())
    );
    assert_eq!(
        tool_display_summary("read_file", &args, Some("/elsewhere")),
        Some("filepath: /home/u/proj/src/lib.rs".to_string())
    );
    let moved = call_args(&[("source", "/w/a.txt")], None);
    assert_eq!(tool_display_summary("move_path", &moved, Some("/w")), Some("source: ./a.txt".to_string()));
}

#[test]
fn summary_of_other_tools_is_none() {
    let args = call_args(&[("thought", "hmm")], None);
    assert_eq!(tool_display_summary("record_thought", &args, None), None);
    assert_eq!(tool_display_summary("navigate_workflow", &call_args(&[], None), None), None);
}
