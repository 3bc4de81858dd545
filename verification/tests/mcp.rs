use tenon::mcp::{lua_escape, McpHubCaller, McpToolEntry, SCRIPT_HEAD, SCRIPT_TAIL};

fn entry(server: Option<&str>, name: Option<&str>, schema: bool) -> McpToolEntry {
    McpToolEntry {
        server_name: server.map(String::from),
        name: name.map(String::from),
        description: None,
        input_schema: if schema { Some(serde_json::Value::Null) } else { None },
    }
}

#[test]
fn listed_tools_are_named_server_dot_tool() {
    let tools = McpHubCaller::from_mcp_tools(Some(vec![
        entry(Some("github"), Some("search"), true),
        entry(Some("fs"), Some("read"), true),
    ]))
    .unwrap();
    assert_eq!(tools.len(), 2);
    assert_eq!(tools[0].name(), "github.search");
    assert_eq!(tools[1].name(), "fs.read");
}

#[test]
fn first_unusable_entry_is_the_error() {
    let err = McpHubCaller::from_mcp_tools(Some(vec![
        entry(Some("a"), Some("t"), true),
        entry(Some("b"), None, false),
        entry(None, Some("t"), true),
    ]))
    .unwrap_err();
    assert_eq!(err, "Missing name");
    let err = McpHubCaller::from_mcp_tools(Some(vec![entry(Some("a"), Some("t"), false)])).unwrap_err();
    assert_eq!(err, "Missing inputSchema");
    assert_eq!(McpHubCaller::from_mcp_tools(None).unwrap_err(), "Tools is not an array");
}

#[test]
fn arguments_are_escaped_into_the_script() {
    assert_eq!(lua_escape(r#"{"path":"C:\dir"}"#), r#"{\"path\":\"C:\\dir\"}"#);
    let tool = McpHubCaller::new(
        "github".to_string(),
        "search".to_string(),
        String::new(),
        serde_json::Value::Null,
    );
    let script = tool.call_script(r#"{"q":"x"}"#);
    assert!(script.starts_with(SCRIPT_HEAD));
    assert!(script.ends_with(SCRIPT_TAIL));
    assert!(script.contains(r#"vim.fn.json_decode("{\"q\":\"x\"}")"#));
    assert!(script.contains(r#"{server_name = "github", tool_name = "search", tool_input = args}"#));
    assert_eq!(tool.failure_message("boom"), "MCP tool github:search failed: boom");
}
