use tenon::ui::{as_chat_lines, as_chat_string, ChatRole};

#[test]
fn user_and_assistant_messages_are_shown_with_a_heading() {
    assert_eq!(as_chat_string(ChatRole::User, "hi"), Some("# User\n\nhi\n\n---\n".to_string()));
    assert_eq!(
        as_chat_lines(ChatRole::Assistant, "a\nb"),
        vec!["# Assistant", "", "a", "b", "", "---"]
    );
}

#[test]
fn system_messages_and_tool_results_are_hidden() {
    assert_eq!(as_chat_string(ChatRole::System, "rules"), None);
    assert!(as_chat_lines(ChatRole::ToolResult, "42").is_empty());
}
