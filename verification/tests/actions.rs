use tenon::actions::{
    agent_options, chat_option_label, chat_options, model_options, option_position, sorted_names, current_model_display, format_model_display, history_option_label,
    hook_name_from_label, hook_option_label, rename_title, selection_markdown,
};
use tenon::clients::{OllamaProviderConfig, ProviderConfig, SupportedModels};
use tenon::config::TenonAgent;
use tenon::hooks::{Hook, HookType};

fn model(connector: &str, name: &str) -> SupportedModels {
    SupportedModels {
        connector_name: connector.to_string(),
        config: ProviderConfig::Ollama(OllamaProviderConfig::default()),
        model_name: name.to_string(),
        default_parameters: serde_json::Map::new(),
    }
}

#[test]
fn model_label_pads_short_names() {
    let label = format_model_display("fast", &model("ollama", "qwen3"));
    assert_eq!(label, "fast                 | ollama/qwen3");
}

#[test]
fn model_label_cuts_long_names() {
    let label = format_model_display("a-very-long-model-alias-name", &model("ollama", "qwen3"));
    assert_eq!(label, "a-very-long-model-al | ollama/qwen3");
}

#[test]
fn current_model_is_found_by_connector_and_name() {
    let entries = vec![
        ("fast".to_string(), model("ollama", "qwen3")),
        ("smart".to_string(), model("anthropic", "opus")),
    ];
    let label = current_model_display(&entries, &model("anthropic", "opus"));
    assert_eq!(label, Some("smart                | anthropic/opus".to_string()));
    assert_eq!(current_model_display(&entries, &model("anthropic", "other")), None);
}

#[test]
fn chat_labels_count_from_one() {
    assert_eq!(chat_option_label(0, Some("Refactor")), "Chat 1 | Refactor");
    assert_eq!(chat_option_label(9, None), "Chat 10 | Untitled");
}

#[test]
fn history_label_shows_datetime_and_counts() {
    let label = history_option_label("2024-05-01T10:20:30_abc", Some("Fix bug"), 7, "main", "fast");
    assert_eq!(
        label,
        "2024-05-01 10:20:30 \u{2502}   7 msg \u{2502} Fix bug (\u{f06a9}  main, fast)"
    );
    let untitled = history_option_label("plain", None, 1234, "a", "m");
    assert_eq!(untitled, "plain \u{2502} 1234 msg \u{2502} Untitled (\u{f06a9}  a, m)");
}

#[test]
fn rename_trims_and_refuses_blank() {
    assert_eq!(rename_title("  New title \n"), Some("New title".to_string()));
    assert_eq!(rename_title("   "), None);
}

#[test]
fn hook_label_round_trip() {
    let hook = Hook {
        name: "notify | loud".to_string(),
        command: "echo hi".to_string(),
        enabled: true,
        hook_type: HookType::NeedsAttention,
    };
    let label = hook_option_label(&hook);
    assert_eq!(label, "needs_attention | notify | loud");
    assert_eq!(hook_name_from_label(&label), Some("notify | loud".to_string()));
    assert_eq!(hook_name_from_label("no separator"), None);
}

#[test]
fn selection_of_file_lines_is_a_code_block() {
    let lines = vec!["fn main() {".to_string(), "}".to_string()];
    let md = selection_markdown(&lines, None, None, 1, "", Some("src/main.rs"), "rust", 3, 4);
    assert_eq!(
        md,
        Some("Snippet from src/main.rs Lines 3-4\n```rust\nfn main() {\n}\n```\n".to_string())
    );
}

#[test]
fn selection_in_scratch_buffer_is_a_quote() {
    let lines = vec!["note one".to_string(), "note two".to_string()];
    let md = selection_markdown(&lines, None, None, 8, "nofile", None, "", 1, 2);
    assert_eq!(md, Some("> note one\n> note two\n".to_string()));
}

#[test]
fn empty_selection_inserts_nothing() {
    let lines: Vec<String> = Vec::new();
    assert_eq!(selection_markdown(&lines, None, None, 0, "", None, "", 1, 1), None);
}

#[test]
fn names_sort_by_code_point_keeping_duplicates() {
    let names = vec![
        "review".to_string(),
        "Main".to_string(),
        "main".to_string(),
        "ma".to_string(),
        "review".to_string(),
        "é".to_string(),
    ];
    let sorted = sorted_names(&names);
    let mut expected = names.clone();
    expected.sort();
    assert_eq!(sorted, expected);
    assert_eq!(sorted, vec!["Main", "ma", "main", "review", "review", "é"]);
}

#[test]
fn agent_picker_lists_sorted_agent_names() {
    let agent = |n: &str| {
        (
            n.to_string(),
            TenonAgent {
                model: model("ollama", "qwen3"),
                directives: Vec::new(),
                tool_names: Vec::new(),
                choreos: Vec::new(),
            },
        )
    };
    let agents = vec![agent("writer"), agent("coder"), agent("main")];
    assert_eq!(agent_options(&agents), vec!["coder", "main", "writer"]);
}

#[test]
fn chat_picker_selection_gives_back_the_chat() {
    let titles = vec![Some("Fix".to_string()), None, Some("Fix".to_string())];
    let labels = chat_options(&titles);
    assert_eq!(labels, vec!["Chat 1 | Fix", "Chat 2 | Untitled", "Chat 3 | Fix"]);
    for (k, label) in labels.iter().enumerate() {
        assert_eq!(option_position(&labels, label), Some(k));
    }
    assert_eq!(option_position(&labels, "Chat 4 | Fix"), None);
}

#[test]
fn model_picker_labels_follow_entries() {
    let entries = vec![
        ("fast".to_string(), model("ollama", "qwen3")),
        ("smart".to_string(), model("anthropic", "opus")),
    ];
    let labels = model_options(&entries);
    assert_eq!(labels[1], "smart                | anthropic/opus");
    assert_eq!(option_position(&labels, &labels[1]), Some(1));
}
