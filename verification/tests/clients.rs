use tenon::clients::{
    AnthropicProviderConfig, ApiKey, GeminiProviderConfig, InvalidToolCallHook,
    OllamaProviderConfig, OpenAIProviderConfig, ProviderConfig, SupportedModels, ToolErrorHook,
};

fn env() -> Vec<(String, String)> {
    vec![
        ("ANTHROPIC_API_KEY".to_string(), "sk-ant".to_string()),
        ("OTHER".to_string(), "x".to_string()),
        ("ANTHROPIC_API_KEY".to_string(), "shadowed".to_string()),
    ]
}

#[test]
fn api_key_value_resolves_to_itself() {
    let key = ApiKey::Value("literal".to_string());
    assert_eq!(key.resolve(&env()).unwrap(), "literal");
}

#[test]
fn api_key_env_resolves_first_binding() {
    let key = ApiKey::Env { env: "ANTHROPIC_API_KEY".to_string() };
    assert_eq!(key.resolve(&env()).unwrap(), "sk-ant");
}

#[test]
fn api_key_env_missing_names_the_variable() {
    let key = ApiKey::Env { env: "NOPE".to_string() };
    assert_eq!(key.resolve(&env()).unwrap_err(), "Environment variable 'NOPE' not set");
}

#[test]
fn default_provider_configs_read_their_keys_from_the_environment() {
    let a = AnthropicProviderConfig::default();
    assert_eq!(a.base_url, "https://api.anthropic.com");
    assert_eq!(a.api_key.resolve(&env()).unwrap(), "sk-ant");
    let g = GeminiProviderConfig::default();
    assert_eq!(g.base_url, "https://generativelanguage.googleapis.com");
    assert!(g.api_key.resolve(&env()).is_err());
    let o = OllamaProviderConfig::default();
    assert_eq!(o.base_url, "http://127.0.0.1:11434");
    assert!(o.bearer.is_some());
    let oa = OpenAIProviderConfig::default();
    assert_eq!(oa.base_url, "https://api.openai.com/v1");
    assert_eq!(ApiKey::default().resolve(&env()).unwrap(), "");
}

fn model() -> SupportedModels {
    SupportedModels {
        connector_name: "anthropic".to_string(),
        config: ProviderConfig::Anthropic(AnthropicProviderConfig::default()),
        model_name: "sonnet-4".to_string(),
        default_parameters: serde_json::Map::new(),
    }
}

#[test]
fn model_display_name_joins_connector_and_model() {
    assert_eq!(model().display_name(), "anthropic: sonnet-4");
}

#[test]
fn model_duplicate_keeps_names() {
    let m = model();
    let d = m.duplicate();
    assert_eq!(d.connector_name, m.connector_name);
    assert_eq!(d.model_name, m.model_name);
    assert_eq!(d.default_parameters, m.default_parameters);
}

#[test]
fn invalid_tool_call_lists_available_tools() {
    let msg = InvalidToolCallHook::message(
        "delete_everything",
        &vec!["read_file".to_string(), "search_text".to_string()],
    );
    assert_eq!(
        msg,
        "ToolCallError: `delete_everything` is not an available tool. Call one of: read_file, search_text."
    );
}

#[test]
fn tool_error_is_prefixed_once() {
    assert_eq!(
        ToolErrorHook::rewrite(true, "file not found"),
        Some("ToolCallError: file not found".to_string())
    );
    assert_eq!(ToolErrorHook::rewrite(true, "ToolCallError: file not found"), None);
    assert_eq!(ToolErrorHook::rewrite(false, "ok"), None);
}

#[test]
fn answer_to_unknown_tool_is_not_marked_twice() {
    let answer = InvalidToolCallHook::message("nope", &vec!["read_file".to_string()]);
    assert_eq!(ToolErrorHook::rewrite(true, &answer), None);
}
