use tenon::clients::{ApiKey, OllamaProviderConfig, ProviderConfig};
use tenon::config::{
    AnalyzeImageUserConfig, FetchWebpageUserConfig, HistoryUserConfig, Model, ModelConfig,
    RunCommandUserConfig, TenonAgentConfig, TenonConfig, TenonUserConfig, TitleUserConfig,
    ToolsUserConfig, WebSearchConfig, WebSearchProviderConfig,
};
use tenon::directive::load_system_directives;
use tenon::error::ErrorKind;

fn resolve(config: TenonUserConfig) -> Result<TenonConfig, tenon::error::Error> {
    TenonConfig::try_from(
        config,
        TenonConfig::default(),
        &load_system_directives("."),
        &vec!["implement_code_together".to_string()],
        &vec![("MY_KEY".to_string(), "from-env".to_string())],
    )
}

fn empty_user_config() -> TenonUserConfig {
    TenonUserConfig {
        connectors: None,
        agents: None,
        models: None,
        tools: None,
        history: None,
        title: None,
    }
}

fn model<'a>(config: &'a TenonConfig, name: &str) -> &'a tenon::clients::SupportedModels {
    &config.models.iter().find(|(n, _)| n == name).unwrap().1
}

#[test]
fn try_from_models_builds_hashmap_with_names() {
    let connectors = vec![(
        "ollama".to_string(),
        ProviderConfig::Ollama(OllamaProviderConfig::default()),
    )];
    let mut params = serde_json::Map::new();
    params.insert("temperature".to_string(), serde_json::Value::from(0.7));
    let models = vec![
        (
            "fast".to_string(),
            ModelConfig {
                connector: "ollama".to_string(),
                name: "llama3".to_string(),
                default_parameters: params,
            },
        ),
        (
            "smart".to_string(),
            ModelConfig {
                connector: "ollama".to_string(),
                name: "gpt-4".to_string(),
                default_parameters: serde_json::Map::new(),
            },
        ),
    ];
    let mut config = empty_user_config();
    config.connectors = Some(connectors);
    config.models = Some(models);

    let result = resolve(config).unwrap();
    assert_eq!(result.models.len(), 2);

    let fast = model(&result, "fast");
    assert_eq!(fast.connector_name, "ollama");
    assert_eq!(fast.model_name, "llama3");
    assert_eq!(
        fast.default_parameters.get("temperature").unwrap(),
        &serde_json::Value::from(0.7)
    );

    let smart = model(&result, "smart");
    assert_eq!(smart.model_name, "gpt-4");
}

#[test]
fn try_from_models_error_on_unknown_connector() {
    let models = vec![(
        "bad".to_string(),
        ModelConfig {
            connector: "nonexistent".to_string(),
            name: "model".to_string(),
            default_parameters: serde_json::Map::new(),
        },
    )];
    let mut config = empty_user_config();
    config.models = Some(models);
    let result = resolve(config);
    assert!(result.is_err());
    let err = result.err().unwrap();
    assert_eq!(err.kind(), ErrorKind::InvalidInput);
    assert_eq!(err.to_message(), "unknown connector for model: nonexistent");
}

fn agent(model: &str, default: bool) -> TenonAgentConfig {
    TenonAgentConfig {
        model: Model(model.to_string()),
        directive: vec![],
        tool_names: vec![],
        default,
        choreos: vec![],
    }
}

fn fast_models() -> (Vec<(String, ProviderConfig)>, Vec<(String, ModelConfig)>) {
    (
        vec![(
            "ollama".to_string(),
            ProviderConfig::Ollama(OllamaProviderConfig::default()),
        )],
        vec![(
            "fast".to_string(),
            ModelConfig {
                connector: "ollama".to_string(),
                name: "llama3".to_string(),
                default_parameters: serde_json::Map::new(),
            },
        )],
    )
}

#[test]
fn try_from_agent_resolves_model_from_registry() {
    let (connectors, models) = fast_models();
    let mut config = empty_user_config();
    config.connectors = Some(connectors);
    config.models = Some(models);
    config.agents = Some(vec![("main".to_string(), agent("fast", true))]);

    let result = resolve(config).unwrap();
    let main = &result.agents.iter().find(|(n, _)| n == "main").unwrap().1;
    assert_eq!(main.model.connector_name, "ollama");
    assert_eq!(main.model.model_name, "llama3");
    assert_eq!(result.default_agent, "main");
}

#[test]
fn try_from_agent_error_on_unknown_model() {
    let mut config = empty_user_config();
    config.agents = Some(vec![("main".to_string(), agent("nonexistent", true))]);
    let result = resolve(config);
    assert!(result.is_err());
    assert_eq!(result.err().unwrap().to_message(), "unknown model: nonexistent");
}

#[test]
fn try_from_tools_resolves_model_from_registry() {
    let (connectors, models) = fast_models();
    let tools = ToolsUserConfig {
        fetch_webpage: Some(FetchWebpageUserConfig {
            model: Some(Model("fast".to_string())),
        }),
        analyze_image: Some(AnalyzeImageUserConfig {
            model: Some(Model("fast".to_string())),
        }),
        run_command: Some(RunCommandUserConfig {
            whitelist: vec![],
            check_models: vec![Model("fast".to_string())],
        }),
        web_search: None,
    };
    let title = TitleUserConfig {
        model: Some(Model("fast".to_string())),
        prompt: None,
    };
    let mut config = empty_user_config();
    config.connectors = Some(connectors);
    config.models = Some(models);
    config.tools = Some(tools);
    config.title = Some(title);

    let result = resolve(config).unwrap();
    assert_eq!(result.tools.fetch_webpage.model.unwrap().model_name, "llama3");
    assert_eq!(result.tools.analyze_image.model.unwrap().model_name, "llama3");
    let rc = &result.tools.run_command.check_models;
    assert_eq!(rc.len(), 1);
    assert_eq!(rc[0].model_name, "llama3");
    assert_eq!(result.title.model.unwrap().model_name, "llama3");
}

#[test]
fn try_from_tools_error_on_unknown_model() {
    let tools = ToolsUserConfig {
        fetch_webpage: Some(FetchWebpageUserConfig {
            model: Some(Model("nonexistent".to_string())),
        }),
        analyze_image: None,
        run_command: None,
        web_search: None,
    };
    let mut config = empty_user_config();
    config.tools = Some(tools);
    let result = resolve(config);
    assert!(result.is_err());
    assert_eq!(
        result.err().unwrap().to_message(),
        "unknown model for fetch_webpage: nonexistent"
    );
}

#[test]
fn try_from_tools_web_search_passes_through() {
    let tools = ToolsUserConfig {
        fetch_webpage: None,
        analyze_image: None,
        run_command: None,
        web_search: Some(WebSearchProviderConfig::Brave {
            api_key: ApiKey::Value("test-key".into()),
        }),
    };
    let mut config = empty_user_config();
    config.tools = Some(tools);
    let result = resolve(config).unwrap();
    match &result.tools.web_search {
        Some(WebSearchConfig::Brave { api_key }) => assert_eq!(api_key, "test-key"),
        _ => panic!("expected Brave"),
    }
}

#[test]
fn web_search_key_from_environment_and_missing_key_drops_provider() {
    let mut config = empty_user_config();
    config.tools = Some(ToolsUserConfig {
        fetch_webpage: None,
        analyze_image: None,
        run_command: None,
        web_search: Some(WebSearchProviderConfig::Tavily {
            api_key: ApiKey::Env {
                env: "MY_KEY".into(),
            },
        }),
    });
    let result = resolve(config).unwrap();
    match &result.tools.web_search {
        Some(WebSearchConfig::Tavily { api_key }) => assert_eq!(api_key, "from-env"),
        _ => panic!("expected Tavily"),
    }

    let mut config = empty_user_config();
    config.tools = Some(ToolsUserConfig {
        fetch_webpage: None,
        analyze_image: None,
        run_command: None,
        web_search: Some(WebSearchProviderConfig::LangSearch {
            api_key: ApiKey::Env {
                env: "UNSET_KEY".into(),
            },
        }),
    });
    assert!(resolve(config).unwrap().tools.web_search.is_none());
}

#[test]
fn empty_user_config_keeps_defaults() {
    let result = resolve(empty_user_config()).unwrap();
    assert_eq!(result.default_agent, "default");
    assert_eq!(result.history.directory, ".tenon/history");
    assert_eq!(result.connectors.len(), 2);
    assert_eq!(result.agents.len(), 1);
    assert_eq!(result.agents[0].1.tool_names.len(), 10);
    assert_eq!(model(&result, "default").model_name, "glm-5.1");
}

#[test]
fn agents_need_exactly_one_default() {
    let (connectors, models) = fast_models();
    let mut config = empty_user_config();
    config.connectors = Some(connectors);
    config.models = Some(models);
    config.agents = Some(vec![
        ("a".to_string(), agent("fast", true)),
        ("b".to_string(), agent("fast", true)),
    ]);
    assert_eq!(
        resolve(config).err().unwrap().to_message(),
        "more than one default agents found: a and b"
    );

    let (connectors, models) = fast_models();
    let mut config = empty_user_config();
    config.connectors = Some(connectors);
    config.models = Some(models);
    config.agents = Some(vec![("a".to_string(), agent("fast", false))]);
    assert_eq!(
        resolve(config).err().unwrap().to_message(),
        "at least one agent needs to be set as default"
    );

    let mut config = empty_user_config();
    config.agents = Some(vec![]);
    assert_eq!(resolve(config).err().unwrap().to_message(), "agents cannot be empty");
}

#[test]
fn agent_choreos_keep_only_known_ids_and_history_and_title_prompt_apply() {
    let (connectors, models) = fast_models();
    let mut main = agent("fast", true);
    main.choreos = vec!["unknown".to_string(), "implement_code_together".to_string()];
    let mut config = empty_user_config();
    config.connectors = Some(connectors);
    config.models = Some(models);
    config.agents = Some(vec![("main".to_string(), main)]);
    config.history = Some(HistoryUserConfig {
        directory: "/tmp/hist".into(),
    });
    config.title = Some(TitleUserConfig {
        model: None,
        prompt: Some("Title it".into()),
    });
    let result = resolve(config).unwrap();
    assert_eq!(result.agents[0].1.choreos, vec!["implement_code_together".to_string()]);
    assert_eq!(result.history.directory, "/tmp/hist");
    assert_eq!(result.title.prompt.as_deref(), Some("Title it"));
}
