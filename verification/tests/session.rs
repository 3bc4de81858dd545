use tenon::error::{Error, ErrorKind};
use tenon::hooks::{run_needs_attention_hooks, Hook, HookType};
use tenon::knowledge::{knowledge_path, load_system_knowledge, Knowledge, KnowledgeSource};
use tenon::tools::session::{
    AskQuestion, EndChoreo, EndChoreoArgs, EndWorkflow, EndWorkflowArgs, NavigateChoreo,
    NavigateWorkflow, PopTask, PushTasks, QuestionResult, StartWorkflow, UseChoreo,
    ANSWER_BY_CHAT,
};

#[test]
fn question_answers() {
    let picked = AskQuestion::answer(Some(QuestionResult { response: Some("Yes".to_string()) }));
    assert_eq!(picked, "Yes");
    assert_eq!(AskQuestion::answer(None), "User dismissed the question");
    assert_eq!(
        AskQuestion::answer(Some(QuestionResult { response: None })),
        "User dismissed the question"
    );
    let chat =
        AskQuestion::answer(Some(QuestionResult { response: Some(ANSWER_BY_CHAT.to_string()) }));
    assert!(chat.starts_with("<context>The user chose to answer via chat"));
    assert!(chat.contains("I am listening"));
}

#[test]
fn task_queue_messages() {
    assert_eq!(
        PushTasks::queued_message(3, "refactor"),
        "3 task(s) queued under group 'refactor'. They will be worked when the current task is done or the user asks."
    );
    assert_eq!(PopTask::empty_message("refactor"), "No queued tasks in group 'refactor'.");
}

#[test]
fn navigation_goes_back_or_one_forward() {
    assert!(NavigateWorkflow::check(2, 1, 5).is_ok());
    assert!(NavigateWorkflow::check(2, 3, 5).is_ok());
    let err = NavigateWorkflow::check(2, 4, 5).unwrap_err();
    assert_eq!(err.kind, ErrorKind::InvalidInput);
    assert_eq!(err.to_message(), "Invalid navigation from step 2 to step 4");
    assert!(NavigateWorkflow::check(2, 0, 5).is_err());
    assert!(NavigateWorkflow::check(5, 6, 5).is_err());
    let err = NavigateChoreo::check(1, 3, 4).unwrap_err();
    assert_eq!(err.to_message(), "Invalid navigation from move 1 to move 3");
    assert!(NavigateChoreo::check(1, 2, 4).is_ok());
}

#[test]
fn workflow_and_choreo_selection() {
    let ids = vec!["plan".to_string(), "build".to_string()];
    assert_eq!(StartWorkflow::select(&ids, "build").unwrap(), 1);
    let err = StartWorkflow::select(&ids, "ship").unwrap_err();
    assert_eq!(
        err.to_message(),
        "Workflow 'ship' is not available for this agent. Available workflows: plan, build"
    );
    let err = UseChoreo::select(&ids, "ship").unwrap_err();
    assert_eq!(
        err.to_message(),
        "Choreo 'ship' is not available for this agent. Available choreos: plan, build"
    );
    assert_eq!(StartWorkflow::started_message("plan", "Plan it", "Draft"), "Workflow 'plan' (Plan it): Draft.");
    assert_eq!(UseChoreo::started_message("pair", "Pairing", "Warm up"), "Choreo 'pair' (Pairing): Warm up.");
}

#[test]
fn ending_needs_an_active_run() {
    let err = EndWorkflow::finish(false, &EndWorkflowArgs { step_artifact: None }).unwrap_err();
    assert_eq!(err.to_message(), "No active workflow");
    let done =
        EndWorkflow::finish(true, &EndWorkflowArgs { step_artifact: Some("report".to_string()) });
    assert_eq!(done.unwrap(), "workflow completed. output: report");
    let err = EndChoreo::finish(false, &EndChoreoArgs { move_artifact: None }).unwrap_err();
    assert_eq!(err.to_message(), "No active choreo");
    assert_eq!(
        EndChoreo::finish(true, &EndChoreoArgs { move_artifact: None }).unwrap(),
        "choreo completed. artifact: "
    );
}

fn hook(name: &str, command: &str) -> Hook {
    Hook {
        name: name.to_string(),
        command: command.to_string(),
        enabled: true,
        hook_type: HookType::NeedsAttention,
    }
}

#[test]
fn only_active_hooks_run_with_title() {
    let hooks = vec![hook("bell", "printf '\\a'"), hook("notify", "notify-send done")];
    let active = vec!["notify".to_string()];
    let runs = run_needs_attention_hooks(&hooks, &active, "");
    assert_eq!(runs.len(), 1);
    assert_eq!(runs[0].name, "notify");
    assert_eq!(runs[0].command, "notify-send done");
    assert_eq!(runs[0].chat_title, "Untitled");
    let titled = hooks[0].invocation("Refactor");
    assert_eq!(titled.chat_title, "Refactor");
}

#[test]
fn knowledge_block_joins_non_empty_sources() {
    let k = Knowledge {
        name: "Style".to_string(),
        sources: vec![
            KnowledgeSource::Text { value: "Be brief.".to_string() },
            KnowledgeSource::File { path: "missing.md".to_string() },
            KnowledgeSource::Text { value: String::new() },
            KnowledgeSource::File { path: "conventions.md".to_string() },
        ],
    };
    let contents = vec![Ok(None), Ok(None), Ok(None), Ok(Some("No globals.".to_string()))];
    assert_eq!(
        k.resolve(&contents).unwrap(),
        "<knowledge name=\"Style\">\nBe brief.\n\n---\n\nNo globals.\n</knowledge>"
    );
    let unreadable = vec![
        Ok(None),
        Err(Error { kind: ErrorKind::Other, message: "Permission denied".to_string() }),
        Ok(None),
        Ok(Some("No globals.".to_string())),
    ];
    assert_eq!(k.resolve(&unreadable).unwrap_err().to_message(), "Permission denied");
}

#[test]
fn system_knowledge_lives_under_plugin_root() {
    let registry = load_system_knowledge("/plugin");
    let agents = registry.get("AGENTS.md").unwrap();
    assert_eq!(agents.sources.len(), 2);
    let yagni = registry.get("YAGNI Attitude").unwrap();
    match &yagni.sources[0] {
        KnowledgeSource::File { path } => {
            assert_eq!(path, "/plugin/markdown/knowledge/yagni_attitude.md")
        }
        KnowledgeSource::Text { .. } => panic!("expected a file source"),
    }
    assert!(registry.get("Unknown").is_none());
    assert_eq!(knowledge_path("/plugin", "x.md"), "/plugin/markdown/knowledge/x.md");
}
