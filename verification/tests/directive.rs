use tenon::config::{DirectiveConfig, DirectiveSourceConfig};
use tenon::directive::{directive_path, load_system_directives, Directive, DirectiveSource};
use tenon::error::{Error, ErrorKind};

#[test]
fn resolve_text_wraps_in_directive_tag() {
    let source = DirectiveSource::Text {
        value: "be careful".into(),
    };
    let resolved = source.resolve(None, &Vec::new()).unwrap();
    assert_eq!(resolved, "<directive>be careful</directive>");
}

#[test]
fn resolve_text_includes_condition_attribute() {
    let source = DirectiveSource::Text {
        value: "be careful".into(),
    };
    let resolved = source.resolve(Some("when coding"), &Vec::new()).unwrap();
    assert_eq!(
        resolved,
        r#"<directive condition="when coding">be careful</directive>"#
    );
}

#[test]
fn resolve_file_emits_one_tag_per_file() {
    let source = DirectiveSource::File {
        paths: vec!["/tmp/a.md".to_string(), "/tmp/b.md".to_string()],
    };
    let contents = vec![Ok(Some("content a".to_string())), Ok(Some("content b".to_string()))];
    let resolved = source.resolve(None, &contents).unwrap();
    assert_eq!(
        resolved,
        "<directive file=\"/tmp/a.md\">content a</directive>\n<directive file=\"/tmp/b.md\">content b</directive>"
    );
}

#[test]
fn resolve_file_skips_missing_and_empty_files() {
    let source = DirectiveSource::File {
        paths: vec![
            "/tmp/missing".to_string(),
            "/tmp/empty".to_string(),
            "/tmp/existing".to_string(),
        ],
    };
    let contents = vec![Ok(None), Ok(Some(String::new())), Ok(Some("content".to_string()))];
    let resolved = source.resolve(None, &contents).unwrap();
    assert_eq!(resolved, "<directive file=\"/tmp/existing\">content</directive>");
}

#[test]
fn resolve_preset_emits_id_tag() {
    let source = DirectiveSource::Preset {
        id: "YAGNI Attitude".into(),
        path: "/tmp/preset.md".into(),
    };
    let resolved = source
        .resolve(
            Some("when making code changes"),
            &vec![Ok(Some("preset content".to_string()))],
        )
        .unwrap();
    assert_eq!(
        resolved,
        r#"<directive condition="when making code changes" preset="YAGNI Attitude">preset content</directive>"#
    );
}

#[test]
fn resolve_preset_missing_file_returns_error() {
    let source = DirectiveSource::Preset {
        id: "X".into(),
        path: "/tmp/preset_missing".into(),
    };
    let err = source.resolve(None, &vec![Ok(None)]).unwrap_err();
    assert_eq!(err.kind(), ErrorKind::NotFound);
    assert_eq!(
        err.to_message(),
        "Preset file not found or empty: /tmp/preset_missing"
    );
}

#[test]
fn load_system_directives_agents_md_stays_file_others_preset() {
    let map = load_system_directives(".");
    assert!(matches!(
        &map.get("AGENTS.md").unwrap().source,
        DirectiveSource::File { .. }
    ));
    assert!(matches!(
        &map.get("YAGNI Attitude").unwrap().source,
        DirectiveSource::Preset { id, .. } if id == "YAGNI Attitude"
    ));
}

#[test]
fn try_from_text_config_preserves_condition() {
    let config = DirectiveConfig {
        condition: Some("when coding".into()),
        source: DirectiveSourceConfig::Text {
            value: "be careful".into(),
        },
    };
    let directive = Directive::try_from(config, &load_system_directives(".")).unwrap();
    assert_eq!(directive.condition.as_deref(), Some("when coding"));
    assert!(matches!(
        &directive.source,
        DirectiveSource::Text { value } if value == "be careful"
    ));
}

#[test]
fn try_from_file_config_preserves_paths() {
    let config = DirectiveConfig {
        condition: None,
        source: DirectiveSourceConfig::File {
            paths: vec!["./example.md".to_string()],
        },
    };
    let directive = Directive::try_from(config, &load_system_directives(".")).unwrap();
    assert!(directive.condition.is_none());
    assert!(matches!(
        &directive.source,
        DirectiveSource::File { paths } if paths.len() == 1
    ));
}

#[test]
fn try_from_system_config_expands_from_registry() {
    let config = DirectiveConfig {
        condition: Some("when making code changes".into()),
        source: DirectiveSourceConfig::System {
            name: "YAGNI Attitude".into(),
        },
    };
    let directive = Directive::try_from(config, &load_system_directives(".")).unwrap();
    assert_eq!(
        directive.condition.as_deref(),
        Some("when making code changes")
    );
    assert!(matches!(
        &directive.source,
        DirectiveSource::Preset { id, .. } if id == "YAGNI Attitude"
    ));
}

#[test]
fn try_from_system_config_unknown_name_returns_not_found() {
    let config = DirectiveConfig {
        condition: None,
        source: DirectiveSourceConfig::System {
            name: "Does Not Exist".into(),
        },
    };
    let result = Directive::try_from(config, &load_system_directives("."));
    assert!(result.is_err());
    let err = result.unwrap_err();
    assert_eq!(err.kind(), ErrorKind::NotFound);
    assert_eq!(err.to_message(), "System directive 'Does Not Exist' not found");
}

#[test]
fn preset_paths_lie_under_the_plugin_root() {
    let map = load_system_directives("/opt/tenon");
    match &map.get("YAGNI Attitude").unwrap().source {
        DirectiveSource::Preset { path, .. } => {
            assert!(path.starts_with("/opt/tenon/markdown/directive/"));
        }
        _ => panic!("expected a preset"),
    }
}

#[test]
fn same_directive_resolves_alike_after_duplicate() {
    let source = DirectiveSource::Text {
        value: "x".into(),
    };
    let copy = source.duplicate();
    assert_eq!(
        source.resolve(Some("c"), &Vec::new()).unwrap(),
        copy.resolve(Some("c"), &Vec::new()).unwrap()
    );
}

#[test]
fn preset_paths_live_under_plugin_root() {
    assert_eq!(directive_path("/plugin", "coding.md"), "/plugin/markdown/directive/coding.md");
    assert_eq!(directive_path("/plugin/", "/abs.md"), "/abs.md");
}

#[test]
fn copies_of_a_source_render_alike() {
    let source = DirectiveSource::File { paths: vec!["a.md".into(), "b.md".into()] };
    let copy = source.duplicate();
    let contents = vec![Ok(Some("A".to_string())), Ok(Some(String::new()))];
    assert_eq!(
        source.resolve(Some("rust"), &contents).unwrap(),
        copy.resolve(Some("rust"), &contents).unwrap()
    );
    assert_eq!(
        copy.resolve(Some("rust"), &contents).unwrap(),
        "<directive condition=\"rust\" file=\"a.md\">A</directive>"
    );
}

#[test]
fn unreadable_file_is_an_error() {
    let source = DirectiveSource::File { paths: vec!["a.md".into(), "b.md".into(), "c.md".into()] };
    let contents = vec![
        Ok(Some("A".to_string())),
        Err(Error { kind: ErrorKind::Other, message: "Permission denied".to_string() }),
        Err(Error { kind: ErrorKind::Other, message: "later".to_string() }),
    ];
    let err = source.resolve(None, &contents).unwrap_err();
    assert_eq!(err.kind(), ErrorKind::Other);
    assert_eq!(err.to_message(), "Permission denied");
    let preset = DirectiveSource::Preset { id: "X".into(), path: "/p.md".into() };
    let contents = vec![Err(Error { kind: ErrorKind::Other, message: "Is a directory".to_string() })];
    assert_eq!(preset.resolve(None, &contents).unwrap_err().to_message(), "Is a directory");
}
