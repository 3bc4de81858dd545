use tenon::error::ErrorKind;
use tenon::tools::search_dependency_code::{
    find_manifest_path, investigation_task, validate_dependency_source, validate_rust_dependency,
    CargoLock, CargoManifest, LockedPackage, MetadataPackage, SearchDependencyCodeArgs,
    SupportedLanguages,
};

fn project_manifest() -> CargoManifest {
    CargoManifest {
        dependencies: Some(vec![
            "serde".to_string(),
            "toml".to_string(),
            "nvim-oxi".to_string(),
        ]),
        dev_dependencies: Some(vec!["tempfile".to_string()]),
        build_dependencies: None,
    }
}

fn package(name: &str, version: &str) -> LockedPackage {
    LockedPackage { name: Some(name.to_string()), version: Some(version.to_string()) }
}

fn project_lock() -> CargoLock {
    CargoLock {
        packages: vec![
            package("serde", "1.0.219"),
            package("toml", "0.8.23"),
            package("nvim-oxi", "0.6.0"),
            package("tempfile", "3.20.0"),
        ],
    }
}

#[test]
fn validate_rust_resolves_version_from_lock() {
    let version =
        validate_rust_dependency("toml", None, &project_manifest(), &project_lock()).unwrap();
    assert_eq!(version, "0.8.23", "Should resolve exact version from Cargo.lock");
}

#[test]
fn validate_rust_version_mismatch() {
    let result =
        validate_rust_dependency("toml", Some("0.0.0"), &project_manifest(), &project_lock());
    assert!(result.is_err());
    let err = result.unwrap_err().to_message();
    assert!(err.contains("Version mismatch"), "Should report version mismatch, got: {}", err);
}

#[test]
fn validate_rust_dependency_not_found() {
    let result = validate_rust_dependency(
        "nonexistent_dep_xyz",
        Some("1.0.0"),
        &project_manifest(),
        &project_lock(),
    );
    assert!(result.is_err());
    let err = result.unwrap_err().to_message();
    assert!(
        err.contains("not found in Cargo.toml"),
        "Should report dependency not found, got: {}",
        err
    );
}

#[test]
fn validate_rust_dev_dependency_is_declared() {
    let version =
        validate_rust_dependency("tempfile", None, &project_manifest(), &project_lock()).unwrap();
    assert_eq!(version, "3.20.0");
}

#[test]
fn validate_rust_requested_version_is_kept() {
    let version =
        validate_rust_dependency("toml", Some("0.8.23"), &project_manifest(), &project_lock())
            .unwrap();
    assert_eq!(version, "0.8.23");
}

#[test]
fn validate_rust_declared_but_not_locked() {
    let lock = CargoLock { packages: vec![package("serde", "1.0.219")] };
    let err = validate_rust_dependency("toml", None, &project_manifest(), &lock).unwrap_err();
    assert_eq!(err.kind, ErrorKind::NotFound);
    assert!(err.to_message().contains("not found in Cargo.lock"));
}

#[test]
fn validate_rust_several_locked_versions_need_a_choice() {
    let lock = CargoLock { packages: vec![package("toml", "0.5.11"), package("toml", "0.8.23")] };
    let result = validate_rust_dependency("toml", None, &project_manifest(), &lock);
    assert!(result.is_err());
    let chosen =
        validate_rust_dependency("toml", Some("0.5.11"), &project_manifest(), &lock).unwrap();
    assert_eq!(chosen, "0.5.11");
}

#[test]
fn version_mismatch_lists_locked_versions() {
    let lock = CargoLock { packages: vec![package("toml", "0.5.11"), package("toml", "0.8.23")] };
    let err = validate_rust_dependency("toml", Some("1.0.0"), &project_manifest(), &lock)
        .unwrap_err();
    assert_eq!(err.kind, ErrorKind::InvalidInput);
    assert_eq!(
        err.to_message(),
        "Version mismatch: requested '1.0.0' but Cargo.lock has: 0.5.11, 0.8.23"
    );
}

#[test]
fn find_manifest_path_matches_name_and_version() {
    let packages = vec![
        MetadataPackage {
            name: Some("toml".to_string()),
            version: Some("0.5.11".to_string()),
            manifest_path: Some("/reg/toml-0.5.11/Cargo.toml".to_string()),
        },
        MetadataPackage {
            name: Some("toml".to_string()),
            version: Some("0.8.23".to_string()),
            manifest_path: Some("/reg/toml-0.8.23/Cargo.toml".to_string()),
        },
    ];
    let found = find_manifest_path(&packages, "toml", "0.8.23").unwrap();
    assert_eq!(found, "/reg/toml-0.8.23/Cargo.toml");
    let missing = find_manifest_path(&packages, "toml", "9.9.9").unwrap_err();
    assert_eq!(missing.kind, ErrorKind::NotFound);
    assert_eq!(missing.to_message(), "Dependency toml 9.9.9 not found in cargo metadata");
}

#[test]
fn investigation_task_names_the_source() {
    let task = investigation_task("/reg/toml-0.8.23", "How are tables parsed?");
    assert!(task.contains("/reg/toml-0.8.23"));
    assert!(task.contains("How are tables parsed?"));
}

#[test]
fn rust_calls_are_checked_against_cargo_files() {
    let args = SearchDependencyCodeArgs {
        prompt: "How are tables parsed?".to_string(),
        language: SupportedLanguages::Rust,
        dependency: "toml".to_string(),
        version: None,
    };
    assert_eq!(
        validate_dependency_source(&args, &project_manifest(), &project_lock()).unwrap(),
        "0.8.23"
    );
    let pinned = SearchDependencyCodeArgs { version: Some("0.0.0".to_string()), ..args };
    let err = validate_dependency_source(&pinned, &project_manifest(), &project_lock()).unwrap_err();
    assert_eq!(err.kind, ErrorKind::InvalidInput);
}
