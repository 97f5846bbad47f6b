use cargo_shed::manifest::{collect_dependencies, DependencySection, Manifest};
use cargo_shed::project::{lockfile_path, manifest_in, project_root, Project, ProjectKind};
use cargo_shed::scan::{SourceFile, SourceIndex};
use cargo_shed::toml::parse_toml;

#[test]
fn parses_string_dependency() {
    let document = parse_toml(
        r#"
            [dependencies]
            serde = "1"
        "#,
    )
    .unwrap();

    let dependencies = collect_dependencies(&document);

    assert_eq!(dependencies[0].name, "serde");
    assert_eq!(dependencies[0].version.as_deref(), Some("1"));
}

#[test]
fn parses_inline_dependency() {
    let document = parse_toml(
        r#"
            [dependencies]
            tokio = { version = "1", default-features = false, features = ["macros"], optional = true }
        "#,
    )
    .unwrap();

    let dependencies = collect_dependencies(&document);

    assert_eq!(dependencies[0].name, "tokio");
    assert_eq!(dependencies[0].default_features, Some(false));
    assert_eq!(dependencies[0].features, vec!["macros".to_owned()]);
    assert!(dependencies[0].optional);
}

#[test]
fn parses_workspace_dependency() {
    let document = parse_toml(
        r#"
            [workspace.dependencies]
            anyhow = "1"
        "#,
    )
    .unwrap();

    let dependencies = collect_dependencies(&document);

    assert_eq!(dependencies[0].section, DependencySection::Workspace);
    assert_eq!(dependencies[0].name, "anyhow");
}

#[test]
fn loads_manifest_dependencies() {
    let manifest = Manifest::parse(
        "/work/demo/Cargo.toml",
        r#"
            [package]
            name = "demo"
            version = "0.1.0"
            edition = "2024"

            [dependencies]
            tokio = { version = "1", features = ["full"] }

            [dev-dependencies]
            assert_cmd = "2"
            "#
        .to_string(),
    )
    .unwrap();
    let loaded = Project::new(
        "/work/demo".to_string(),
        "/work/demo/Cargo.toml".to_string(),
        manifest,
        None,
        SourceIndex {
            files: vec![SourceFile {
                path: "/work/demo/src/main.rs".to_string(),
                text: "fn main() {}".to_string(),
            }],
        },
    );

    assert_eq!(loaded.manifest.dependencies.len(), 2);
    assert_eq!(loaded.manifest.package_name(), Some("demo"));
}

#[test]
fn sections_come_in_manifest_order() {
    let document = parse_toml(
        r#"
            [build-dependencies]
            cc = "1"

            [dev-dependencies]
            insta = "1"

            [dependencies]
            serde = { version = "1", package = "serde_core", path = "../serde", workspace = true }
            ignored = 5
        "#,
    )
    .unwrap();
    let dependencies = collect_dependencies(&document);
    assert_eq!(dependencies.len(), 3);
    assert_eq!(dependencies[0].section, DependencySection::Normal);
    assert_eq!(dependencies[0].package.as_deref(), Some("serde_core"));
    assert_eq!(dependencies[0].path.as_deref(), Some("../serde"));
    assert!(dependencies[0].workspace);
    assert_eq!(dependencies[1].section, DependencySection::Dev);
    assert_eq!(dependencies[2].section, DependencySection::Build);
}

#[test]
fn crate_name_replaces_dashes() {
    let document = parse_toml("[dependencies]\nproc-macro2 = \"1\"\n").unwrap();
    let dependencies = collect_dependencies(&document);
    assert_eq!(dependencies[0].crate_name(), "proc_macro2");
}

#[test]
fn manifest_keys_name_the_sections() {
    assert_eq!(DependencySection::Normal.manifest_key(), "dependencies");
    assert_eq!(DependencySection::Dev.manifest_key(), "dev-dependencies");
    assert_eq!(DependencySection::Build.manifest_key(), "build-dependencies");
    assert_eq!(DependencySection::Workspace.manifest_key(), "workspace.dependencies");
}

#[test]
fn simple_string_dependencies_are_told_apart() {
    let manifest = Manifest::parse(
        "Cargo.toml",
        "[dependencies]\nchrono = \"0.4\"\ntokio = { version = \"1\" }\n".to_string(),
    )
    .unwrap();
    assert!(manifest.dependency_is_simple_string(&DependencySection::Normal, "chrono"));
    assert!(!manifest.dependency_is_simple_string(&DependencySection::Normal, "tokio"));
    assert!(!manifest.dependency_is_simple_string(&DependencySection::Dev, "chrono"));
    assert!(manifest.dependency_item(&DependencySection::Normal, "missing").is_none());
}

#[test]
fn workspace_manifest_is_a_workspace_root() {
    let manifest = Manifest::parse(
        "Cargo.toml",
        "[workspace]\nmembers = []\n".to_string(),
    )
    .unwrap();
    assert!(manifest.is_workspace_root());
    assert_eq!(manifest.package_name(), None);
    let project = Project::new(
        ".".to_string(),
        "Cargo.toml".to_string(),
        manifest,
        None,
        SourceIndex { files: Vec::new() },
    );
    assert_eq!(project.kind, ProjectKind::WorkspaceRoot);
}

#[test]
fn invalid_manifest_is_a_parse_error() {
    let error = Manifest::parse("Cargo.toml", "[dependencies\n".to_string()).unwrap_err();
    assert!(matches!(error, cargo_shed::ShedError::Parse { .. }));
}

#[test]
fn project_paths_follow_the_manifest() {
    assert_eq!(project_root("/work/demo/Cargo.toml"), "/work/demo");
    assert_eq!(lockfile_path("/work/demo"), "/work/demo/Cargo.lock");
    assert_eq!(manifest_in("/work/demo"), "/work/demo/Cargo.toml");
    assert_eq!(project_root("/"), ".");
}

#[test]
fn missing_lockfile_is_reported_as_skipped() {
    let manifest = Manifest::parse("Cargo.toml", String::new()).unwrap();
    let project = Project::new(
        ".".to_string(),
        "Cargo.toml".to_string(),
        manifest,
        None,
        SourceIndex { files: Vec::new() },
    );
    assert_eq!(
        project.skipped_checks(),
        vec!["Cargo.lock was not found, so lockfile-based rules were skipped".to_owned()]
    );
}

#[test]
fn parsed_manifest_keeps_every_declared_value() {
    let manifest = Manifest::parse(
        "Cargo.toml",
        "[package]\nname = \"w\"\n[dependencies]\ntokio = { version = \"1.2\", features = [\"rt\", \"net\"], default-features = false }\n[dependencies.serde]\nversion = \"1\"\noptional = true\n".to_string(),
    )
    .unwrap();
    let tokio = manifest.dependencies.iter().find(|d| d.name == "tokio").unwrap();
    assert_eq!(tokio.version.as_deref(), Some("1.2"));
    assert_eq!(tokio.features, vec!["rt".to_string(), "net".to_string()]);
    assert_eq!(tokio.default_features, Some(false));
    let serde = manifest.dependencies.iter().find(|d| d.name == "serde").unwrap();
    assert_eq!(serde.version.as_deref(), Some("1"));
    assert!(serde.optional);
}
