use cargo_shed::lockfile::{parse_dependency, parse_packages, Lockfile};
use cargo_shed::manifest::Manifest;
use cargo_shed::project::Project;
use cargo_shed::scan::{SourceFile, SourceIndex};
use cargo_shed::toml::parse_toml;

fn load(manifest: &str, lock: Option<&str>) -> Project {
    let root = "/work/demo".to_string();
    let manifest_path = format!("{root}/Cargo.toml");
    let manifest = Manifest::parse(&manifest_path, manifest.to_string()).unwrap();
    let lockfile = lock.map(|raw| Lockfile::parse("/work/demo/Cargo.lock", raw).unwrap());
    let files = vec![SourceFile {
        path: format!("{root}/src/main.rs"),
        text: "fn main() {}".to_string(),
    }];
    Project::new(root, manifest_path, manifest, lockfile, SourceIndex { files })
}

#[test]
fn parses_dependency_name_and_version() {
    let dependency =
        parse_dependency("syn 2.0.106 (registry+https://github.com/rust-lang/crates.io-index)");

    assert_eq!(dependency.name, "syn");
    assert_eq!(dependency.version.as_deref(), Some("2.0.106"));
}

#[test]
fn groups_package_entries() {
    let document = parse_toml(
        r#"
            version = 4

            [[package]]
            name = "syn"
            version = "1.0.109"

            [[package]]
            name = "syn"
            version = "2.0.106"
            dependencies = [
              "proc-macro2",
              "quote 1.0.40",
            ]
        "#,
    )
    .unwrap();

    let packages = parse_packages(document.get("package"));

    assert_eq!(packages.len(), 2);
    assert_eq!(packages[1].dependencies[0].name, "proc-macro2");
    assert_eq!(
        packages[1].dependencies[1].version.as_deref(),
        Some("1.0.40")
    );
}

#[test]
fn loads_duplicate_lockfile_versions() {
    let loaded = load(
        r#"
            [package]
            name = "demo"
            version = "0.1.0"
            edition = "2024"
            "#,
        Some(
            r#"
            version = 4

            [[package]]
            name = "syn"
            version = "1.0.109"

            [[package]]
            name = "syn"
            version = "2.0.106"
            "#,
        ),
    );
    let duplicates = loaded.lockfile.unwrap().duplicate_versions();

    assert_eq!(
        duplicates
            .iter()
            .find(|group| group.name == "syn")
            .map(|group| &group.versions),
        Some(&vec!["1.0.109".to_owned(), "2.0.106".to_owned()])
    );
}

#[test]
fn dependency_without_version_keeps_only_the_name() {
    let dependency = parse_dependency("proc-macro2");
    assert_eq!(dependency.name, "proc-macro2");
    assert_eq!(dependency.version, None);
    assert_eq!(dependency.raw, "proc-macro2");
}

#[test]
fn dependency_second_word_must_start_with_a_digit() {
    let dependency = parse_dependency("  serde   (registry) ");
    assert_eq!(dependency.name, "serde");
    assert_eq!(dependency.version, None);
}

#[test]
fn blank_dependency_entry_keeps_the_raw_text_as_name() {
    let dependency = parse_dependency("   ");
    assert_eq!(dependency.name, "   ");
    assert_eq!(dependency.version, None);
}

#[test]
fn versions_are_grouped_sorted_and_deduplicated() {
    let lockfile = Lockfile::parse(
        "Cargo.lock",
        r#"
            [[package]]
            name = "zeta"
            version = "2.0.0"

            [[package]]
            name = "alpha"
            version = "1.0.0"

            [[package]]
            name = "zeta"
            version = "1.0.0"

            [[package]]
            name = "zeta"
            version = "2.0.0"

            [[package]]
            name = "alpha"
            version = "1.0.0"
            "#,
    )
    .unwrap();
    let groups = lockfile.versions_by_name();
    assert_eq!(groups.len(), 2);
    assert_eq!(groups[0].name, "alpha");
    assert_eq!(groups[0].versions, vec!["1.0.0".to_owned()]);
    assert_eq!(groups[1].name, "zeta");
    assert_eq!(
        groups[1].versions,
        vec!["1.0.0".to_owned(), "2.0.0".to_owned()]
    );

    let duplicates = lockfile.duplicate_versions();
    assert_eq!(duplicates.len(), 1);
    assert_eq!(duplicates[0].name, "zeta");
}

#[test]
fn lockfile_version_and_package_fields_are_read() {
    let lockfile = Lockfile::parse(
        "Cargo.lock",
        r#"
            version = 3

            [[package]]
            name = "demo"
            version = "0.1.0"
            source = "registry+https://example.invalid"
            checksum = "abc"

            [[package]]
            name = "no-version"
            "#,
    )
    .unwrap();
    assert_eq!(lockfile.version, Some(3));
    assert_eq!(lockfile.path, "Cargo.lock");
    assert_eq!(lockfile.packages.len(), 1);
    assert_eq!(lockfile.packages[0].source.as_deref(), Some("registry+https://example.invalid"));
    assert_eq!(lockfile.packages[0].checksum.as_deref(), Some("abc"));
    assert!(lockfile.packages[0].dependencies.is_empty());
}

#[test]
fn invalid_lockfile_is_a_parse_error() {
    let error = Lockfile::parse("Cargo.lock", "[[package]\nname = ").unwrap_err();
    match &error {
        cargo_shed::ShedError::Parse { path, .. } => assert_eq!(path, "Cargo.lock"),
        other => panic!("unexpected error {other:?}"),
    }
    assert!(error.message().starts_with("could not parse Cargo.lock: "));
}
