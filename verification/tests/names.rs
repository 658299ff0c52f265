use version_mask::document::{Table, Value};
use version_mask::manifest::ParsedManifest;
use version_mask::names::{
    collect_from_manifest, collect_path_dependencies, declared_name, parse_local_crate_names,
    LocalPackageNames,
};

fn text(s: &str) -> Value {
    Value::String(s.to_string())
}

fn table(fields: Vec<(&str, Value)>) -> Value {
    let mut t = Table::new();
    for (key, value) in fields {
        t.insert(key.to_string(), value);
    }
    Value::Table(t)
}

fn by_path(path: &str, version: &str) -> Value {
    table(vec![("path", text(path)), ("version", text(version))])
}

fn by_version(version: &str) -> Value {
    table(vec![("version", text(version))])
}

fn package(name: &str, version: &str) -> Value {
    table(vec![("name", text(name)), ("version", text(version))])
}

fn manifest(fields: Vec<(&str, Value)>) -> ParsedManifest {
    ParsedManifest { contents: table(fields) }
}

/// A with a path dependency on B and a registry dependency on C; B; C.
fn workspace_abc() -> Vec<ParsedManifest> {
    vec![
        manifest(vec![
            ("package", package("a", "0.1.0")),
            ("dependencies", table(vec![("b", by_path("../b", "0.2.0")), ("c", text("0.3.0"))])),
        ]),
        manifest(vec![("package", package("b", "0.2.0"))]),
        manifest(vec![("package", package("c", "0.3.0"))]),
    ]
}

#[test]
fn name_set_starts_empty_and_grows() {
    let mut names = LocalPackageNames::new();
    assert!(names.is_empty());
    assert_eq!(names.len(), 0);
    assert!(!names.contains("a"));
    assert!(names.insert("a".to_string()));
    assert!(!names.insert("a".to_string()));
    assert!(names.insert("b".to_string()));
    assert_eq!(names.len(), 2);
    assert!(!names.is_empty());
    assert!(names.contains("a"));
    assert!(names.contains("b"));
    assert!(!names.contains("c"));
    assert!(!names.contains(""));
}

#[test]
fn declared_name_reads_package_name() {
    assert_eq!(declared_name(&table(vec![("package", package("a", "1.0.0"))])), Some("a"));
    assert_eq!(declared_name(&table(vec![("package", table(vec![]))])), None);
    assert_eq!(declared_name(&table(vec![])), None);
    assert_eq!(declared_name(&text("a")), None);
    assert_eq!(declared_name(&table(vec![("package", text("a"))])), None);
    assert_eq!(
        declared_name(&table(vec![("package", table(vec![("name", Value::Integer(1))]))])),
        None
    );
    assert_eq!(
        declared_name(&table(vec![("workspace", table(vec![("name", text("w"))]))])),
        None
    );
}

#[test]
fn without_filter_every_package_name_is_local() {
    let names = parse_local_crate_names(&None, &workspace_abc());
    assert_eq!(names.len(), 3);
    assert!(names.contains("a"));
    assert!(names.contains("b"));
    assert!(names.contains("c"));
}

#[test]
fn without_filter_dependencies_do_not_count() {
    let manifests = vec![manifest(vec![
        ("package", package("a", "0.1.0")),
        ("dependencies", table(vec![("b", by_path("../b", "0.2.0"))])),
    ])];
    let names = parse_local_crate_names(&None, &manifests);
    assert_eq!(names.len(), 1);
    assert!(names.contains("a"));
    assert!(!names.contains("b"));
}

#[test]
fn without_filter_manifests_without_a_string_name_are_skipped() {
    let manifests = vec![
        manifest(vec![("workspace", table(vec![("members", Value::Array(vec![text("a")]))]))]),
        manifest(vec![("package", table(vec![("name", Value::Integer(3))]))]),
        manifest(vec![("package", table(vec![("version", text("1.0.0"))]))]),
        manifest(vec![("package", package("a", "0.1.0"))]),
        ParsedManifest { contents: text("package") },
    ];
    let names = parse_local_crate_names(&None, &manifests);
    assert_eq!(names.len(), 1);
    assert!(names.contains("a"));
}

#[test]
fn a_repeated_package_name_counts_once() {
    let manifests = vec![
        manifest(vec![("package", package("a", "0.1.0"))]),
        manifest(vec![("package", package("a", "0.2.0"))]),
    ];
    let names = parse_local_crate_names(&None, &manifests);
    assert_eq!(names.len(), 1);
    assert!(names.contains("a"));
}

#[test]
fn no_manifests_no_names() {
    assert!(parse_local_crate_names(&None, &[]).is_empty());
    assert!(parse_local_crate_names(&Some("a".to_string()), &[]).is_empty());
}

#[test]
fn with_filter_only_path_dependencies_of_the_member_are_local() {
    let names = parse_local_crate_names(&Some("a".to_string()), &workspace_abc());
    assert_eq!(names.len(), 1);
    assert!(names.contains("b"));
    assert!(!names.contains("a"));
    assert!(!names.contains("c"));
}

#[test]
fn with_filter_all_three_sections_are_scanned() {
    let manifests = vec![manifest(vec![
        ("package", package("a", "0.1.0")),
        ("dependencies", table(vec![("x", by_path("../x", "1.0.0")), ("r", by_version("1"))])),
        ("dev-dependencies", table(vec![("y", by_path("../y", "1.0.0"))])),
        ("build-dependencies", table(vec![("z", table(vec![("path", text("../z"))]))])),
    ])];
    let names = parse_local_crate_names(&Some("a".to_string()), &manifests);
    assert_eq!(names.len(), 3);
    assert!(names.contains("x"));
    assert!(names.contains("y"));
    assert!(names.contains("z"));
    assert!(!names.contains("r"));
}

#[test]
fn with_filter_target_and_workspace_sections_are_not_scanned() {
    let manifests = vec![manifest(vec![
        ("package", package("a", "0.1.0")),
        (
            "target",
            table(vec![(
                "cfg(windows)",
                table(vec![("dependencies", table(vec![("t", by_path("../t", "1.0.0"))]))]),
            )]),
        ),
        (
            "workspace",
            table(vec![("dependencies", table(vec![("w", by_path("../w", "1.0.0"))]))]),
        ),
    ])];
    let names = parse_local_crate_names(&Some("a".to_string()), &manifests);
    assert!(names.is_empty());
}

#[test]
fn with_filter_the_key_counts_not_the_package_name() {
    let manifests = vec![
        manifest(vec![
            ("package", package("a", "0.1.0")),
            (
                "dependencies",
                table(vec![(
                    "alias",
                    table(vec![("path", text("../b")), ("package", text("b"))]),
                )]),
            ),
        ]),
        manifest(vec![("package", package("b", "0.2.0"))]),
    ];
    let names = parse_local_crate_names(&Some("a".to_string()), &manifests);
    assert_eq!(names.len(), 1);
    assert!(names.contains("alias"));
    assert!(!names.contains("b"));
}

#[test]
fn with_filter_bare_strings_are_never_local() {
    let manifests = vec![manifest(vec![
        ("package", package("a", "0.1.0")),
        ("dependencies", table(vec![("b", text("0.2.0")), ("path", text("1.0.0"))])),
    ])];
    let names = parse_local_crate_names(&Some("a".to_string()), &manifests);
    assert!(names.is_empty());
}

#[test]
fn with_filter_other_manifests_are_not_inspected() {
    let manifests = vec![
        manifest(vec![("package", package("a", "0.1.0"))]),
        manifest(vec![
            ("package", package("b", "0.2.0")),
            ("dependencies", table(vec![("c", by_path("../c", "0.3.0"))])),
        ]),
    ];
    let names = parse_local_crate_names(&Some("a".to_string()), &manifests);
    assert!(names.is_empty());
}

#[test]
fn with_filter_naming_no_package_nothing_is_local() {
    let names = parse_local_crate_names(&Some("zzz".to_string()), &workspace_abc());
    assert!(names.is_empty());
    assert_eq!(names.len(), 0);
}

#[test]
fn with_filter_a_section_that_is_no_table_is_skipped() {
    let manifests = vec![manifest(vec![
        ("package", package("a", "0.1.0")),
        ("dependencies", Value::Array(vec![by_path("../x", "1.0.0")])),
        ("dev-dependencies", text("path")),
        ("build-dependencies", table(vec![("z", by_path("../z", "1.0.0"))])),
    ])];
    let names = parse_local_crate_names(&Some("a".to_string()), &manifests);
    assert_eq!(names.len(), 1);
    assert!(names.contains("z"));
}

#[test]
fn collect_path_dependencies_adds_to_what_is_there() {
    let doc = table(vec![(
        "dependencies",
        table(vec![("x", by_path("../x", "1.0.0")), ("r", by_version("1.0.0"))]),
    )]);
    let mut names = LocalPackageNames::new();
    names.insert("kept".to_string());
    collect_path_dependencies(&doc, "dependencies", &mut names);
    assert_eq!(names.len(), 2);
    assert!(names.contains("kept"));
    assert!(names.contains("x"));
    collect_path_dependencies(&doc, "dev-dependencies", &mut names);
    assert_eq!(names.len(), 2);
}

#[test]
fn collect_from_manifest_follows_the_filter() {
    let m = manifest(vec![
        ("package", package("a", "0.1.0")),
        ("dependencies", table(vec![("b", by_path("../b", "0.2.0"))])),
    ]);
    let mut unfiltered = LocalPackageNames::new();
    collect_from_manifest(&None, &m, &mut unfiltered);
    assert_eq!(unfiltered.len(), 1);
    assert!(unfiltered.contains("a"));
    let mut selected = LocalPackageNames::new();
    collect_from_manifest(&Some("a".to_string()), &m, &mut selected);
    assert_eq!(selected.len(), 1);
    assert!(selected.contains("b"));
    let mut other = LocalPackageNames::new();
    collect_from_manifest(&Some("b".to_string()), &m, &mut other);
    assert!(other.is_empty());
}
