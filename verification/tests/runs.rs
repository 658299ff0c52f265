use version_mask::document::{Table, Value};
use version_mask::manifest::ParsedManifest;
use version_mask::mask_local_crate_versions;

fn text(s: &str) -> Value {
    Value::String(s.to_string())
}

fn table(fields: Vec<(&str, Value)>) -> Value {
    let mut t = Table::new();
    for (key, value) in fields {
        t.insert(key.to_string(), value);
    }
    Value::Table(t)
}

fn by_path(path: &str, version: &str) -> Value {
    table(vec![("path", text(path)), ("version", text(version))])
}

fn package(name: &str, version: &str) -> Value {
    table(vec![("name", text(name)), ("version", text(version))])
}

fn record(name: &str, version: &str) -> Value {
    table(vec![("name", text(name)), ("version", text(version))])
}

fn manifest(fields: Vec<(&str, Value)>) -> ParsedManifest {
    ParsedManifest { contents: table(fields) }
}

fn at<'a>(doc: &'a Value, path: &[&str]) -> Option<&'a Value> {
    let mut here = doc;
    for key in path {
        here = here.get(key)?;
    }
    Some(here)
}

fn text_at<'a>(doc: &'a Value, path: &[&str]) -> Option<&'a str> {
    at(doc, path).and_then(|v| v.as_str())
}

fn lock_version<'a>(lock: &'a Value, name: &str) -> Option<&'a str> {
    let records = lock.get("package")?.as_array()?;
    for r in records {
        if r.get("name").and_then(|n| n.as_str()) == Some(name) {
            return r.get("version").and_then(|v| v.as_str());
        }
    }
    None
}

/// A depends on B by path and on C by a registry version.
fn workspace_a_b_c() -> (Vec<ParsedManifest>, Option<Value>) {
    let manifests = vec![
        manifest(vec![
            ("package", package("a", "0.1.0")),
            (
                "dependencies",
                table(vec![
                    ("b", by_path("../b", "0.2.0")),
                    ("c", table(vec![("version", text("0.3.0"))])),
                ]),
            ),
        ]),
        manifest(vec![("package", package("b", "0.2.0"))]),
        manifest(vec![("package", package("c", "0.3.0"))]),
    ];
    let lock = table(vec![
        ("version", Value::Integer(3)),
        (
            "package",
            Value::Array(vec![record("a", "0.1.0"), record("b", "0.2.0"), record("c", "0.3.0")]),
        ),
    ]);
    (manifests, Some(lock))
}

/// A, B and C, each depending on the two others by path, and a remote
/// package in the lock file.
fn workspace_of_three() -> (Vec<ParsedManifest>, Option<Value>) {
    let member = |name: &str, version: &str, x: (&str, &str), y: (&str, &str)| {
        manifest(vec![
            ("package", package(name, version)),
            (
                "dependencies",
                table(vec![
                    (x.0, by_path(&format!("../{}", x.0), x.1)),
                    (y.0, by_path(&format!("../{}", y.0), y.1)),
                    ("serde", text("1.0.147")),
                ]),
            ),
        ])
    };
    let manifests = vec![
        member("a", "0.1.0", ("b", "0.2.0"), ("c", "0.3.0")),
        member("b", "0.2.0", ("a", "0.1.0"), ("c", "0.3.0")),
        member("c", "0.3.0", ("a", "0.1.0"), ("b", "0.2.0")),
    ];
    let lock = table(vec![(
        "package",
        Value::Array(vec![
            record("a", "0.1.0"),
            record("b", "0.2.0"),
            record("c", "0.3.0"),
            table(vec![
                ("name", text("serde")),
                ("version", text("1.0.147")),
                ("source", text("registry+https://github.com/rust-lang/crates.io-index")),
            ]),
        ]),
    )]);
    (manifests, Some(lock))
}

#[test]
fn member_filter_scopes_masking_to_its_path_dependencies() {
    let (mut manifests, mut lock) = workspace_a_b_c();
    mask_local_crate_versions(&Some("a".to_string()), &mut manifests, &mut lock);
    let a = &manifests[0].contents;
    assert_eq!(text_at(a, &["dependencies", "b", "version"]), Some("0.0.1"));
    assert_eq!(text_at(a, &["dependencies", "b", "path"]), Some("../b"));
    assert_eq!(text_at(a, &["dependencies", "c", "version"]), Some("0.3.0"));
    let lock = lock.unwrap();
    assert_eq!(lock_version(&lock, "b"), Some("0.0.1"));
    assert_eq!(lock_version(&lock, "c"), Some("0.3.0"));
    assert_eq!(lock_version(&lock, "a"), Some("0.1.0"));
    assert_eq!(text_at(a, &["package", "version"]), Some("0.0.1"));
    assert_eq!(text_at(&manifests[1].contents, &["package", "version"]), Some("0.0.1"));
    assert_eq!(text_at(&manifests[2].contents, &["package", "version"]), Some("0.0.1"));
}

#[test]
fn lock_and_manifest_agree_on_a_path_dependency() {
    let (mut manifests, mut lock) = workspace_a_b_c();
    mask_local_crate_versions(&Some("a".to_string()), &mut manifests, &mut lock);
    let in_manifest = text_at(&manifests[0].contents, &["dependencies", "b", "version"]);
    let lock = lock.unwrap();
    let in_lock = lock_version(&lock, "b");
    assert_eq!(in_lock, Some("0.0.1"));
    assert_eq!(in_lock, in_manifest);
}

#[test]
fn without_filter_the_whole_workspace_is_masked() {
    let (mut manifests, mut lock) = workspace_of_three();
    mask_local_crate_versions(&None, &mut manifests, &mut lock);
    for m in &manifests {
        assert_eq!(text_at(&m.contents, &["package", "version"]), Some("0.0.1"));
        assert_eq!(text_at(&m.contents, &["dependencies", "serde"]), Some("1.0.147"));
    }
    let a = &manifests[0].contents;
    let b = &manifests[1].contents;
    let c = &manifests[2].contents;
    assert_eq!(text_at(a, &["dependencies", "b", "version"]), Some("0.0.1"));
    assert_eq!(text_at(a, &["dependencies", "c", "version"]), Some("0.0.1"));
    assert_eq!(text_at(b, &["dependencies", "a", "version"]), Some("0.0.1"));
    assert_eq!(text_at(b, &["dependencies", "c", "version"]), Some("0.0.1"));
    assert_eq!(text_at(c, &["dependencies", "a", "version"]), Some("0.0.1"));
    assert_eq!(text_at(c, &["dependencies", "b", "version"]), Some("0.0.1"));
    let lock = lock.unwrap();
    assert_eq!(lock_version(&lock, "a"), Some("0.0.1"));
    assert_eq!(lock_version(&lock, "b"), Some("0.0.1"));
    assert_eq!(lock_version(&lock, "c"), Some("0.0.1"));
    assert_eq!(lock_version(&lock, "serde"), Some("1.0.147"));
    assert_eq!(lock.get("package").unwrap().as_array().unwrap().len(), 4);
}

#[test]
fn a_second_run_changes_nothing() {
    for member in [None, Some("a".to_string()), Some("nobody".to_string())] {
        for (mut manifests, mut lock) in [workspace_a_b_c(), workspace_of_three()] {
            mask_local_crate_versions(&member, &mut manifests, &mut lock);
            let once_manifests = manifests.clone();
            let once_lock = lock.clone();
            mask_local_crate_versions(&member, &mut manifests, &mut lock);
            assert_eq!(manifests, once_manifests);
            assert_eq!(lock, once_lock);
        }
    }
}

#[test]
fn a_version_bump_of_a_local_package_leaves_no_trace() {
    let (mut manifests, mut lock) = workspace_of_three();
    let bumped_b = |v: &Value| -> Value {
        let mut copy = v.clone();
        if copy.get("name").and_then(|n| n.as_str()) == Some("b") {
            *copy.get_mut("version").unwrap() = text("0.2.1");
        }
        copy
    };
    let mut bumped_manifests = manifests.clone();
    *bumped_manifests[1].contents.get_mut("package").unwrap().get_mut("version").unwrap() =
        text("0.2.1");
    *bumped_manifests[0]
        .contents
        .get_mut("dependencies")
        .unwrap()
        .get_mut("b")
        .unwrap()
        .get_mut("version")
        .unwrap() = text("0.2.1");
    let mut bumped_lock = lock.clone();
    {
        let records = bumped_lock.as_mut().unwrap().get_mut("package").unwrap();
        let list = records.as_array_mut().unwrap();
        for r in list.iter_mut() {
            *r = bumped_b(r);
        }
    }
    assert_ne!(bumped_manifests, manifests);
    assert_ne!(bumped_lock, lock);
    mask_local_crate_versions(&None, &mut manifests, &mut lock);
    mask_local_crate_versions(&None, &mut bumped_manifests, &mut bumped_lock);
    assert_eq!(bumped_manifests, manifests);
    assert_eq!(bumped_lock, lock);
}

#[test]
fn an_unknown_member_masks_own_versions_only() {
    let (mut manifests, mut lock) = workspace_a_b_c();
    let lock_before = lock.clone();
    mask_local_crate_versions(&Some("nobody".to_string()), &mut manifests, &mut lock);
    assert_eq!(lock, lock_before);
    let a = &manifests[0].contents;
    assert_eq!(text_at(a, &["dependencies", "b", "version"]), Some("0.2.0"));
    assert_eq!(text_at(a, &["dependencies", "c", "version"]), Some("0.3.0"));
    assert_eq!(text_at(a, &["package", "version"]), Some("0.0.1"));
}

#[test]
fn an_absent_lock_stays_absent() {
    let (mut manifests, _) = workspace_a_b_c();
    let mut lock: Option<Value> = None;
    mask_local_crate_versions(&None, &mut manifests, &mut lock);
    assert_eq!(lock, None);
    assert_eq!(text_at(&manifests[0].contents, &["dependencies", "b", "version"]), Some("0.0.1"));
}

#[test]
fn names_are_resolved_before_anything_is_masked() {
    // The member's own manifest names itself as a path dependency under
    // the key `version`: resolving after masking would see the same keys,
    // and the lock record named `version` is masked either way.
    let mut manifests = vec![manifest(vec![
        ("package", package("a", "0.1.0")),
        ("dependencies", table(vec![("version", by_path("../v", "7.0.0"))])),
    ])];
    let mut lock = Some(table(vec![(
        "package",
        Value::Array(vec![record("version", "7.0.0"), record("a", "0.1.0")]),
    )]));
    mask_local_crate_versions(&Some("a".to_string()), &mut manifests, &mut lock);
    let lock = lock.unwrap();
    assert_eq!(lock_version(&lock, "version"), Some("0.0.1"));
    assert_eq!(lock_version(&lock, "a"), Some("0.1.0"));
    assert_eq!(
        text_at(&manifests[0].contents, &["dependencies", "version", "version"]),
        Some("0.0.1")
    );
    assert_eq!(text_at(&manifests[0].contents, &["dependencies", "version", "path"]), Some("../v"));
}

#[test]
fn a_remote_dependency_named_like_a_member_is_masked_without_filter() {
    // Without a member filter a name is local because a manifest declares
    // a package of that name, however the dependency is declared.
    let mut manifests = vec![
        manifest(vec![
            ("package", package("a", "0.1.0")),
            ("dependencies", table(vec![("b", table(vec![("version", text("9.9.9"))]))])),
        ]),
        manifest(vec![("package", package("b", "0.2.0"))]),
    ];
    let mut lock = None;
    mask_local_crate_versions(&None, &mut manifests, &mut lock);
    assert_eq!(text_at(&manifests[0].contents, &["dependencies", "b", "version"]), Some("0.0.1"));
}
