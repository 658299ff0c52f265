use version_mask::document::{Table, Value};
use version_mask::lockfile::{
    is_local_package, mask_local_versions_in_lockfile, mask_record, mask_records,
};
use version_mask::names::LocalPackageNames;

fn text(s: &str) -> Value {
    Value::String(s.to_string())
}

fn table(fields: Vec<(&str, Value)>) -> Value {
    let mut t = Table::new();
    for (key, value) in fields {
        t.insert(key.to_string(), value);
    }
    Value::Table(t)
}

fn record(name: &str, version: &str) -> Value {
    table(vec![("name", text(name)), ("version", text(version))])
}

fn remote(name: &str, version: &str) -> Value {
    table(vec![
        ("name", text(name)),
        ("version", text(version)),
        ("source", text("registry+https://github.com/rust-lang/crates.io-index")),
        ("checksum", text("0123456789abcdef")),
    ])
}

fn names(local: &[&str]) -> LocalPackageNames {
    let mut set = LocalPackageNames::new();
    for name in local {
        set.insert(name.to_string());
    }
    set
}

#[test]
fn a_record_is_local_by_its_string_name() {
    let local = names(&["a", "b"]);
    assert!(is_local_package(&record("a", "1.0.0"), &local));
    assert!(is_local_package(&table(vec![("name", text("b"))]), &local));
    assert!(!is_local_package(&record("c", "1.0.0"), &local));
    assert!(!is_local_package(&table(vec![("version", text("1.0.0"))]), &local));
    assert!(!is_local_package(&table(vec![("name", Value::Integer(1))]), &local));
    assert!(!is_local_package(&text("a"), &local));
    assert!(!is_local_package(&record("a", "1.0.0"), &names(&[])));
}

#[test]
fn mask_record_masks_local_records_only() {
    let local = names(&["a"]);
    let mut mine = record("a", "1.2.3");
    mask_record(&mut mine, &local);
    assert_eq!(mine, record("a", "0.0.1"));

    let mut theirs = remote("serde", "1.0.0");
    mask_record(&mut theirs, &local);
    assert_eq!(theirs, remote("serde", "1.0.0"));
}

#[test]
fn mask_record_overwrites_a_version_of_any_shape() {
    let mut odd = table(vec![("name", text("a")), ("version", Value::Integer(3))]);
    mask_record(&mut odd, &names(&["a"]));
    assert_eq!(odd, record("a", "0.0.1"));
}

#[test]
fn mask_record_adds_no_version() {
    let mut bare = table(vec![("name", text("a")), ("dependencies", Value::Array(vec![]))]);
    mask_record(&mut bare, &names(&["a"]));
    assert_eq!(bare, table(vec![("name", text("a")), ("dependencies", Value::Array(vec![]))]));
}

#[test]
fn mask_records_is_for_lists_only() {
    let mut single = record("a", "1.0.0");
    mask_records(&mut single, &names(&["a"]));
    assert_eq!(single, record("a", "1.0.0"));

    let mut list = Value::Array(vec![record("a", "1.0.0"), text("a"), record("b", "1.0.0")]);
    mask_records(&mut list, &names(&["a"]));
    assert_eq!(list, Value::Array(vec![record("a", "0.0.1"), text("a"), record("b", "1.0.0")]));
}

#[test]
fn lock_masking_keeps_order_and_count() {
    let mut lock = table(vec![
        ("version", Value::Integer(3)),
        (
            "package",
            Value::Array(vec![
                remote("anyhow", "1.0.66"),
                table(vec![
                    ("name", text("a")),
                    ("version", text("0.1.0")),
                    ("dependencies", Value::Array(vec![text("anyhow"), text("b")])),
                ]),
                record("b", "0.2.0"),
                remote("serde", "1.0.147"),
            ]),
        ),
    ]);
    mask_local_versions_in_lockfile(&mut lock, &names(&["a", "b"]));
    assert_eq!(
        lock,
        table(vec![
            ("version", Value::Integer(3)),
            (
                "package",
                Value::Array(vec![
                    remote("anyhow", "1.0.66"),
                    table(vec![
                        ("name", text("a")),
                        ("version", text("0.0.1")),
                        ("dependencies", Value::Array(vec![text("anyhow"), text("b")])),
                    ]),
                    record("b", "0.0.1"),
                    remote("serde", "1.0.147"),
                ]),
            ),
        ])
    );
}

#[test]
fn lock_masking_with_no_local_names_changes_nothing() {
    let before = table(vec![(
        "package",
        Value::Array(vec![record("a", "0.1.0"), remote("serde", "1.0.147")]),
    )]);
    let mut lock = before.clone();
    mask_local_versions_in_lockfile(&mut lock, &names(&[]));
    assert_eq!(lock, before);
}

#[test]
fn lock_masking_skips_odd_shapes() {
    let shapes = vec![
        table(vec![]),
        table(vec![("package", record("a", "0.1.0"))]),
        table(vec![("package", text("a"))]),
        table(vec![("packages", Value::Array(vec![record("a", "0.1.0")]))]),
        Value::Array(vec![record("a", "0.1.0")]),
        text("package"),
    ];
    for before in shapes {
        let mut lock = before.clone();
        mask_local_versions_in_lockfile(&mut lock, &names(&["a"]));
        assert_eq!(lock, before);
    }
}

#[test]
fn lock_masking_twice_is_masking_once() {
    let mut once = table(vec![(
        "package",
        Value::Array(vec![record("a", "0.1.0"), remote("serde", "1.0.147"), record("b", "2.0.0")]),
    )]);
    mask_local_versions_in_lockfile(&mut once, &names(&["a", "b"]));
    let mut twice = once.clone();
    mask_local_versions_in_lockfile(&mut twice, &names(&["a", "b"]));
    assert_eq!(twice, once);
}
