use version_mask::datetime::{Date, Datetime, Offset, Time};
use version_mask::document::{Table, Value};
use version_mask::text::str_eq;

fn text(s: &str) -> Value {
    Value::String(s.to_string())
}

fn moment() -> Datetime {
    Datetime {
        date: Some(Date { year: 1979, month: 5, day: 27 }),
        time: Some(Time { hour: 7, minute: 32, second: 0, nanosecond: 0 }),
        offset: Some(Offset::Z),
    }
}

fn table(fields: Vec<(&str, Value)>) -> Table {
    let mut t = Table::new();
    for (key, value) in fields {
        t.insert(key.to_string(), value);
    }
    t
}

#[test]
fn new_table_is_empty() {
    let t = Table::new();
    assert_eq!(t.len(), 0);
    assert_eq!(t.position("anything"), None);
    assert!(t.get("anything").is_none());
    assert!(!t.contains_key("anything"));
}

#[test]
fn insert_appends_in_order() {
    let mut t = Table::new();
    assert_eq!(t.insert("name".to_string(), text("a")), None);
    assert_eq!(t.insert("version".to_string(), text("1.0.0")), None);
    assert_eq!(t.insert("edition".to_string(), text("2021")), None);
    assert_eq!(t.len(), 3);
    assert_eq!(t.key(0), "name");
    assert_eq!(t.key(1), "version");
    assert_eq!(t.key(2), "edition");
    assert_eq!(t.value(1), &text("1.0.0"));
    assert_eq!(t.position("version"), Some(1));
    assert_eq!(t.position("edition"), Some(2));
    assert_eq!(t.position("missing"), None);
}

#[test]
fn insert_over_a_key_keeps_its_place_and_returns_the_old_value() {
    let mut t = table(vec![("a", text("1")), ("b", text("2")), ("c", text("3"))]);
    let previous = t.insert("b".to_string(), Value::Integer(7));
    assert_eq!(previous, Some(text("2")));
    assert_eq!(t.len(), 3);
    assert_eq!(t.key(1), "b");
    assert_eq!(t.value(1), &Value::Integer(7));
    assert_eq!(t.value(0), &text("1"));
    assert_eq!(t.value(2), &text("3"));
}

#[test]
fn get_finds_by_key() {
    let t = table(vec![("a", text("1")), ("b", Value::Boolean(true))]);
    assert_eq!(t.get("a"), Some(&text("1")));
    assert_eq!(t.get("b"), Some(&Value::Boolean(true)));
    assert_eq!(t.get("c"), None);
    assert_eq!(t.get(""), None);
    assert!(t.contains_key("a"));
    assert!(!t.contains_key("A"));
}

#[test]
fn get_mut_writes_in_place() {
    let mut t = table(vec![("a", text("1")), ("b", text("2"))]);
    if let Some(slot) = t.get_mut("b") {
        *slot = Value::Integer(2);
    }
    assert!(t.get_mut("zzz").is_none());
    assert_eq!(t.len(), 2);
    assert_eq!(t.get("a"), Some(&text("1")));
    assert_eq!(t.get("b"), Some(&Value::Integer(2)));
    assert_eq!(t.key(1), "b");
}

#[test]
fn value_mut_writes_at_a_position() {
    let mut t = table(vec![("a", text("1")), ("b", text("2"))]);
    *t.value_mut(0) = Value::Boolean(false);
    assert_eq!(t.get("a"), Some(&Value::Boolean(false)));
    assert_eq!(t.get("b"), Some(&text("2")));
}

#[test]
fn value_get_looks_into_tables_only() {
    let doc = Value::Table(table(vec![("k", text("v"))]));
    assert_eq!(doc.get("k"), Some(&text("v")));
    assert_eq!(doc.get("other"), None);
    assert_eq!(text("k").get("k"), None);
    assert_eq!(Value::Integer(3).get("k"), None);
    assert_eq!(Value::Array(vec![text("k")]).get("k"), None);
}

#[test]
fn value_get_mut_looks_into_tables_only() {
    let mut doc = Value::Table(table(vec![("k", text("v"))]));
    *doc.get_mut("k").unwrap() = text("w");
    assert_eq!(doc.get("k"), Some(&text("w")));
    assert!(doc.get_mut("other").is_none());
    let mut scalar = text("k");
    assert!(scalar.get_mut("k").is_none());
    assert_eq!(scalar, text("k"));
}

#[test]
fn as_str_is_for_strings_only() {
    assert_eq!(text("abc").as_str(), Some("abc"));
    assert_eq!(text("").as_str(), Some(""));
    assert_eq!(Value::Datetime(moment()).as_str(), None);
    assert_eq!(Value::Integer(1).as_str(), None);
    assert_eq!(Value::Float(0).as_str(), None);
    assert_eq!(Value::Boolean(true).as_str(), None);
    assert_eq!(Value::Array(vec![]).as_str(), None);
    assert_eq!(Value::Table(Table::new()).as_str(), None);
}

#[test]
fn as_array_is_for_arrays_only() {
    let list = Value::Array(vec![text("a"), Value::Integer(1)]);
    assert_eq!(list.as_array().map(|v| v.len()), Some(2));
    assert_eq!(list.as_array().unwrap()[1], Value::Integer(1));
    assert!(text("a").as_array().is_none());
    assert!(Value::Table(Table::new()).as_array().is_none());
}

#[test]
fn as_array_mut_writes_through() {
    let mut list = Value::Array(vec![text("a")]);
    list.as_array_mut().unwrap().push(text("b"));
    list.as_array_mut().unwrap()[0] = text("z");
    assert_eq!(list, Value::Array(vec![text("z"), text("b")]));
    assert!(text("a").as_array_mut().is_none());
}

#[test]
fn as_table_is_for_tables_only() {
    let doc = Value::Table(table(vec![("k", text("v"))]));
    assert_eq!(doc.as_table().map(|t| t.len()), Some(1));
    assert!(text("a").as_table().is_none());
    assert!(Value::Array(vec![]).as_table().is_none());
}

#[test]
fn as_table_mut_writes_through() {
    let mut doc = Value::Table(table(vec![("k", text("v"))]));
    doc.as_table_mut().unwrap().insert("n".to_string(), Value::Integer(1));
    assert_eq!(doc.get("n"), Some(&Value::Integer(1)));
    assert_eq!(doc.as_table().unwrap().len(), 2);
    assert!(Value::Boolean(true).as_table_mut().is_none());
}

#[test]
fn clone_copies_the_whole_tree() {
    let inner = Value::Table(table(vec![("version", text("1.0")), ("path", text("../x"))]));
    let doc = Value::Table(table(vec![
        ("dependencies", Value::Table(table(vec![("x", inner)]))),
        ("list", Value::Array(vec![Value::Integer(1), Value::Float(7), Value::Boolean(true)])),
        ("when", Value::Datetime(moment())),
    ]));
    let mut copy = doc.clone();
    assert_eq!(copy, doc);
    *copy.get_mut("list").unwrap() = Value::Integer(0);
    assert_ne!(copy, doc);
    assert_eq!(doc.get("list").unwrap().as_array().unwrap().len(), 3);
}

#[test]
fn str_eq_compares_content() {
    assert!(str_eq("", ""));
    assert!(str_eq("version", "version"));
    assert!(!str_eq("version", "versions"));
    assert!(!str_eq("version", "versioN"));
    assert!(!str_eq("name", "path"));
    assert!(!str_eq("", "a"));
    assert!(str_eq("caf\u{e9}-\u{1f980}", "caf\u{e9}-\u{1f980}"));
    assert!(!str_eq("caf\u{e9}", "cafe"));
    assert!(!str_eq("dev-dependencies", "dependencies"));
}
