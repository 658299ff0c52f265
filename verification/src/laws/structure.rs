//! Masking changes nothing but versions.

use vstd::prelude::*;
use crate::content::{Doc};
use crate::laws::by_field::{
    masked_workspace_field, lemma_masked_workspace_by_field, masked_manifest_field,
    lemma_masked_manifest_by_field,
};
use crate::model::{
    placeholder, is_dependency_section, masked_version, masked_section, masked_scope,
    masked_manifest, masked_record, masked_records, masked_lock,
};

verus! {

/// `after` is `before` but for what stands under the key `version`, in
/// tables at any depth: the same fields under the same keys in the same
/// order, the same items in every list, the same scalars. Under `version`
/// stands the placeholder, or again what stood there but for its versions.
pub open spec fn same_but_for_versions(before: Doc, after: Doc) -> bool
    decreases before,
{
    match before {
        Doc::Table(fields) => {
            &&& after matches Doc::Table(now)
            &&& now.len() == fields.len()
            &&& forall|i: int|
                0 <= i < fields.len() ==> {
                    &&& (#[trigger] now[i]).0 == fields[i].0
                    &&& {
                        ||| fields[i].0 == "version"@ && now[i].1 == placeholder()
                        ||| same_but_for_versions(fields[i].1, now[i].1)
                    }
                }
        },
        Doc::List(items) => {
            &&& after matches Doc::List(now)
            &&& now.len() == items.len()
            &&& forall|i: int|
                0 <= i < items.len() ==> same_but_for_versions(items[i], #[trigger] now[i])
        },
        _ => after == before,
    }
}

/// A document is itself but for its versions.
pub proof fn lemma_same_as_itself(doc: Doc)
    ensures
        same_but_for_versions(doc, doc),
    decreases doc,
{
    match doc {
        Doc::Table(fields) => {
            assert forall|i: int| 0 <= i < fields.len() implies same_but_for_versions(
                (#[trigger] fields[i]).1,
                fields[i].1,
            ) by {
                lemma_same_as_itself(fields[i].1);
            }
        },
        Doc::List(items) => {
            assert forall|i: int| 0 <= i < items.len() implies same_but_for_versions(
                items[i],
                #[trigger] items[i],
            ) by {
                lemma_same_as_itself(items[i]);
            }
        },
        _ => {},
    }
}

/// A rewritten table is the table but for its versions if each field is
/// rewritten to itself but for its versions, or, under `version`, to the
/// placeholder.
pub proof fn lemma_rewrite_changes_versions_only(doc: Doc, f: spec_fn(Seq<char>, Doc) -> Doc)
    requires
        forall|k: Seq<char>, d: Doc|
            (k == "version"@ && #[trigger] f(k, d) == placeholder()) || same_but_for_versions(
                d,
                f(k, d),
            ),
    ensures
        same_but_for_versions(doc, doc.rewrite(f)),
{
    match doc {
        Doc::Table(fields) => {
            let now = doc.rewrite(f)->Table_0;
            assert forall|i: int| 0 <= i < fields.len() implies {
                &&& (#[trigger] now[i]).0 == fields[i].0
                &&& {
                    ||| fields[i].0 == "version"@ && now[i].1 == placeholder()
                    ||| same_but_for_versions(fields[i].1, now[i].1)
                }
            } by {
                assert(now[i].1 == f(fields[i].0, fields[i].1));
            }
        },
        _ => {
            lemma_same_as_itself(doc);
        },
    }
}

/// A list with its items rewritten is the list but for its versions if
/// each item is rewritten to itself but for its versions.
pub proof fn lemma_rewrite_items_changes_versions_only(doc: Doc, f: spec_fn(Doc) -> Doc)
    requires
        forall|d: Doc| same_but_for_versions(d, #[trigger] f(d)),
    ensures
        same_but_for_versions(doc, doc.rewrite_items(f)),
{
    match doc {
        Doc::List(items) => {
            let now = doc.rewrite_items(f)->List_0;
            assert forall|i: int| 0 <= i < items.len() implies same_but_for_versions(
                items[i],
                #[trigger] now[i],
            ) by {
                assert(now[i] == f(items[i]));
            }
        },
        _ => {
            lemma_same_as_itself(doc);
        },
    }
}

/// Masking a manifest changes versions only: every table keeps its keys
/// and their order, every list its items, and nothing changes but what
/// stands under a key `version`.
pub proof fn lemma_manifest_masking_changes_versions_only(manifest: Doc, names: Set<Seq<char>>)
    ensures
        same_but_for_versions(manifest, masked_manifest(manifest, names)),
{
    let version = |k: Seq<char>, d: Doc| if k == "version"@ { placeholder() } else { d };
    let text_version = |k: Seq<char>, d: Doc|
        if k == "version"@ && d is Text { placeholder() } else { d };
    let section = |k: Seq<char>, d: Doc| if names.contains(k) { masked_version(d) } else { d };
    let scope = |k: Seq<char>, d: Doc|
        if is_dependency_section(k) { masked_section(d, names) } else { d };
    let targets = |k: Seq<char>, d: Doc| masked_scope(d, names);
    let workspace = |k: Seq<char>, d: Doc| masked_workspace_field(k, d, names);
    let whole = |k: Seq<char>, d: Doc| masked_manifest_field(k, d, names);
    assert forall|k: Seq<char>, d: Doc|
        (k == "version"@ && #[trigger] version(k, d) == placeholder()) || same_but_for_versions(
            d,
            version(k, d),
        ) by {
        lemma_same_as_itself(d);
    }
    assert forall|k: Seq<char>, d: Doc|
        (k == "version"@ && #[trigger] text_version(k, d) == placeholder())
            || same_but_for_versions(d, text_version(k, d)) by {
        lemma_same_as_itself(d);
    }
    assert forall|k: Seq<char>, d: Doc|
        (k == "version"@ && #[trigger] section(k, d) == placeholder()) || same_but_for_versions(
            d,
            section(k, d),
        ) by {
        lemma_same_as_itself(d);
        lemma_rewrite_changes_versions_only(d, version);
    }
    assert forall|k: Seq<char>, d: Doc|
        (k == "version"@ && #[trigger] scope(k, d) == placeholder()) || same_but_for_versions(
            d,
            scope(k, d),
        ) by {
        lemma_same_as_itself(d);
        lemma_rewrite_changes_versions_only(d, section);
    }
    assert forall|k: Seq<char>, d: Doc|
        (k == "version"@ && #[trigger] targets(k, d) == placeholder()) || same_but_for_versions(
            d,
            targets(k, d),
        ) by {
        lemma_rewrite_changes_versions_only(d, scope);
    }
    assert forall|k: Seq<char>, d: Doc|
        (k == "version"@ && #[trigger] workspace(k, d) == placeholder()) || same_but_for_versions(
            d,
            workspace(k, d),
        ) by {
        lemma_same_as_itself(d);
        lemma_rewrite_changes_versions_only(d, text_version);
        lemma_rewrite_changes_versions_only(d, section);
    }
    assert forall|k: Seq<char>, d: Doc|
        (k == "version"@ && #[trigger] whole(k, d) == placeholder()) || same_but_for_versions(
            d,
            whole(k, d),
        ) by {
        lemma_same_as_itself(d);
        lemma_rewrite_changes_versions_only(d, text_version);
        lemma_rewrite_changes_versions_only(d, section);
        lemma_rewrite_changes_versions_only(d, targets);
        lemma_masked_workspace_by_field(d, names);
        lemma_rewrite_changes_versions_only(d, workspace);
    }
    lemma_masked_manifest_by_field(manifest, names);
    lemma_rewrite_changes_versions_only(manifest, whole);
}

/// Masking a lock document changes versions only: it keeps every key and
/// every record in place, and changes nothing but what stands under the
/// key `version` of a record.
pub proof fn lemma_lock_masking_changes_versions_only(lock: Doc, names: Set<Seq<char>>)
    ensures
        same_but_for_versions(lock, masked_lock(lock, names)),
{
    let version = |k: Seq<char>, d: Doc| if k == "version"@ { placeholder() } else { d };
    let per_record = |record: Doc| masked_record(record, names);
    let whole = |k: Seq<char>, d: Doc| if k == "package"@ { masked_records(d, names) } else { d };
    assert forall|k: Seq<char>, d: Doc|
        (k == "version"@ && #[trigger] version(k, d) == placeholder()) || same_but_for_versions(
            d,
            version(k, d),
        ) by {
        lemma_same_as_itself(d);
    }
    assert forall|d: Doc| same_but_for_versions(d, #[trigger] per_record(d)) by {
        lemma_same_as_itself(d);
        lemma_rewrite_changes_versions_only(d, version);
    }
    assert forall|k: Seq<char>, d: Doc|
        (k == "version"@ && #[trigger] whole(k, d) == placeholder()) || same_but_for_versions(
            d,
            whole(k, d),
        ) by {
        lemma_same_as_itself(d);
        lemma_rewrite_items_changes_versions_only(d, per_record);
    }
    lemma_rewrite_changes_versions_only(lock, whole);
}

} // verus!
