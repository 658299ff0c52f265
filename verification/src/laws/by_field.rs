//! Masking field by field: what each field of a manifest, of a workspace
//! table and of a lock document becomes.

use vstd::prelude::*;
use crate::content::{Doc, lemma_get_rewritten, lemma_rewrite_twice, lemma_rewrite_agree};
use crate::model::{
    is_dependency_section, masked_text_version, masked_section, masked_scope, masked_targets,
    masked_workspace, masked_manifest, masked_record, masked_records, masked_lock,
    lemma_keys_differ, declared, target_scope, lock_records,
};

verus! {

/// What masking does to the field under `k` of a workspace table.
pub open spec fn masked_workspace_field(k: Seq<char>, d: Doc, names: Set<Seq<char>>) -> Doc {
    if k == "package"@ {
        masked_text_version(d)
    } else if is_dependency_section(k) {
        masked_section(d, names)
    } else {
        d
    }
}

/// Masking a workspace table rewrites each of its fields on its own: the
/// package table, the dependency sections, and nothing else.
pub proof fn lemma_masked_workspace_by_field(workspace: Doc, names: Set<Seq<char>>)
    ensures
        masked_workspace(workspace, names) == workspace.rewrite(
            |k: Seq<char>, d: Doc| masked_workspace_field(k, d, names),
        ),
{
    lemma_keys_differ();
    let first = |k: Seq<char>, d: Doc| if k == "package"@ { masked_text_version(d) } else { d };
    let second = |k: Seq<char>, d: Doc|
        if is_dependency_section(k) { masked_section(d, names) } else { d };
    lemma_rewrite_twice(workspace, first, second);
    lemma_rewrite_agree(
        workspace,
        |k: Seq<char>, d: Doc| second(k, first(k, d)),
        |k: Seq<char>, d: Doc| masked_workspace_field(k, d, names),
    );
}

/// What masking does to the field under `k` of a manifest.
pub open spec fn masked_manifest_field(k: Seq<char>, d: Doc, names: Set<Seq<char>>) -> Doc {
    if k == "package"@ {
        masked_text_version(d)
    } else if is_dependency_section(k) {
        masked_section(d, names)
    } else if k == "target"@ {
        masked_targets(d, names)
    } else if k == "workspace"@ {
        masked_workspace(d, names)
    } else {
        d
    }
}

/// Masking a manifest rewrites each of its fields on its own: the package
/// table, the dependency sections, the target table and the workspace
/// table. Every other field stays as it is.
pub proof fn lemma_masked_manifest_by_field(manifest: Doc, names: Set<Seq<char>>)
    ensures
        masked_manifest(manifest, names) == manifest.rewrite(
            |k: Seq<char>, d: Doc| masked_manifest_field(k, d, names),
        ),
{
    lemma_keys_differ();
    let first = |k: Seq<char>, d: Doc| if k == "package"@ { masked_text_version(d) } else { d };
    let second = |k: Seq<char>, d: Doc|
        if is_dependency_section(k) {
            masked_section(d, names)
        } else if k == "target"@ {
            masked_targets(d, names)
        } else if k == "workspace"@ {
            masked_workspace(d, names)
        } else {
            d
        };
    lemma_rewrite_twice(manifest, first, second);
    lemma_rewrite_agree(
        manifest,
        |k: Seq<char>, d: Doc| second(k, first(k, d)),
        |k: Seq<char>, d: Doc| masked_manifest_field(k, d, names),
    );
}

/// The three scopes of a masked manifest are the masked scopes of the
/// manifest: its own dependency sections, the scope under each target
/// condition, and the workspace table.
pub proof fn lemma_scopes_of_masked_manifest(
    manifest: Doc,
    names: Set<Seq<char>>,
    section: Seq<char>,
    name: Seq<char>,
    condition: Seq<char>,
)
    requires
        is_dependency_section(section),
    ensures
        declared(masked_manifest(manifest, names), section, name) == declared(
            masked_scope(manifest, names),
            section,
            name,
        ),
        target_scope(masked_manifest(manifest, names), condition) == match target_scope(
            manifest,
            condition,
        ) {
            Some(scope) => Some(masked_scope(scope, names)),
            None => None,
        },
        masked_manifest(manifest, names).get("workspace"@) == match manifest.get("workspace"@) {
            Some(workspace) => Some(masked_workspace(workspace, names)),
            None => None,
        },
{
    lemma_keys_differ();
    lemma_masked_manifest_by_field(manifest, names);
    let rule = |k: Seq<char>, d: Doc| masked_manifest_field(k, d, names);
    lemma_get_rewritten(manifest, rule, section);
    lemma_get_rewritten(manifest, rule, "target"@);
    lemma_get_rewritten(manifest, rule, "workspace"@);
    lemma_get_rewritten(
        manifest,
        |k: Seq<char>, d: Doc| if is_dependency_section(k) { masked_section(d, names) } else { d },
        section,
    );
    match manifest.get("target"@) {
        Some(targets) => {
            lemma_get_rewritten(targets, |k: Seq<char>, d: Doc| masked_scope(d, names), condition);
        },
        None => {},
    }
}

/// The dependency sections of a masked workspace table are those of the
/// table masked as a scope.
pub proof fn lemma_declared_in_masked_workspace(
    workspace: Doc,
    names: Set<Seq<char>>,
    section: Seq<char>,
    name: Seq<char>,
)
    requires
        is_dependency_section(section),
    ensures
        declared(masked_workspace(workspace, names), section, name) == declared(
            masked_scope(workspace, names),
            section,
            name,
        ),
{
    lemma_keys_differ();
    lemma_masked_workspace_by_field(workspace, names);
    lemma_get_rewritten(
        workspace,
        |k: Seq<char>, d: Doc| masked_workspace_field(k, d, names),
        section,
    );
    lemma_get_rewritten(
        workspace,
        |k: Seq<char>, d: Doc| if is_dependency_section(k) { masked_section(d, names) } else { d },
        section,
    );
}

/// The records of a masked lock document are the records of the lock
/// document, each masked: none is added, removed or moved.
pub proof fn lemma_records_of_masked_lock(lock: Doc, names: Set<Seq<char>>)
    ensures
        lock_records(masked_lock(lock, names)).len() == lock_records(lock).len(),
        forall|j: int|
            0 <= j < lock_records(lock).len() ==> #[trigger] lock_records(
                masked_lock(lock, names),
            )[j] == masked_record(lock_records(lock)[j], names),
{
    lemma_get_rewritten(
        lock,
        |k: Seq<char>, d: Doc| if k == "package"@ { masked_records(d, names) } else { d },
        "package"@,
    );
}

} // verus!
