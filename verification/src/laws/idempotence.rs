//! Masking twice is masking once.

use vstd::prelude::*;
use crate::content::{
    Doc, lemma_get_rewritten, lemma_rewrite_idempotent, lemma_rewrite_items_idempotent,
};
use crate::laws::by_field::{
    masked_workspace_field, lemma_masked_workspace_by_field, masked_manifest_field,
    lemma_masked_manifest_by_field,
};
use crate::model::{
    placeholder, is_dependency_section, masked_version, masked_text_version, masked_section,
    masked_scope, masked_targets, masked_workspace, masked_manifest, masked_manifests,
    is_local_record, masked_record, masked_records, masked_lock, package_name, declares_path,
    contributes, local_names, manifests_after, lock_after, lemma_keys_differ, declared,
};

verus! {

/// Masking the version of an entry twice is masking it once.
pub proof fn lemma_masked_version_idempotent(entry: Doc)
    ensures
        masked_version(masked_version(entry)) == masked_version(entry),
{
    lemma_rewrite_idempotent(
        entry,
        |k: Seq<char>, d: Doc| if k == "version"@ { placeholder() } else { d },
    );
}

/// Masking the string version of a package table twice is masking it once.
pub proof fn lemma_masked_text_version_idempotent(package: Doc)
    ensures
        masked_text_version(masked_text_version(package)) == masked_text_version(package),
{
    lemma_rewrite_idempotent(
        package,
        |k: Seq<char>, d: Doc| if k == "version"@ && d is Text { placeholder() } else { d },
    );
}

/// Masking a dependency section twice is masking it once.
pub proof fn lemma_masked_section_idempotent(section: Doc, names: Set<Seq<char>>)
    ensures
        masked_section(masked_section(section, names), names) == masked_section(section, names),
{
    let rule = |k: Seq<char>, d: Doc| if names.contains(k) { masked_version(d) } else { d };
    assert forall|k: Seq<char>, d: Doc| #[trigger] rule(k, rule(k, d)) == rule(k, d) by {
        lemma_masked_version_idempotent(d);
    }
    lemma_rewrite_idempotent(section, rule);
}

/// Masking a scope twice is masking it once.
pub proof fn lemma_masked_scope_idempotent(scope: Doc, names: Set<Seq<char>>)
    ensures
        masked_scope(masked_scope(scope, names), names) == masked_scope(scope, names),
{
    let rule = |k: Seq<char>, d: Doc|
        if is_dependency_section(k) { masked_section(d, names) } else { d };
    assert forall|k: Seq<char>, d: Doc| #[trigger] rule(k, rule(k, d)) == rule(k, d) by {
        lemma_masked_section_idempotent(d, names);
    }
    lemma_rewrite_idempotent(scope, rule);
}

/// Masking the table of target conditions twice is masking it once.
pub proof fn lemma_masked_targets_idempotent(targets: Doc, names: Set<Seq<char>>)
    ensures
        masked_targets(masked_targets(targets, names), names) == masked_targets(targets, names),
{
    let rule = |k: Seq<char>, d: Doc| masked_scope(d, names);
    assert forall|k: Seq<char>, d: Doc| #[trigger] rule(k, rule(k, d)) == rule(k, d) by {
        lemma_masked_scope_idempotent(d, names);
    }
    lemma_rewrite_idempotent(targets, rule);
}

/// Masking a workspace table twice is masking it once.
pub proof fn lemma_masked_workspace_idempotent(workspace: Doc, names: Set<Seq<char>>)
    ensures
        masked_workspace(masked_workspace(workspace, names), names) == masked_workspace(
            workspace,
            names,
        ),
{
    lemma_keys_differ();
    let rule = |k: Seq<char>, d: Doc| masked_workspace_field(k, d, names);
    assert forall|k: Seq<char>, d: Doc| #[trigger] rule(k, rule(k, d)) == rule(k, d) by {
        lemma_masked_text_version_idempotent(d);
        lemma_masked_section_idempotent(d, names);
    }
    lemma_rewrite_idempotent(workspace, rule);
    lemma_masked_workspace_by_field(workspace, names);
    lemma_masked_workspace_by_field(masked_workspace(workspace, names), names);
}

/// Masking a manifest twice with the same names is masking it once.
pub proof fn lemma_masked_manifest_idempotent(manifest: Doc, names: Set<Seq<char>>)
    ensures
        masked_manifest(masked_manifest(manifest, names), names) == masked_manifest(
            manifest,
            names,
        ),
{
    lemma_keys_differ();
    let rule = |k: Seq<char>, d: Doc| masked_manifest_field(k, d, names);
    assert forall|k: Seq<char>, d: Doc| #[trigger] rule(k, rule(k, d)) == rule(k, d) by {
        lemma_masked_text_version_idempotent(d);
        lemma_masked_section_idempotent(d, names);
        lemma_masked_targets_idempotent(d, names);
        lemma_masked_workspace_idempotent(d, names);
    }
    lemma_rewrite_idempotent(manifest, rule);
    lemma_masked_manifest_by_field(manifest, names);
    lemma_masked_manifest_by_field(masked_manifest(manifest, names), names);
}

/// Masking the version of a lock record leaves its name as it is.
pub proof fn lemma_masked_version_keeps_name(record: Doc, names: Set<Seq<char>>)
    ensures
        masked_version(record).get("name"@) == record.get("name"@),
        is_local_record(masked_version(record), names) == is_local_record(record, names),
{
    lemma_keys_differ();
    lemma_get_rewritten(
        record,
        |k: Seq<char>, d: Doc| if k == "version"@ { placeholder() } else { d },
        "name"@,
    );
}

/// Masking a lock record twice is masking it once.
pub proof fn lemma_masked_record_idempotent(record: Doc, names: Set<Seq<char>>)
    ensures
        masked_record(masked_record(record, names), names) == masked_record(record, names),
{
    lemma_masked_version_keeps_name(record, names);
    lemma_masked_version_idempotent(record);
}

/// Masking a lock document twice with the same names is masking it once.
pub proof fn lemma_masked_lock_idempotent(lock: Doc, names: Set<Seq<char>>)
    ensures
        masked_lock(masked_lock(lock, names), names) == masked_lock(lock, names),
{
    let per_record = |record: Doc| masked_record(record, names);
    let rule = |k: Seq<char>, d: Doc| if k == "package"@ { masked_records(d, names) } else { d };
    assert forall|k: Seq<char>, d: Doc| #[trigger] rule(k, rule(k, d)) == rule(k, d) by {
        assert forall|r: Doc| #[trigger] per_record(per_record(r)) == per_record(r) by {
            lemma_masked_record_idempotent(r, names);
        }
        lemma_rewrite_items_idempotent(d, per_record);
    }
    lemma_rewrite_idempotent(lock, rule);
}

/// Masking a manifest leaves the name of its package as it is.
pub proof fn lemma_masking_keeps_package_name(manifest: Doc, names: Set<Seq<char>>)
    ensures
        package_name(masked_manifest(manifest, names)) == package_name(manifest),
{
    lemma_keys_differ();
    lemma_masked_manifest_by_field(manifest, names);
    lemma_get_rewritten(
        manifest,
        |k: Seq<char>, d: Doc| masked_manifest_field(k, d, names),
        "package"@,
    );
    match manifest.get("package"@) {
        Some(package) => {
            lemma_get_rewritten(
                package,
                |k: Seq<char>, d: Doc| if k == "version"@ && d is Text { placeholder() } else { d },
                "name"@,
            );
        },
        None => {},
    }
}

/// Masking a manifest leaves each dependency declared by path declared by
/// path, and declares no other so.
pub proof fn lemma_masking_keeps_path_declarations(
    manifest: Doc,
    names: Set<Seq<char>>,
    section: Seq<char>,
    name: Seq<char>,
)
    requires
        is_dependency_section(section),
    ensures
        declares_path(masked_manifest(manifest, names), section, name) == declares_path(
            manifest,
            section,
            name,
        ),
{
    lemma_keys_differ();
    lemma_masked_manifest_by_field(manifest, names);
    lemma_get_rewritten(
        manifest,
        |k: Seq<char>, d: Doc| masked_manifest_field(k, d, names),
        section,
    );
    match manifest.get(section) {
        Some(dependencies) => {
            lemma_get_rewritten(
                dependencies,
                |k: Seq<char>, d: Doc| if names.contains(k) { masked_version(d) } else { d },
                name,
            );
            match dependencies.get(name) {
                Some(dependency) => {
                    lemma_get_rewritten(
                        dependency,
                        |k: Seq<char>, d: Doc| if k == "version"@ { placeholder() } else { d },
                        "path"@,
                    );
                },
                None => {},
            }
        },
        None => {},
    }
}

/// Masking a manifest changes nothing of what it contributes to the local
/// names, whatever names it is masked with.
pub proof fn lemma_masking_keeps_contribution(
    member: Option<Seq<char>>,
    manifest: Doc,
    names: Set<Seq<char>>,
    name: Seq<char>,
)
    ensures
        contributes(member, masked_manifest(manifest, names), name) == contributes(
            member,
            manifest,
            name,
        ),
{
    lemma_masking_keeps_package_name(manifest, names);
    lemma_masking_keeps_path_declarations(manifest, names, "dependencies"@, name);
    lemma_masking_keeps_path_declarations(manifest, names, "dev-dependencies"@, name);
    lemma_masking_keeps_path_declarations(manifest, names, "build-dependencies"@, name);
}

/// The local names resolved from masked manifests are those resolved from
/// the manifests before masking.
pub proof fn lemma_masking_keeps_local_names(
    member: Option<Seq<char>>,
    manifests: Seq<Doc>,
    names: Set<Seq<char>>,
)
    ensures
        local_names(member, masked_manifests(manifests, names)) == local_names(member, manifests),
{
    let after = masked_manifests(manifests, names);
    assert forall|name: Seq<char>|
        local_names(member, after).contains(name) == local_names(member, manifests).contains(
            name,
        ) by {
        if local_names(member, after).contains(name) {
            let i = choose|i: int|
                0 <= i < after.len() && contributes(member, #[trigger] after[i], name);
            lemma_masking_keeps_contribution(member, manifests[i], names, name);
            assert(contributes(member, manifests[i], name));
        }
        if local_names(member, manifests).contains(name) {
            let i = choose|i: int|
                0 <= i < manifests.len() && contributes(member, #[trigger] manifests[i], name);
            lemma_masking_keeps_contribution(member, manifests[i], names, name);
            assert(contributes(member, after[i], name));
        }
    }
    assert(local_names(member, after) =~= local_names(member, manifests));
}

/// Masking is idempotent: a second run over the manifests and the lock
/// document that a first run left changes nothing.
pub proof fn lemma_masking_idempotent(member: Option<Seq<char>>, manifests: Seq<Doc>, lock: Doc)
    ensures
        manifests_after(member, manifests_after(member, manifests)) == manifests_after(
            member,
            manifests,
        ),
        lock_after(
            member,
            manifests_after(member, manifests),
            lock_after(member, manifests, lock),
        ) == lock_after(member, manifests, lock),
{
    let names = local_names(member, manifests);
    let once = manifests_after(member, manifests);
    lemma_masking_keeps_local_names(member, manifests, names);
    assert forall|i: int| 0 <= i < manifests.len() implies masked_manifest(
        #[trigger] once[i],
        names,
    ) == once[i] by {
        lemma_masked_manifest_idempotent(manifests[i], names);
    }
    assert(manifests_after(member, once) =~= once);
    lemma_masked_lock_idempotent(lock, names);
}

} // verus!
