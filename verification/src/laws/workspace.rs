//! Masking without a member filter: every package of the workspace is
//! masked wherever it appears, and nothing else is.

use vstd::prelude::*;
use crate::content::Doc;
use crate::laws::lock::{lemma_local_record_masked, lemma_other_record_untouched};
use crate::laws::resolution::lemma_not_local_without_package;
use crate::laws::scopes::{
    lemma_local_dependency_masked_everywhere, lemma_other_dependency_untouched_everywhere,
};
use crate::model::{
    is_dependency_section, masked_manifest, package_name, contributes, local_names,
    manifests_after, lock_after, declared, declared_version, target_scope, lock_records,
    masked_where_present,
};

verus! {

/// Without a member filter, a package that some manifest declares is
/// masked wherever it appears: as a dependency in each scope of every
/// manifest, and in every lock record of its name.
pub proof fn lemma_package_of_workspace_masked(
    manifests: Seq<Doc>,
    lock: Doc,
    declaring: int,
    name: Seq<char>,
    i: int,
    section: Seq<char>,
    condition: Seq<char>,
    j: int,
)
    requires
        0 <= declaring < manifests.len(),
        package_name(manifests[declaring]) == Some(name),
        0 <= i < manifests.len(),
        is_dependency_section(section),
        0 <= j < lock_records(lock).len(),
        lock_records(lock)[j].get("name"@) == Some(Doc::Text(name)),
    ensures
        local_names(None, manifests).contains(name),
        ({
            let before = manifests[i];
            let after = manifests_after(None, manifests)[i];
            &&& declared_version(after, section, name) == masked_where_present(
                declared_version(before, section, name),
            )
            &&& match target_scope(before, condition) {
                Some(scope) => target_scope(after, condition) matches Some(masked)
                    && declared_version(masked, section, name) == masked_where_present(
                    declared_version(scope, section, name),
                ),
                None => target_scope(after, condition).is_none(),
            }
            &&& match before.get("workspace"@) {
                Some(workspace) => after.get("workspace"@) matches Some(masked)
                    && declared_version(masked, section, name) == masked_where_present(
                    declared_version(workspace, section, name),
                ),
                None => after.get("workspace"@).is_none(),
            }
        }),
        lock_records(lock_after(None, manifests, lock))[j].get("version"@) == masked_where_present(
            lock_records(lock)[j].get("version"@),
        ),
{
    let names = local_names(None, manifests);
    assert(contributes(None, manifests[declaring], name));
    lemma_local_dependency_masked_everywhere(manifests[i], names, section, name, condition);
    lemma_local_record_masked(lock, names, j);
}

/// Without a member filter, a name that no manifest declares for its
/// package is declared exactly as before in each scope of every manifest,
/// and every lock record of that name is as before.
pub proof fn lemma_package_outside_workspace_untouched(
    manifests: Seq<Doc>,
    lock: Doc,
    name: Seq<char>,
    i: int,
    section: Seq<char>,
    condition: Seq<char>,
    j: int,
)
    requires
        forall|k: int|
            0 <= k < manifests.len() ==> package_name(#[trigger] manifests[k]) != Some(name),
        0 <= i < manifests.len(),
        is_dependency_section(section),
        0 <= j < lock_records(lock).len(),
        lock_records(lock)[j].get("name"@) == Some(Doc::Text(name)),
    ensures
        !local_names(None, manifests).contains(name),
        ({
            let before = manifests[i];
            let after = manifests_after(None, manifests)[i];
            &&& declared(after, section, name) == declared(before, section, name)
            &&& match target_scope(before, condition) {
                Some(scope) => target_scope(after, condition) matches Some(masked) && declared(
                    masked,
                    section,
                    name,
                ) == declared(scope, section, name),
                None => target_scope(after, condition).is_none(),
            }
            &&& match before.get("workspace"@) {
                Some(workspace) => after.get("workspace"@) matches Some(masked) && declared(
                    masked,
                    section,
                    name,
                ) == declared(workspace, section, name),
                None => after.get("workspace"@).is_none(),
            }
        }),
        lock_records(lock_after(None, manifests, lock))[j] == lock_records(lock)[j],
{
    let names = local_names(None, manifests);
    lemma_not_local_without_package(manifests, name);
    lemma_other_dependency_untouched_everywhere(manifests[i], names, section, name, condition);
    lemma_other_record_untouched(lock, names, j);
    assert(manifests_after(None, manifests)[i] == masked_manifest(manifests[i], names));
}

} // verus!
