//! Masking under a member filter: what the member declares by path is
//! masked wherever it appears, and nothing else is.

use vstd::prelude::*;
use crate::content::Doc;
use crate::laws::lock::{lemma_local_record_masked, lemma_other_record_untouched};
use crate::laws::resolution::lemma_not_local_without_path;
use crate::laws::scopes::{
    lemma_local_dependency_masked_everywhere, lemma_other_dependency_untouched_everywhere,
};
use crate::model::{
    is_dependency_section, masked_manifest, package_name, is_path_dependency, contributes,
    local_names, manifests_after, lock_after, declared, declared_version, target_scope,
    lock_records, masked_where_present,
};

verus! {

/// Under a member filter, a dependency that the manifest of the member
/// declares by path is masked wherever it appears: in each scope of every
/// manifest, the member's or not, and in every lock record of that name.
pub proof fn lemma_path_dependency_of_member_masked(
    member: Seq<char>,
    manifests: Seq<Doc>,
    lock: Doc,
    of_member: int,
    name: Seq<char>,
    i: int,
    section: Seq<char>,
    condition: Seq<char>,
    j: int,
)
    requires
        0 <= of_member < manifests.len(),
        package_name(manifests[of_member]) == Some(member),
        is_path_dependency(manifests[of_member], name),
        0 <= i < manifests.len(),
        is_dependency_section(section),
        0 <= j < lock_records(lock).len(),
        lock_records(lock)[j].get("name"@) == Some(Doc::Text(name)),
    ensures
        local_names(Some(member), manifests).contains(name),
        ({
            let before = manifests[i];
            let after = manifests_after(Some(member), manifests)[i];
            &&& declared_version(after, section, name) == masked_where_present(
                declared_version(before, section, name),
            )
            &&& match target_scope(before, condition) {
                Some(scope) => target_scope(after, condition) matches Some(masked)
                    && declared_version(masked, section, name) == masked_where_present(
                    declared_version(scope, section, name),
                ),
                None => target_scope(after, condition).is_none(),
            }
            &&& match before.get("workspace"@) {
                Some(workspace) => after.get("workspace"@) matches Some(masked)
                    && declared_version(masked, section, name) == masked_where_present(
                    declared_version(workspace, section, name),
                ),
                None => after.get("workspace"@).is_none(),
            }
        }),
        lock_records(lock_after(Some(member), manifests, lock))[j].get("version"@)
            == masked_where_present(lock_records(lock)[j].get("version"@)),
{
    let names = local_names(Some(member), manifests);
    assert(contributes(Some(member), manifests[of_member], name));
    lemma_local_dependency_masked_everywhere(manifests[i], names, section, name, condition);
    lemma_local_record_masked(lock, names, j);
}

/// Under a member filter, a dependency that no manifest of the member
/// declares by path is declared exactly as before in each scope of every
/// manifest, and every lock record of that name is as before.
pub proof fn lemma_other_dependency_of_member_untouched(
    member: Seq<char>,
    manifests: Seq<Doc>,
    lock: Doc,
    name: Seq<char>,
    i: int,
    section: Seq<char>,
    condition: Seq<char>,
    j: int,
)
    requires
        forall|k: int|
            0 <= k < manifests.len() && package_name(#[trigger] manifests[k]) == Some(member)
                ==> !is_path_dependency(manifests[k], name),
        0 <= i < manifests.len(),
        is_dependency_section(section),
        0 <= j < lock_records(lock).len(),
        lock_records(lock)[j].get("name"@) == Some(Doc::Text(name)),
    ensures
        !local_names(Some(member), manifests).contains(name),
        ({
            let before = manifests[i];
            let after = manifests_after(Some(member), manifests)[i];
            &&& declared(after, section, name) == declared(before, section, name)
            &&& match target_scope(before, condition) {
                Some(scope) => target_scope(after, condition) matches Some(masked) && declared(
                    masked,
                    section,
                    name,
                ) == declared(scope, section, name),
                None => target_scope(after, condition).is_none(),
            }
            &&& match before.get("workspace"@) {
                Some(workspace) => after.get("workspace"@) matches Some(masked) && declared(
                    masked,
                    section,
                    name,
                ) == declared(workspace, section, name),
                None => after.get("workspace"@).is_none(),
            }
        }),
        lock_records(lock_after(Some(member), manifests, lock))[j] == lock_records(lock)[j],
{
    let names = local_names(Some(member), manifests);
    lemma_not_local_without_path(member, manifests, name);
    lemma_other_dependency_untouched_everywhere(manifests[i], names, section, name, condition);
    lemma_other_record_untouched(lock, names, j);
    assert(manifests_after(Some(member), manifests)[i] == masked_manifest(manifests[i], names));
}

} // verus!
