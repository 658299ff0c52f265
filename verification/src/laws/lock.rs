//! The records of a masked lock document, and how they agree with the
//! masked manifests.

use vstd::prelude::*;
use crate::content::{Doc};
use crate::laws::by_field::{lemma_records_of_masked_lock};
use crate::laws::scopes::{lemma_version_of_masked, lemma_local_dependency_masked_everywhere};
use crate::model::{
    placeholder, is_dependency_section, masked_version, is_local_record, masked_lock, package_name,
    declares_path, contributes, local_names, manifests_after, lock_after, declared_version,
    lock_records, masked_where_present,
};

verus! {

/// A lock record whose name is not local stays as it is.
pub proof fn lemma_other_record_untouched(lock: Doc, names: Set<Seq<char>>, j: int)
    requires
        0 <= j < lock_records(lock).len(),
        !is_local_record(lock_records(lock)[j], names),
    ensures
        lock_records(masked_lock(lock, names))[j] == lock_records(lock)[j],
{
    lemma_records_of_masked_lock(lock, names);
}

/// A lock record whose name is local holds the placeholder under `version`
/// if it held anything there, and is otherwise as before.
pub proof fn lemma_local_record_masked(lock: Doc, names: Set<Seq<char>>, j: int)
    requires
        0 <= j < lock_records(lock).len(),
        is_local_record(lock_records(lock)[j], names),
    ensures
        lock_records(masked_lock(lock, names))[j] == masked_version(lock_records(lock)[j]),
        lock_records(masked_lock(lock, names))[j].get("version"@) == masked_where_present(
            lock_records(lock)[j].get("version"@),
        ),
{
    lemma_records_of_masked_lock(lock, names);
    lemma_version_of_masked(lock_records(lock)[j]);
}

/// Lock and manifest agree: under a member filter, where the manifest of
/// that member declares a dependency by path, a run leaves the placeholder
/// as the version of every lock record of that name and as the version
/// that the manifest declares for it, wherever either had a version.
pub proof fn lemma_lock_agrees_with_manifest(
    member: Seq<char>,
    manifests: Seq<Doc>,
    lock: Doc,
    i: int,
    section: Seq<char>,
    name: Seq<char>,
    j: int,
)
    requires
        0 <= i < manifests.len(),
        package_name(manifests[i]) == Some(member),
        is_dependency_section(section),
        declares_path(manifests[i], section, name),
        0 <= j < lock_records(lock).len(),
        lock_records(lock)[j].get("name"@) == Some(Doc::Text(name)),
    ensures
        local_names(Some(member), manifests).contains(name),
        lock_records(lock_after(Some(member), manifests, lock))[j].get("version"@)
            == masked_where_present(lock_records(lock)[j].get("version"@)),
        declared_version(manifests_after(Some(member), manifests)[i], section, name)
            == masked_where_present(declared_version(manifests[i], section, name)),
{
    let names = local_names(Some(member), manifests);
    lemma_local_record_masked(lock, names, j);
    lemma_local_dependency_masked_everywhere(manifests[i], names, section, name, section);
}

} // verus!
