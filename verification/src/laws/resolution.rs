//! Which names are local, and what masking does where none is.

use vstd::prelude::*;
use crate::content::{Doc, lemma_rewrite_nothing, lemma_rewrite_items_nothing, lemma_rewrite_agree};
use crate::laws::by_field::{masked_manifest_field, lemma_masked_manifest_by_field};
use crate::model::{
    is_dependency_section, masked_version, masked_text_version, masked_section, masked_scope,
    masked_package_version, masked_manifest, masked_record, masked_records, masked_lock,
    package_name, is_path_dependency, local_names, lemma_keys_differ,
};

verus! {

/// Under a member filter, a name that no manifest of that member declares
/// by path is not local.
pub proof fn lemma_not_local_without_path(
    member: Seq<char>,
    manifests: Seq<Doc>,
    name: Seq<char>,
)
    requires
        forall|i: int|
            0 <= i < manifests.len() && package_name(#[trigger] manifests[i]) == Some(member)
                ==> !is_path_dependency(manifests[i], name),
    ensures
        !local_names(Some(member), manifests).contains(name),
{
}

/// Without a member filter, a name that no manifest declares for its
/// package is not local.
pub proof fn lemma_not_local_without_package(manifests: Seq<Doc>, name: Seq<char>)
    requires
        forall|i: int|
            0 <= i < manifests.len() ==> package_name(#[trigger] manifests[i]) != Some(name),
    ensures
        !local_names(None, manifests).contains(name),
{
}

/// A member filter that names the package of no manifest leaves no name
/// local.
pub proof fn lemma_unknown_member_has_no_local_names(member: Seq<char>, manifests: Seq<Doc>)
    requires
        forall|i: int|
            0 <= i < manifests.len() ==> package_name(#[trigger] manifests[i]) != Some(member),
    ensures
        local_names(Some(member), manifests) == Set::<Seq<char>>::empty(),
{
    assert(local_names(Some(member), manifests) =~= Set::<Seq<char>>::empty());
}

/// With no local name, no dependency version and no lock record is
/// masked: of a manifest only the version of its own package and that of
/// its workspace's package change, and the lock document stays as it is.
pub proof fn lemma_no_local_names_mask_own_versions_only(manifest: Doc, lock: Doc)
    ensures
        masked_scope(manifest, Set::<Seq<char>>::empty()) == manifest,
        masked_manifest(manifest, Set::<Seq<char>>::empty()) == manifest.rewrite(
            |k: Seq<char>, d: Doc|
                if k == "package"@ {
                    masked_text_version(d)
                } else if k == "workspace"@ {
                    masked_package_version(d)
                } else {
                    d
                },
        ),
        masked_lock(lock, Set::<Seq<char>>::empty()) == lock,
{
    let none = Set::<Seq<char>>::empty();
    let section = |k: Seq<char>, d: Doc| if none.contains(k) { masked_version(d) } else { d };
    let scope = |k: Seq<char>, d: Doc|
        if is_dependency_section(k) { masked_section(d, none) } else { d };
    let targets = |k: Seq<char>, d: Doc| masked_scope(d, none);
    let per_record = |record: Doc| masked_record(record, none);
    let lock_rule = |k: Seq<char>, d: Doc|
        if k == "package"@ { masked_records(d, none) } else { d };
    let whole = |k: Seq<char>, d: Doc| masked_manifest_field(k, d, none);
    let own = |k: Seq<char>, d: Doc|
        if k == "package"@ {
            masked_text_version(d)
        } else if k == "workspace"@ {
            masked_package_version(d)
        } else {
            d
        };
    assert forall|k: Seq<char>, d: Doc| #[trigger] scope(k, d) == d by {
        lemma_rewrite_nothing(d, section);
    }
    assert forall|d: Doc| #[trigger] masked_scope(d, none) == d by {
        lemma_rewrite_nothing(d, scope);
    }
    assert forall|k: Seq<char>, d: Doc| #[trigger] whole(k, d) == own(k, d) by {
        lemma_keys_differ();
        lemma_rewrite_nothing(d, section);
        lemma_rewrite_nothing(d, targets);
    }
    lemma_masked_manifest_by_field(manifest, none);
    lemma_rewrite_agree(manifest, whole, own);
    assert forall|k: Seq<char>, d: Doc| #[trigger] lock_rule(k, d) == d by {
        lemma_rewrite_items_nothing(d, per_record);
    }
    lemma_rewrite_nothing(lock, lock_rule);
}

} // verus!
