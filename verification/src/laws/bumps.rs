//! Masked documents do not tell which version a local package had.

use vstd::prelude::*;
use crate::content::{Doc, lemma_get_with, lemma_rewrite_forgets};
use crate::laws::by_field::{masked_manifest_field, lemma_masked_manifest_by_field};
use crate::model::{
    placeholder, is_dependency_section, masked_version, masked_text_version, masked_section,
    masked_scope, masked_manifest, is_local_record, masked_record, package_name, declares_path,
    contributes, local_names, manifests_after, lock_after, lemma_keys_differ, own_version, declared,
};

verus! {

/// A manifest with `version` as the version of its own package, where it
/// declares one.
pub open spec fn with_own_version(manifest: Doc, version: Doc) -> Doc {
    match manifest.get("package"@) {
        Some(package) => manifest.with("package"@, package.with("version"@, version)),
        None => manifest,
    }
}

/// A scope whose section `section` declares `version` as the version of
/// `name`, where it declares one.
pub open spec fn with_declared_version(
    scope: Doc,
    section: Seq<char>,
    name: Seq<char>,
    version: Doc,
) -> Doc {
    match scope.get(section) {
        Some(dependencies) => match dependencies.get(name) {
            Some(dependency) => scope.with(
                section,
                dependencies.with(name, dependency.with("version"@, version)),
            ),
            None => scope,
        },
        None => scope,
    }
}

/// The version that an entry held leaves no trace in the masked entry.
pub proof fn lemma_masked_version_forgets(entry: Doc, version: Doc)
    ensures
        masked_version(entry.with("version"@, version)) == masked_version(entry),
{
    if entry.get("version"@).is_some() {
        lemma_rewrite_forgets(
            entry,
            |k: Seq<char>, d: Doc| if k == "version"@ { placeholder() } else { d },
            "version"@,
            version,
        );
    }
}

/// The string version that a package table held leaves no trace in the
/// masked table: another string in its place gives the same.
pub proof fn lemma_masked_text_version_forgets(package: Doc, version: Seq<char>)
    requires
        package.get("version"@) matches Some(Doc::Text(_)),
    ensures
        masked_text_version(package.with("version"@, Doc::Text(version))) == masked_text_version(
            package,
        ),
{
    lemma_rewrite_forgets(
        package,
        |k: Seq<char>, d: Doc| if k == "version"@ && d is Text { placeholder() } else { d },
        "version"@,
        Doc::Text(version),
    );
}

/// The version that a scope declared for a local dependency leaves no
/// trace in the masked scope.
pub proof fn lemma_masked_scope_forgets(
    scope: Doc,
    names: Set<Seq<char>>,
    section: Seq<char>,
    name: Seq<char>,
    version: Doc,
)
    requires
        is_dependency_section(section),
        names.contains(name),
    ensures
        masked_scope(with_declared_version(scope, section, name, version), names) == masked_scope(
            scope,
            names,
        ),
{
    match scope.get(section) {
        Some(dependencies) => match dependencies.get(name) {
            Some(dependency) => {
                lemma_masked_version_forgets(dependency, version);
                lemma_rewrite_forgets(
                    dependencies,
                    |k: Seq<char>, d: Doc| if names.contains(k) { masked_version(d) } else { d },
                    name,
                    dependency.with("version"@, version),
                );
                lemma_rewrite_forgets(
                    scope,
                    |k: Seq<char>, d: Doc|
                        if is_dependency_section(k) { masked_section(d, names) } else { d },
                    section,
                    dependencies.with(name, dependency.with("version"@, version)),
                );
            },
            None => {},
        },
        None => {},
    }
}

/// The version that a local lock record held leaves no trace in the
/// masked record.
pub proof fn lemma_masked_record_forgets(record: Doc, names: Set<Seq<char>>, version: Doc)
    requires
        is_local_record(record, names),
    ensures
        masked_record(record.with("version"@, version), names) == masked_record(record, names),
{
    lemma_keys_differ();
    lemma_get_with(record, "version"@, version, "name"@);
    lemma_masked_version_forgets(record, version);
}

/// The string version that a manifest declared for its own package leaves
/// no trace in the masked manifest, and changes nothing of what the
/// manifest contributes to the local names.
pub proof fn lemma_masked_manifest_forgets_own_version(
    manifest: Doc,
    names: Set<Seq<char>>,
    version: Seq<char>,
)
    requires
        own_version(manifest) matches Some(Doc::Text(_)),
    ensures
        masked_manifest(with_own_version(manifest, Doc::Text(version)), names) == masked_manifest(
            manifest,
            names,
        ),
        forall|member: Option<Seq<char>>, name: Seq<char>|
            contributes(member, with_own_version(manifest, Doc::Text(version)), name)
                == #[trigger] contributes(member, manifest, name),
{
    lemma_keys_differ();
    let package = manifest.get("package"@)->Some_0;
    let bumped_package = package.with("version"@, Doc::Text(version));
    let bumped = with_own_version(manifest, Doc::Text(version));
    lemma_masked_text_version_forgets(package, version);
    lemma_masked_manifest_by_field(manifest, names);
    lemma_masked_manifest_by_field(bumped, names);
    lemma_rewrite_forgets(
        manifest,
        |k: Seq<char>, d: Doc| masked_manifest_field(k, d, names),
        "package"@,
        bumped_package,
    );
    lemma_get_with(manifest, "package"@, bumped_package, "package"@);
    lemma_get_with(package, "version"@, Doc::Text(version), "name"@);
    lemma_get_with(manifest, "package"@, bumped_package, "dependencies"@);
    lemma_get_with(manifest, "package"@, bumped_package, "dev-dependencies"@);
    lemma_get_with(manifest, "package"@, bumped_package, "build-dependencies"@);
    assert forall|member: Option<Seq<char>>, name: Seq<char>|
        contributes(member, bumped, name) == #[trigger] contributes(member, manifest, name) by {
        assert(declares_path(bumped, "dependencies"@, name) == declares_path(
            manifest,
            "dependencies"@,
            name,
        ));
        assert(declares_path(bumped, "dev-dependencies"@, name) == declares_path(
            manifest,
            "dev-dependencies"@,
            name,
        ));
        assert(declares_path(bumped, "build-dependencies"@, name) == declares_path(
            manifest,
            "build-dependencies"@,
            name,
        ));
    }
}

/// A run does not see the version of a local package: with another string
/// as the own version of one manifest, the masked manifests and the masked
/// lock document are the same.
pub proof fn lemma_run_forgets_own_version(
    member: Option<Seq<char>>,
    manifests: Seq<Doc>,
    lock: Doc,
    i: int,
    version: Seq<char>,
)
    requires
        0 <= i < manifests.len(),
        own_version(manifests[i]) matches Some(Doc::Text(_)),
    ensures
        manifests_after(
            member,
            manifests.update(i, with_own_version(manifests[i], Doc::Text(version))),
        ) == manifests_after(member, manifests),
        lock_after(
            member,
            manifests.update(i, with_own_version(manifests[i], Doc::Text(version))),
            lock,
        ) == lock_after(member, manifests, lock),
{
    let bumped = manifests.update(i, with_own_version(manifests[i], Doc::Text(version)));
    let names = local_names(member, manifests);
    lemma_masked_manifest_forgets_own_version(manifests[i], names, version);
    assert forall|name: Seq<char>|
        local_names(member, bumped).contains(name) == names.contains(name) by {
        if local_names(member, bumped).contains(name) {
            let j = choose|j: int|
                0 <= j < bumped.len() && contributes(member, #[trigger] bumped[j], name);
            assert(contributes(member, manifests[j], name));
        }
        if names.contains(name) {
            let j = choose|j: int|
                0 <= j < manifests.len() && contributes(member, #[trigger] manifests[j], name);
            assert(contributes(member, bumped[j], name));
        }
    }
    assert(local_names(member, bumped) =~= names);
    assert(manifests_after(member, bumped) =~= manifests_after(member, manifests));
}

} // verus!
