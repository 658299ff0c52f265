//! Versions in the scopes of a masked manifest: those of local
//! dependencies are the placeholder, all others are as before.

use vstd::prelude::*;
use crate::content::{Doc, lemma_get_rewritten};
use crate::laws::by_field::{
    masked_manifest_field, lemma_masked_manifest_by_field, lemma_scopes_of_masked_manifest,
    lemma_declared_in_masked_workspace,
};
use crate::model::{
    placeholder, is_dependency_section, masked_version, masked_section, masked_scope,
    masked_manifest, local_names, manifests_after, own_version, declared, declared_version,
    target_scope, masked_where_present,
};

verus! {

/// A masked scope declares what the scope declared, with the version of
/// each local dependency masked.
pub proof fn lemma_declared_in_masked_scope(
    scope: Doc,
    names: Set<Seq<char>>,
    section: Seq<char>,
    name: Seq<char>,
)
    requires
        is_dependency_section(section),
    ensures
        declared(masked_scope(scope, names), section, name) == match declared(
            scope,
            section,
            name,
        ) {
            Some(dependency) => Some(
                if names.contains(name) {
                    masked_version(dependency)
                } else {
                    dependency
                },
            ),
            None => None,
        },
{
    lemma_get_rewritten(
        scope,
        |k: Seq<char>, d: Doc| if is_dependency_section(k) { masked_section(d, names) } else { d },
        section,
    );
    match scope.get(section) {
        Some(dependencies) => {
            lemma_get_rewritten(
                dependencies,
                |k: Seq<char>, d: Doc| if names.contains(k) { masked_version(d) } else { d },
                name,
            );
        },
        None => {},
    }
}

/// A table whose version was masked holds the placeholder under `version`
/// if it held anything there.
pub proof fn lemma_version_of_masked(entry: Doc)
    ensures
        masked_version(entry).get("version"@) == masked_where_present(entry.get("version"@)),
{
    lemma_get_rewritten(
        entry,
        |k: Seq<char>, d: Doc| if k == "version"@ { placeholder() } else { d },
        "version"@,
    );
}

/// In a masked scope, every version declared for a local dependency is the
/// placeholder.
pub proof fn lemma_local_dependency_masked_in_scope(
    scope: Doc,
    names: Set<Seq<char>>,
    section: Seq<char>,
    name: Seq<char>,
)
    requires
        is_dependency_section(section),
        names.contains(name),
    ensures
        declared_version(masked_scope(scope, names), section, name) == masked_where_present(
            declared_version(scope, section, name),
        ),
{
    lemma_declared_in_masked_scope(scope, names, section, name);
    match declared(scope, section, name) {
        Some(dependency) => lemma_version_of_masked(dependency),
        None => {},
    }
}

/// In a masked scope, a dependency whose name is not local is declared
/// exactly as before.
pub proof fn lemma_other_dependency_untouched_in_scope(
    scope: Doc,
    names: Set<Seq<char>>,
    section: Seq<char>,
    name: Seq<char>,
)
    requires
        is_dependency_section(section),
        !names.contains(name),
    ensures
        declared(masked_scope(scope, names), section, name) == declared(scope, section, name),
{
    lemma_declared_in_masked_scope(scope, names, section, name);
}

/// A dependency declared as anything but a table, such as a bare version
/// string, is declared exactly as before in the masked scope, local or not.
pub proof fn lemma_bare_dependency_untouched_in_scope(
    scope: Doc,
    names: Set<Seq<char>>,
    section: Seq<char>,
    name: Seq<char>,
)
    requires
        is_dependency_section(section),
        declared(scope, section, name) matches Some(dependency) && !(dependency is Table),
    ensures
        declared(masked_scope(scope, names), section, name) == declared(scope, section, name),
{
    lemma_declared_in_masked_scope(scope, names, section, name);
}

/// Scope completeness: in a masked manifest, every version declared for a
/// local dependency is the placeholder, in each of the three dependency
/// sections of each scope: the manifest's own, the one under any target
/// condition, and the workspace's.
pub proof fn lemma_local_dependency_masked_everywhere(
    manifest: Doc,
    names: Set<Seq<char>>,
    section: Seq<char>,
    name: Seq<char>,
    condition: Seq<char>,
)
    requires
        is_dependency_section(section),
        names.contains(name),
    ensures
        declared_version(masked_manifest(manifest, names), section, name) == masked_where_present(
            declared_version(manifest, section, name),
        ),
        match target_scope(manifest, condition) {
            Some(scope) => target_scope(masked_manifest(manifest, names), condition) matches Some(
                masked,
            ) && declared_version(masked, section, name) == masked_where_present(
                declared_version(scope, section, name),
            ),
            None => target_scope(masked_manifest(manifest, names), condition).is_none(),
        },
        match manifest.get("workspace"@) {
            Some(workspace) => masked_manifest(manifest, names).get("workspace"@) matches Some(
                masked,
            ) && declared_version(masked, section, name) == masked_where_present(
                declared_version(workspace, section, name),
            ),
            None => masked_manifest(manifest, names).get("workspace"@).is_none(),
        },
{
    lemma_scopes_of_masked_manifest(manifest, names, section, name, condition);
    lemma_local_dependency_masked_in_scope(manifest, names, section, name);
    match target_scope(manifest, condition) {
        Some(scope) => lemma_local_dependency_masked_in_scope(scope, names, section, name),
        None => {},
    }
    match manifest.get("workspace"@) {
        Some(workspace) => {
            lemma_declared_in_masked_workspace(workspace, names, section, name);
            lemma_local_dependency_masked_in_scope(workspace, names, section, name);
        },
        None => {},
    }
}

/// Non-interference: a dependency whose name is not local is declared
/// exactly as before in each scope of a masked manifest, its version
/// included.
pub proof fn lemma_other_dependency_untouched_everywhere(
    manifest: Doc,
    names: Set<Seq<char>>,
    section: Seq<char>,
    name: Seq<char>,
    condition: Seq<char>,
)
    requires
        is_dependency_section(section),
        !names.contains(name),
    ensures
        declared(masked_manifest(manifest, names), section, name) == declared(
            manifest,
            section,
            name,
        ),
        match target_scope(manifest, condition) {
            Some(scope) => target_scope(masked_manifest(manifest, names), condition) matches Some(
                masked,
            ) && declared(masked, section, name) == declared(scope, section, name),
            None => target_scope(masked_manifest(manifest, names), condition).is_none(),
        },
        match manifest.get("workspace"@) {
            Some(workspace) => masked_manifest(manifest, names).get("workspace"@) matches Some(
                masked,
            ) && declared(masked, section, name) == declared(workspace, section, name),
            None => masked_manifest(manifest, names).get("workspace"@).is_none(),
        },
{
    lemma_scopes_of_masked_manifest(manifest, names, section, name, condition);
    lemma_other_dependency_untouched_in_scope(manifest, names, section, name);
    match target_scope(manifest, condition) {
        Some(scope) => lemma_other_dependency_untouched_in_scope(scope, names, section, name),
        None => {},
    }
    match manifest.get("workspace"@) {
        Some(workspace) => {
            lemma_declared_in_masked_workspace(workspace, names, section, name);
            lemma_other_dependency_untouched_in_scope(workspace, names, section, name);
        },
        None => {},
    }
}

/// Self-version masking: after masking, a manifest's own package version
/// is the placeholder wherever it was a string, whatever the local names
/// are. A version of another shape, and the lack of one, stay.
pub proof fn lemma_own_version_masked(manifest: Doc, names: Set<Seq<char>>)
    ensures
        own_version(masked_manifest(manifest, names)) == match own_version(manifest) {
            Some(Doc::Text(_)) => Some(placeholder()),
            other => other,
        },
{
    lemma_masked_manifest_by_field(manifest, names);
    lemma_get_rewritten(
        manifest,
        |k: Seq<char>, d: Doc| masked_manifest_field(k, d, names),
        "package"@,
    );
    match manifest.get("package"@) {
        Some(package) => {
            lemma_get_rewritten(
                package,
                |k: Seq<char>, d: Doc| if k == "version"@ && d is Text { placeholder() } else { d },
                "version"@,
            );
        },
        None => {},
    }
}

/// Self-version masking over a run: whatever the member filter and the
/// other manifests, each manifest's own string version ends as the
/// placeholder.
pub proof fn lemma_own_version_masked_by_run(
    member: Option<Seq<char>>,
    manifests: Seq<Doc>,
    i: int,
)
    requires
        0 <= i < manifests.len(),
    ensures
        own_version(manifests_after(member, manifests)[i]) == match own_version(manifests[i]) {
            Some(Doc::Text(_)) => Some(placeholder()),
            other => other,
        },
{
    lemma_own_version_masked(manifests[i], local_names(member, manifests));
}

} // verus!
