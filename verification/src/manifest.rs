//! Masking of manifests: the version of the package itself and the
//! versions of its local dependencies, in every scope that declares
//! dependencies.

use vstd::prelude::*;
use crate::content::{Doc, lemma_with_fields};
use crate::document::Value;
use crate::model::{
    masked_version, masked_text_version, masked_section, masked_scope, masked_targets,
    masked_package_version, masked_workspace, masked_dependency_versions, masked_manifest,
    masked_manifests, lemma_keys_differ,
};
use crate::names::LocalPackageNames;
use crate::version::{mask_version, mask_text_version};

verus! {

/// One manifest of the project, parsed.
#[derive(Debug, PartialEq)]
pub struct ParsedManifest {
    pub contents: Value,
}

impl View for ParsedManifest {
    type V = Doc;

    open spec fn view(&self) -> Doc {
        self.contents@
    }
}

impl Clone for ParsedManifest {
    /// A copy with the same content.
    fn clone(&self) -> (copy: ParsedManifest)
        ensures
            copy@ == self@,
    {
        ParsedManifest { contents: self.contents.clone() }
    }
}

/// The content of each manifest, in order.
pub open spec fn contents(manifests: Seq<ParsedManifest>) -> Seq<Doc> {
    Seq::new(manifests.len(), |i: int| manifests[i]@)
}

/// Masks, in one dependency section, the version of each dependency whose
/// key is a local name.
pub fn mask_section(local_package_names: &LocalPackageNames, section: &mut Value)
    ensures
        final(section)@ == masked_section(old(section)@, local_package_names@),
{
    if let Some(table) = section.as_table_mut() {
        let ghost before = table@;
        let n: usize = table.len();
        let mut i: usize = 0;
        while i < n
            invariant
                i <= n,
                n == before.len(),
                n == table@.len(),
                forall|j: int|
                    0 <= j < i ==> #[trigger] table@[j] == (
                        before[j].0,
                        if local_package_names@.contains(before[j].0) {
                            masked_version(before[j].1)
                        } else {
                            before[j].1
                        },
                    ),
                forall|j: int| i <= j < n ==> #[trigger] table@[j] == before[j],
            decreases n - i,
        {
            if local_package_names.contains(table.key(i)) {
                mask_version(table.value_mut(i));
            }
            i += 1;
        }
        proof {
            assert(table@ =~= masked_section(old(section)@, local_package_names@)->Table_0);
        }
    }
}

/// Masks the dependency section stored under `key`, if the scope has one.
fn mask_section_at(local_package_names: &LocalPackageNames, scope: &mut Value, key: &str)
    ensures
        match old(scope)@.get(key@) {
            Some(section) => final(scope)@ == old(scope)@.with(
                key@,
                masked_section(section, local_package_names@),
            ),
            None => final(scope)@ == old(scope)@,
        },
        old(scope)@.well_keyed(),
{
    if let Some(section) = scope.get_mut(key) {
        mask_section(local_package_names, section);
    }
}

/// Masks the three dependency sections of a scope: `dependencies`,
/// `dev-dependencies` and `build-dependencies`, as far as it has them.
pub fn mask_scope(local_package_names: &LocalPackageNames, scope: &mut Value)
    ensures
        final(scope)@ == masked_scope(old(scope)@, local_package_names@),
{
    let ghost names = local_package_names@;
    mask_section_at(local_package_names, scope, "dependencies");
    let ghost first = scope@;
    mask_section_at(local_package_names, scope, "dev-dependencies");
    let ghost second = scope@;
    mask_section_at(local_package_names, scope, "build-dependencies");
    proof {
        lemma_keys_differ();
        let before = old(scope)@;
        if before is Table {
            match before.get("dependencies"@) {
                Some(section) => lemma_with_fields(
                    before,
                    "dependencies"@,
                    masked_section(section, names),
                ),
                None => lemma_with_fields(before, "dependencies"@, before),
            }
            match first.get("dev-dependencies"@) {
                Some(section) => lemma_with_fields(
                    first,
                    "dev-dependencies"@,
                    masked_section(section, names),
                ),
                None => lemma_with_fields(first, "dev-dependencies"@, first),
            }
            match second.get("build-dependencies"@) {
                Some(section) => lemma_with_fields(
                    second,
                    "build-dependencies"@,
                    masked_section(section, names),
                ),
                None => lemma_with_fields(second, "build-dependencies"@, second),
            }
            assert(scope@->Table_0 =~= masked_scope(before, names)->Table_0);
        }
    }
}

/// Masks the scope under each target condition of the `target` table.
pub fn mask_targets(local_package_names: &LocalPackageNames, targets: &mut Value)
    ensures
        final(targets)@ == masked_targets(old(targets)@, local_package_names@),
{
    if let Some(table) = targets.as_table_mut() {
        let ghost before = table@;
        let n: usize = table.len();
        let mut i: usize = 0;
        while i < n
            invariant
                i <= n,
                n == before.len(),
                n == table@.len(),
                forall|j: int|
                    0 <= j < i ==> #[trigger] table@[j] == (
                        before[j].0,
                        masked_scope(before[j].1, local_package_names@),
                    ),
                forall|j: int| i <= j < n ==> #[trigger] table@[j] == before[j],
            decreases n - i,
        {
            mask_scope(local_package_names, table.value_mut(i));
            i += 1;
        }
        proof {
            assert(table@ =~= masked_targets(old(targets)@, local_package_names@)->Table_0);
        }
    }
}

/// Masks the string version of the `package` table of a manifest or of a
/// workspace table.
pub fn mask_package_version(doc: &mut Value)
    ensures
        final(doc)@ == masked_package_version(old(doc)@),
{
    let ghost written = match doc@.get("package"@) {
        Some(package) => masked_text_version(package),
        None => doc@,
    };
    if let Some(package) = doc.get_mut("package") {
        mask_text_version(package);
    }
    proof {
        lemma_with_fields(old(doc)@, "package"@, written);
        if old(doc)@ is Table {
            assert(doc@->Table_0 =~= masked_package_version(old(doc)@)->Table_0);
        }
    }
}

/// Masks the `workspace` table: the version of its `package` table, then
/// its dependency sections.
pub fn mask_workspace(local_package_names: &LocalPackageNames, workspace: &mut Value)
    ensures
        final(workspace)@ == masked_workspace(old(workspace)@, local_package_names@),
{
    mask_package_version(workspace);
    mask_scope(local_package_names, workspace);
}

/// Masks the versions of the local dependencies of one manifest, in each
/// place where a manifest declares dependencies: its own scope, the scope
/// under each target condition, and the workspace table.
pub fn mask_local_dependency_versions(
    local_package_names: &LocalPackageNames,
    manifest: &mut ParsedManifest,
)
    ensures
        final(manifest)@ == masked_dependency_versions(old(manifest)@, local_package_names@),
{
    let ghost names = local_package_names@;
    mask_scope(local_package_names, &mut manifest.contents);
    let ghost scoped = manifest@;
    let ghost targets = match scoped.get("target"@) {
        Some(targets) => masked_targets(targets, names),
        None => scoped,
    };
    if let Some(targets) = manifest.contents.get_mut("target") {
        mask_targets(local_package_names, targets);
    }
    let ghost targeted = manifest@;
    let ghost workspace = match targeted.get("workspace"@) {
        Some(workspace) => masked_workspace(workspace, names),
        None => targeted,
    };
    if let Some(workspace) = manifest.contents.get_mut("workspace") {
        mask_workspace(local_package_names, workspace);
    }
    proof {
        lemma_keys_differ();
        lemma_with_fields(scoped, "target"@, targets);
        lemma_with_fields(targeted, "workspace"@, workspace);
        if old(manifest)@ is Table {
            assert(manifest@->Table_0 =~= masked_dependency_versions(
                old(manifest)@,
                names,
            )->Table_0);
        }
    }
}

/// Masks every manifest: the version of its own package where that is a
/// string, then the versions of its local dependencies.
pub fn mask_local_versions_in_manifests(
    manifests: &mut [ParsedManifest],
    local_package_names: &LocalPackageNames,
)
    ensures
        contents(final(manifests)@) == masked_manifests(
            contents(old(manifests)@),
            local_package_names@,
        ),
{
    let ghost before = contents(manifests@);
    let n: usize = manifests.len();
    let mut i: usize = 0;
    while i < n
        invariant
            i <= n,
            n == before.len(),
            n == manifests@.len(),
            forall|j: int|
                0 <= j < i ==> (#[trigger] manifests@[j])@ == masked_manifest(
                    before[j],
                    local_package_names@,
                ),
            forall|j: int| i <= j < n ==> (#[trigger] manifests@[j])@ == before[j],
        decreases n - i,
    {
        let manifest = &mut manifests[i];
        mask_package_version(&mut manifest.contents);
        mask_local_dependency_versions(local_package_names, manifest);
        i += 1;
    }
    assert(contents(manifests@) =~= masked_manifests(before, local_package_names@));
}

} // verus!
