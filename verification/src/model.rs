//! What masking is, stated on the content of documents.

use vstd::prelude::*;
use crate::content::Doc;

verus! {

/// The version written over every masked version.
pub const CONST_VERSION: &'static str = "0.0.1";

/// The placeholder as a document.
pub open spec fn placeholder() -> Doc {
    Doc::Text("0.0.1"@)
}

/// The three kinds of dependency section that a scope may hold.
pub open spec fn is_dependency_section(key: Seq<char>) -> bool {
    key == "dependencies"@ || key == "dev-dependencies"@ || key == "build-dependencies"@
}

/// A table with the placeholder under `version`, whatever stood there; a
/// table without that field, and anything but a table, is left as it is.
pub open spec fn masked_version(entry: Doc) -> Doc {
    entry.rewrite(|k: Seq<char>, d: Doc| if k == "version"@ { placeholder() } else { d })
}

/// A table with the placeholder under `version` where a string stood there.
pub open spec fn masked_text_version(package: Doc) -> Doc {
    package.rewrite(
        |k: Seq<char>, d: Doc| if k == "version"@ && d is Text { placeholder() } else { d },
    )
}

/// A dependency section with the version of each dependency named in
/// `names` masked.
pub open spec fn masked_section(section: Doc, names: Set<Seq<char>>) -> Doc {
    section.rewrite(|k: Seq<char>, d: Doc| if names.contains(k) { masked_version(d) } else { d })
}

/// A scope with each of its dependency sections masked.
pub open spec fn masked_scope(scope: Doc, names: Set<Seq<char>>) -> Doc {
    scope.rewrite(
        |k: Seq<char>, d: Doc| if is_dependency_section(k) { masked_section(d, names) } else { d },
    )
}

/// The table of target conditions with the scope under each condition masked.
pub open spec fn masked_targets(targets: Doc, names: Set<Seq<char>>) -> Doc {
    targets.rewrite(|k: Seq<char>, d: Doc| masked_scope(d, names))
}

/// A document with the string version of its `package` table masked.
pub open spec fn masked_package_version(doc: Doc) -> Doc {
    doc.rewrite(|k: Seq<char>, d: Doc| if k == "package"@ { masked_text_version(d) } else { d })
}

/// The `workspace` table with its package version and its dependency
/// sections masked.
pub open spec fn masked_workspace(workspace: Doc, names: Set<Seq<char>>) -> Doc {
    masked_scope(masked_package_version(workspace), names)
}

/// A manifest with the versions of the dependencies named in `names`
/// masked in all three scopes: its own, the one under each target
/// condition, and the workspace's.
pub open spec fn masked_dependency_versions(manifest: Doc, names: Set<Seq<char>>) -> Doc {
    manifest.rewrite(
        |k: Seq<char>, d: Doc|
            if is_dependency_section(k) {
                masked_section(d, names)
            } else if k == "target"@ {
                masked_targets(d, names)
            } else if k == "workspace"@ {
                masked_workspace(d, names)
            } else {
                d
            },
    )
}

/// A manifest after masking: its own version, then its dependencies'.
pub open spec fn masked_manifest(manifest: Doc, names: Set<Seq<char>>) -> Doc {
    masked_dependency_versions(masked_package_version(manifest), names)
}

/// Each manifest masked.
pub open spec fn masked_manifests(manifests: Seq<Doc>, names: Set<Seq<char>>) -> Seq<Doc> {
    Seq::new(manifests.len(), |i: int| masked_manifest(manifests[i], names))
}

/// Whether a lock record carries a string name that is in `names`.
pub open spec fn is_local_record(record: Doc, names: Set<Seq<char>>) -> bool {
    match record.get("name"@) {
        Some(Doc::Text(name)) => names.contains(name),
        _ => false,
    }
}

/// A lock record with its version masked if its name is in `names`.
pub open spec fn masked_record(record: Doc, names: Set<Seq<char>>) -> Doc {
    if is_local_record(record, names) {
        masked_version(record)
    } else {
        record
    }
}

/// A list of lock records with each record masked.
pub open spec fn masked_records(records: Doc, names: Set<Seq<char>>) -> Doc {
    records.rewrite_items(|record: Doc| masked_record(record, names))
}

/// A lock document with the records of its `package` list masked.
pub open spec fn masked_lock(lock: Doc, names: Set<Seq<char>>) -> Doc {
    lock.rewrite(|k: Seq<char>, d: Doc| if k == "package"@ { masked_records(d, names) } else { d })
}

/// The name that a manifest declares for its package, if it is a string.
pub open spec fn package_name(manifest: Doc) -> Option<Seq<char>> {
    match manifest.get("package"@) {
        Some(package) => match package.get("name"@) {
            Some(Doc::Text(name)) => Some(name),
            _ => None,
        },
        None => None,
    }
}

/// Whether the section `section` of `manifest` declares `name` as a table
/// with a `path` field.
pub open spec fn declares_path(manifest: Doc, section: Seq<char>, name: Seq<char>) -> bool {
    match manifest.get(section) {
        Some(dependencies) => match dependencies.get(name) {
            Some(dependency) => dependency.get("path"@).is_some(),
            None => false,
        },
        None => false,
    }
}

/// Whether one of the manifest's own dependency sections declares `name`
/// by path.
pub open spec fn is_path_dependency(manifest: Doc, name: Seq<char>) -> bool {
    ||| declares_path(manifest, "dependencies"@, name)
    ||| declares_path(manifest, "dev-dependencies"@, name)
    ||| declares_path(manifest, "build-dependencies"@, name)
}

/// What one manifest contributes to the local names: without a member
/// filter its package name; with one, the path dependencies of the manifest
/// whose package has that name, and nothing from any other.
pub open spec fn contributes(member: Option<Seq<char>>, manifest: Doc, name: Seq<char>) -> bool {
    match member {
        None => package_name(manifest) == Some(name),
        Some(selected) => package_name(manifest) == Some(selected) && is_path_dependency(
            manifest,
            name,
        ),
    }
}

/// The names of the packages that count as local.
pub open spec fn local_names(member: Option<Seq<char>>, manifests: Seq<Doc>) -> Set<Seq<char>> {
    Set::new(
        |name: Seq<char>|
            exists|i: int|
                0 <= i < manifests.len() && contributes(member, #[trigger] manifests[i], name),
    )
}

/// The manifests after a masking run.
pub open spec fn manifests_after(member: Option<Seq<char>>, manifests: Seq<Doc>) -> Seq<Doc> {
    masked_manifests(manifests, local_names(member, manifests))
}

/// The lock document after a masking run over it and `manifests`.
pub open spec fn lock_after(member: Option<Seq<char>>, manifests: Seq<Doc>, lock: Doc) -> Doc {
    masked_lock(lock, local_names(member, manifests))
}

/// The version that a manifest declares for its own package.
pub open spec fn own_version(manifest: Doc) -> Option<Doc> {
    match manifest.get("package"@) {
        Some(package) => package.get("version"@),
        None => None,
    }
}

/// What the section `section` of a scope declares under `name`.
pub open spec fn declared(scope: Doc, section: Seq<char>, name: Seq<char>) -> Option<Doc> {
    match scope.get(section) {
        Some(dependencies) => dependencies.get(name),
        None => None,
    }
}

/// The version that the section `section` of a scope declares for `name`,
/// where it declares `name` as a table with a `version` field.
pub open spec fn declared_version(scope: Doc, section: Seq<char>, name: Seq<char>) -> Option<
    Doc,
> {
    match declared(scope, section, name) {
        Some(dependency) => dependency.get("version"@),
        None => None,
    }
}

/// The scope that a manifest holds under the target condition `condition`.
pub open spec fn target_scope(manifest: Doc, condition: Seq<char>) -> Option<Doc> {
    match manifest.get("target"@) {
        Some(targets) => targets.get(condition),
        None => None,
    }
}

/// The records of a lock document: the items of its `package` list.
pub open spec fn lock_records(lock: Doc) -> Seq<Doc> {
    match lock.get("package"@) {
        Some(Doc::List(records)) => records,
        _ => Seq::empty(),
    }
}

/// The placeholder where there is a version, nothing where there is none.
pub open spec fn masked_where_present(version: Option<Doc>) -> Option<Doc> {
    match version {
        Some(_) => Some(placeholder()),
        None => None,
    }
}

/// The keys that masking looks up are different words.
pub proof fn lemma_keys_differ()
    ensures
        !is_dependency_section("package"@),
        !is_dependency_section("target"@),
        !is_dependency_section("workspace"@),
        "dependencies"@ != "dev-dependencies"@,
        "dependencies"@ != "build-dependencies"@,
        "dev-dependencies"@ != "build-dependencies"@,
        "package"@ != "target"@,
        "package"@ != "workspace"@,
        "target"@ != "workspace"@,
        "version"@ != "name"@,
        "version"@ != "path"@,
{
    reveal_strlit("package");
    reveal_strlit("target");
    reveal_strlit("workspace");
    reveal_strlit("dependencies");
    reveal_strlit("dev-dependencies");
    reveal_strlit("build-dependencies");
    reveal_strlit("version");
    reveal_strlit("name");
    reveal_strlit("path");
    assert("package"@.len() == 7 && "target"@.len() == 6 && "workspace"@.len() == 9);
    assert("dependencies"@.len() == 12 && "dev-dependencies"@.len() == 16);
    assert("build-dependencies"@.len() == 18);
    assert("version"@.len() == 7 && "name"@.len() == 4 && "path"@.len() == 4);
}

} // verus!
