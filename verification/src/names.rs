//! The set of local package names and how it is resolved from the
//! manifests.

use vstd::prelude::*;
use vstd::hash_set::StringHashSet;
use crate::content::{
    Doc, distinct_keys, index_of, is_first, lemma_index_of_first, lemma_index_of_found,
};
use crate::document::Value;
use crate::manifest::{ParsedManifest, contents};
use crate::model::{package_name, declares_path, contributes, local_names};
use crate::text::str_eq;

verus! {

/// The names of the packages that count as local during one masking run.
pub struct LocalPackageNames {
    names: StringHashSet,
}

impl View for LocalPackageNames {
    type V = Set<Seq<char>>;

    closed spec fn view(&self) -> Set<Seq<char>> {
        self.names@
    }
}

impl LocalPackageNames {
    /// The empty set of names.
    pub fn new() -> (names: LocalPackageNames)
        ensures
            names@ == Set::<Seq<char>>::empty(),
    {
        LocalPackageNames { names: StringHashSet::new() }
    }

    /// Adds `name`; says whether it was new.
    pub fn insert(&mut self, name: String) -> (added: bool)
        ensures
            final(self)@ == old(self)@.insert(name@),
            added == !old(self)@.contains(name@),
    {
        self.names.insert(name)
    }

    /// Whether `name` is in the set.
    pub fn contains(&self, name: &str) -> (found: bool)
        ensures
            found == self@.contains(name@),
    {
        self.names.contains(name)
    }

    /// The number of names.
    pub fn len(&self) -> (n: usize)
        ensures
            n == self@.len(),
    {
        self.names.len()
    }

    /// Whether the set holds no name.
    pub fn is_empty(&self) -> (empty: bool)
        ensures
            empty == self@.is_empty(),
    {
        self.names.is_empty()
    }
}

/// The member filter as text.
pub open spec fn member_text(member: Option<String>) -> Option<Seq<char>> {
    match member {
        Some(name) => Some(name@),
        None => None,
    }
}

/// The name that a manifest declares for its package, if it is a string.
pub fn declared_name(manifest: &Value) -> (name: Option<&str>)
    ensures
        match name {
            Some(s) => package_name(manifest@) == Some(s@),
            None => package_name(manifest@).is_none(),
        },
{
    match manifest.get("package") {
        Some(package) => match package.get("name") {
            Some(name) => name.as_str(),
            None => None,
        },
        None => None,
    }
}

/// The field at position `j` stands under `name` and is a table with a
/// `path` field.
spec fn path_field(fields: Seq<(Seq<char>, Doc)>, name: Seq<char>, j: int) -> bool {
    &&& 0 <= j < fields.len()
    &&& fields[j].0 == name
    &&& fields[j].1.get("path"@).is_some()
}

/// In a table without a repeated key, a name is declared by path exactly
/// when some field under that name holds a `path`.
proof fn lemma_declared_by_some_field(fields: Seq<(Seq<char>, Doc)>, name: Seq<char>)
    requires
        distinct_keys(fields),
    ensures
        (match Doc::Table(fields).get(name) {
            Some(dependency) => dependency.get("path"@).is_some(),
            None => false,
        }) <==> exists|j: int| path_field(fields, name, j),
{
    lemma_index_of_found(fields, name);
    if exists|j: int| path_field(fields, name, j) {
        let j = choose|j: int| path_field(fields, name, j);
        lemma_index_of_first(fields, name, j);
    }
    match index_of(fields, name) {
        Some(i) => {
            if fields[i].1.get("path"@).is_some() {
                assert(path_field(fields, name, i));
            }
        },
        None => {},
    }
}

/// Adds to `names` every dependency that the section `section` of
/// `manifest` declares by path.
pub fn collect_path_dependencies(manifest: &Value, section: &str, names: &mut LocalPackageNames)
    ensures
        forall|name: Seq<char>|
            final(names)@.contains(name) <==> (old(names)@.contains(name) || declares_path(
                manifest@,
                section@,
                name,
            )),
{
    if let Some(dependencies) = manifest.get(section) {
        if let Some(table) = dependencies.as_table() {
            let n: usize = table.len();
            let mut i: usize = 0;
            while i < n
                invariant
                    i <= n,
                    n == table@.len(),
                    forall|name: Seq<char>|
                        names@.contains(name) <==> (old(names)@.contains(name) || exists|j: int|
                            j < i && path_field(table@, name, j)),
                decreases n - i,
            {
                let ghost before = names@;
                if table.value(i).get("path").is_some() {
                    names.insert(table.key(i).to_owned());
                }
                proof {
                    assert forall|name: Seq<char>|
                        names@.contains(name) <==> (old(names)@.contains(name) || exists|j: int|
                            j < i + 1 && path_field(table@, name, j)) by {
                        if exists|j: int| j < i + 1 && path_field(table@, name, j) {
                            let j = choose|j: int| j < i + 1 && path_field(table@, name, j);
                            if j < i {
                                assert(before.contains(name));
                            }
                        }
                        if names@.contains(name) && !before.contains(name) {
                            assert(path_field(table@, name, i as int));
                        }
                    }
                }
                i += 1;
            }
            proof {
                assert forall|name: Seq<char>|
                    names@.contains(name) <==> (old(names)@.contains(name) || declares_path(
                        manifest@,
                        section@,
                        name,
                    )) by {
                    lemma_declared_by_some_field(table@, name);
                }
            }
        }
    }
}

/// Adds to `names` what one manifest contributes under the member filter.
pub fn collect_from_manifest(
    member: &Option<String>,
    manifest: &ParsedManifest,
    names: &mut LocalPackageNames,
)
    ensures
        forall|name: Seq<char>|
            final(names)@.contains(name) <==> (old(names)@.contains(name) || contributes(
                member_text(*member),
                manifest@,
                name,
            )),
{
    if let Some(name) = declared_name(&manifest.contents) {
        match member {
            Some(selected) => {
                if str_eq(selected.as_str(), name) {
                    collect_path_dependencies(&manifest.contents, "dependencies", names);
                    collect_path_dependencies(&manifest.contents, "dev-dependencies", names);
                    collect_path_dependencies(&manifest.contents, "build-dependencies", names);
                }
            },
            None => {
                names.insert(name.to_owned());
            },
        }
    }
}

/// Resolves the names of the local packages. Without a member filter these
/// are the package names that the manifests declare. With one, they are the
/// dependencies that the manifest of that member declares by path, under
/// the keys by which it refers to them.
pub fn parse_local_crate_names(member: &Option<String>, manifests: &[ParsedManifest]) -> (names:
    LocalPackageNames)
    ensures
        names@ == local_names(member_text(*member), contents(manifests@)),
{
    let mut names = LocalPackageNames::new();
    let n: usize = manifests.len();
    let mut i: usize = 0;
    while i < n
        invariant
            i <= n,
            n == manifests@.len(),
            forall|name: Seq<char>|
                names@.contains(name) <==> exists|j: int|
                    0 <= j < i && contributes(
                        member_text(*member),
                        #[trigger] contents(manifests@)[j],
                        name,
                    ),
        decreases n - i,
    {
        let ghost before = names@;
        collect_from_manifest(member, &manifests[i], &mut names);
        proof {
            let docs = contents(manifests@);
            assert(docs[i as int] == manifests@[i as int]@);
            assert forall|name: Seq<char>|
                names@.contains(name) <==> exists|j: int|
                    0 <= j < i + 1 && contributes(
                        member_text(*member),
                        #[trigger] docs[j],
                        name,
                    ) by {
                if exists|j: int|
                    0 <= j < i + 1 && contributes(member_text(*member), #[trigger] docs[j], name) {
                    let j = choose|j: int|
                        0 <= j < i + 1 && contributes(
                            member_text(*member),
                            #[trigger] docs[j],
                            name,
                        );
                    if j < i {
                        assert(before.contains(name));
                    }
                }
                if before.contains(name) {
                    let j = choose|j: int|
                        0 <= j < i && contributes(member_text(*member), #[trigger] docs[j], name);
                    assert(0 <= j < i + 1);
                }
            }
        }
        i += 1;
    }
    assert(names@ =~= local_names(member_text(*member), contents(manifests@)));
    names
}

} // verus!
