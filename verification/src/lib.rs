//! Masking of the versions of local packages in the manifests and the lock
//! file of a project, so that a snapshot of them does not change when only
//! the version of a local package does.

use vstd::prelude::*;
use crate::document::Value;
use crate::lockfile::mask_local_versions_in_lockfile;
use crate::manifest::{ParsedManifest, contents, mask_local_versions_in_manifests};
use crate::model::{manifests_after, lock_after};
use crate::names::{member_text, parse_local_crate_names};

pub mod content;
pub mod datetime;
pub mod document;
pub mod laws;
pub mod lockfile;
pub mod manifest;
pub mod model;
pub mod names;
pub mod text;
pub mod version;

verus! {

/// Masks the versions of the local packages in all manifests and, if there
/// is one, in the lock document. The local names are resolved once, from
/// the manifests as they are handed in, and used for both.
pub fn mask_local_crate_versions(
    member: &Option<String>,
    manifests: &mut [ParsedManifest],
    lock_file: &mut Option<Value>,
)
    ensures
        contents(final(manifests)@) == manifests_after(
            member_text(*member),
            contents(old(manifests)@),
        ),
        match *old(lock_file) {
            Some(lock) => *final(lock_file) matches Some(masked) && masked@ == lock_after(
                member_text(*member),
                contents(old(manifests)@),
                lock@,
            ),
            None => *final(lock_file) is None,
        },
{
    let local_package_names = parse_local_crate_names(member, manifests);
    mask_local_versions_in_manifests(manifests, &local_package_names);
    if let Some(lock) = lock_file {
        mask_local_versions_in_lockfile(lock, &local_package_names);
    }
}

} // verus!
