//! Masking of the lock document.

use vstd::prelude::*;
use crate::content::lemma_with_fields;
use crate::document::{Value, docs};
use crate::model::{is_local_record, masked_record, masked_records, masked_lock};
use crate::names::LocalPackageNames;
use crate::version::mask_version;

verus! {

/// Whether a lock record carries a string name that is a local name.
pub fn is_local_package(record: &Value, local_package_names: &LocalPackageNames) -> (local: bool)
    ensures
        local == is_local_record(record@, local_package_names@),
{
    match record.get("name") {
        Some(name) => match name.as_str() {
            Some(text) => local_package_names.contains(text),
            None => false,
        },
        None => false,
    }
}

/// Masks the version of a lock record whose name is a local name.
pub fn mask_record(record: &mut Value, local_package_names: &LocalPackageNames)
    ensures
        final(record)@ == masked_record(old(record)@, local_package_names@),
{
    if is_local_package(record, local_package_names) {
        mask_version(record);
    }
}

/// Masks each record of a list of lock records.
pub fn mask_records(records: &mut Value, local_package_names: &LocalPackageNames)
    ensures
        final(records)@ == masked_records(old(records)@, local_package_names@),
{
    if let Some(packages) = records.as_array_mut() {
        let ghost before = docs(packages@);
        let n: usize = packages.len();
        let mut i: usize = 0;
        while i < n
            invariant
                i <= n,
                n == before.len(),
                n == packages@.len(),
                forall|j: int|
                    0 <= j < i ==> (#[trigger] packages@[j])@ == masked_record(
                        before[j],
                        local_package_names@,
                    ),
                forall|j: int| i <= j < n ==> (#[trigger] packages@[j])@ == before[j],
            decreases n - i,
        {
            mask_record(&mut packages[i], local_package_names);
            i += 1;
        }
        proof {
            assert(docs(packages@) =~= masked_records(
                old(records)@,
                local_package_names@,
            )->List_0);
        }
    }
}

/// Masks the lock document: the version of every record of its `package`
/// list whose name is a local name. No record is added, removed or moved.
pub fn mask_local_versions_in_lockfile(
    lock_file: &mut Value,
    local_package_names: &LocalPackageNames,
)
    ensures
        final(lock_file)@ == masked_lock(old(lock_file)@, local_package_names@),
{
    let ghost written = match lock_file@.get("package"@) {
        Some(packages) => masked_records(packages, local_package_names@),
        None => lock_file@,
    };
    if let Some(packages) = lock_file.get_mut("package") {
        mask_records(packages, local_package_names);
    }
    proof {
        lemma_with_fields(old(lock_file)@, "package"@, written);
        if old(lock_file)@ is Table {
            assert(lock_file@->Table_0 =~= masked_lock(
                old(lock_file)@,
                local_package_names@,
            )->Table_0);
        }
    }
}

} // verus!
