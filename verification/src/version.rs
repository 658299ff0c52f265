//! The placeholder and the two ways of writing it over a `version` field.

use vstd::prelude::*;
use crate::content::lemma_with_fields;
use crate::document::Value;
use crate::model::{CONST_VERSION, placeholder, masked_version, masked_text_version};

verus! {

/// The placeholder as a value.
pub fn placeholder_value() -> (value: Value)
    ensures
        value@ == placeholder(),
{
    Value::String(CONST_VERSION.to_owned())
}

/// Writes the placeholder over the `version` field of a table, whatever
/// stands there. A table without that field, and anything but a table, is
/// left as it is.
pub fn mask_version(entry: &mut Value)
    ensures
        final(entry)@ == masked_version(old(entry)@),
{
    if let Some(version) = entry.get_mut("version") {
        *version = placeholder_value();
    }
    proof {
        lemma_with_fields(old(entry)@, "version"@, placeholder());
        if old(entry)@ is Table {
            assert(entry@->Table_0 =~= masked_version(old(entry)@)->Table_0);
        }
    }
}

/// Writes the placeholder over the `version` field of a table where a
/// string stands there. A version of any other shape is left as it is.
pub fn mask_text_version(package: &mut Value)
    ensures
        final(package)@ == masked_text_version(old(package)@),
{
    if let Some(version) = package.get_mut("version") {
        if version.as_str().is_some() {
            *version = placeholder_value();
        }
    }
    proof {
        lemma_with_fields(old(package)@, "version"@, placeholder());
        lemma_with_fields(old(package)@, "version"@, old(package)@.get("version"@).unwrap());
        if old(package)@ is Table {
            assert(package@->Table_0 =~= masked_text_version(old(package)@)->Table_0);
        }
    }
}

} // verus!
