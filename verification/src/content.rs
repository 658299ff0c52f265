//! The mathematical content of documents, and what holds of looking a key
//! up in a table and of rewriting its fields.
//!
//! In the tables of a document that is the content of a
//! [`Value`](crate::document::Value) no key occurs twice, so the field
//! under a key is one field. The functions here are defined on every
//! sequence of fields all the same: `get` and `with` go by the first field
//! under a key, `rewrite` by each field.

use vstd::prelude::*;
use crate::datetime::Datetime;

verus! {

/// The mathematical content of a document: a tree of scalars, lists and tables.
///
/// A table is the sequence of its fields in document order, each a key with
/// the document stored under it.
pub ghost enum Doc {
    Text(Seq<char>),
    Integer(i64),
    /// A floating-point scalar, held as its IEEE-754 bit pattern.
    Float(u64),
    Boolean(bool),
    Datetime(Datetime),
    List(Seq<Doc>),
    Table(Seq<(Seq<char>, Doc)>),
}

/// No key occurs twice among the fields.
pub open spec fn distinct_keys(fields: Seq<(Seq<char>, Doc)>) -> bool {
    forall|i: int, j: int|
        0 <= i < j < fields.len() ==> (#[trigger] fields[i]).0 != (#[trigger] fields[j]).0
}

/// `i` is the position of the first field stored under `key`.
pub open spec fn is_first(fields: Seq<(Seq<char>, Doc)>, key: Seq<char>, i: int) -> bool {
    &&& 0 <= i < fields.len()
    &&& fields[i].0 == key
    &&& forall|j: int| 0 <= j < i ==> (#[trigger] fields[j]).0 != key
}

/// The position of the first field stored under `key`, if there is one.
pub open spec fn index_of(fields: Seq<(Seq<char>, Doc)>, key: Seq<char>) -> Option<int> {
    if exists|i: int| is_first(fields, key, i) {
        Some(choose|i: int| is_first(fields, key, i))
    } else {
        None
    }
}

/// The document stored under `key`, if there is one.
pub open spec fn lookup(fields: Seq<(Seq<char>, Doc)>, key: Seq<char>) -> Option<Doc> {
    match index_of(fields, key) {
        Some(i) => Some(fields[i].1),
        None => None,
    }
}

/// The same fields in the same order, the document under each key `k`
/// replaced by `f(k, ..)` of it.
pub open spec fn rewrite_fields(
    fields: Seq<(Seq<char>, Doc)>,
    f: spec_fn(Seq<char>, Doc) -> Doc,
) -> Seq<(Seq<char>, Doc)> {
    Seq::new(fields.len(), |i: int| (fields[i].0, f(fields[i].0, fields[i].1)))
}

impl Doc {
    /// The document stored under `key`; `None` unless this is a table that has the key.
    pub open spec fn get(self, key: Seq<char>) -> Option<Doc> {
        match self {
            Doc::Table(fields) => lookup(fields, key),
            _ => None,
        }
    }

    /// This document with `written` stored under `key` in place of what
    /// `get` finds there; the document itself if `get` finds nothing.
    pub open spec fn with(self, key: Seq<char>, written: Doc) -> Doc {
        match self {
            Doc::Table(fields) => match index_of(fields, key) {
                Some(i) => Doc::Table(fields.update(i, (key, written))),
                None => self,
            },
            _ => self,
        }
    }

    /// No key occurs twice among the fields of this document, if it is a table.
    pub open spec fn well_keyed(self) -> bool {
        match self {
            Doc::Table(fields) => distinct_keys(fields),
            _ => true,
        }
    }

    /// A table with the document under each key rewritten by `f`; anything
    /// but a table is left as it is.
    pub open spec fn rewrite(self, f: spec_fn(Seq<char>, Doc) -> Doc) -> Doc {
        match self {
            Doc::Table(fields) => Doc::Table(rewrite_fields(fields, f)),
            _ => self,
        }
    }

    /// A list with each item rewritten by `f`; anything but a list is left as it is.
    pub open spec fn rewrite_items(self, f: spec_fn(Doc) -> Doc) -> Doc {
        match self {
            Doc::List(items) => Doc::List(Seq::new(items.len(), |i: int| f(items[i]))),
            _ => self,
        }
    }
}

/// The first field under a key is found at exactly one position.
pub proof fn lemma_index_of_first(fields: Seq<(Seq<char>, Doc)>, key: Seq<char>, i: int)
    requires
        is_first(fields, key, i),
    ensures
        index_of(fields, key) == Some(i),
        lookup(fields, key) == Some(fields[i].1),
{
    let c = choose|c: int| is_first(fields, key, c);
    if c < i {
        assert(fields[c].0 != key);
    } else if i < c {
        assert(fields[i].0 != key);
    }
}

/// A key that no field is stored under is not found.
pub proof fn lemma_index_of_absent(fields: Seq<(Seq<char>, Doc)>, key: Seq<char>)
    requires
        forall|j: int| 0 <= j < fields.len() ==> (#[trigger] fields[j]).0 != key,
    ensures
        index_of(fields, key).is_none(),
        lookup(fields, key).is_none(),
{
}

/// What `index_of` finds is the first field under the key.
pub proof fn lemma_index_of_found(fields: Seq<(Seq<char>, Doc)>, key: Seq<char>)
    ensures
        match index_of(fields, key) {
            Some(i) => is_first(fields, key, i),
            None => forall|i: int| !is_first(fields, key, i),
        },
{
}

/// A key that is not found stands before none of the first `n` fields.
proof fn lemma_not_found_prefix(fields: Seq<(Seq<char>, Doc)>, key: Seq<char>, n: int)
    requires
        index_of(fields, key).is_none(),
        0 <= n <= fields.len(),
    ensures
        forall|j: int| 0 <= j < n ==> (#[trigger] fields[j]).0 != key,
    decreases n,
{
    if n > 0 {
        lemma_not_found_prefix(fields, key, n - 1);
        if fields[n - 1].0 == key {
            assert(is_first(fields, key, n - 1));
        }
    }
}

/// A key that is not found has no field stored under it.
pub proof fn lemma_not_found(fields: Seq<(Seq<char>, Doc)>, key: Seq<char>)
    requires
        index_of(fields, key).is_none(),
    ensures
        forall|j: int| 0 <= j < fields.len() ==> (#[trigger] fields[j]).0 != key,
{
    lemma_not_found_prefix(fields, key, fields.len() as int);
}

/// Rewriting the fields of a table keeps every key in place, so a lookup
/// finds the rewritten form of what it found before.
pub proof fn lemma_lookup_rewritten(
    fields: Seq<(Seq<char>, Doc)>,
    f: spec_fn(Seq<char>, Doc) -> Doc,
    key: Seq<char>,
)
    ensures
        index_of(rewrite_fields(fields, f), key) == index_of(fields, key),
        lookup(rewrite_fields(fields, f), key) == match lookup(fields, key) {
            Some(d) => Some(f(key, d)),
            None => None,
        },
{
    let after = rewrite_fields(fields, f);
    assert forall|i: int| is_first(after, key, i) <==> is_first(fields, key, i) by {
        if is_first(after, key, i) {
            assert forall|j: int| 0 <= j < i implies (#[trigger] fields[j]).0 != key by {
                assert(after[j].0 == fields[j].0);
            }
        }
        if is_first(fields, key, i) {
            assert forall|j: int| 0 <= j < i implies (#[trigger] after[j]).0 != key by {
                assert(after[j].0 == fields[j].0);
            }
        }
    }
    lemma_index_of_found(fields, key);
    match index_of(fields, key) {
        Some(i) => {
            lemma_index_of_first(after, key, i);
        },
        None => {},
    }
}

/// Rewriting the fields of a table keeps every key in place, so `get`
/// finds the rewritten form of what it found before.
pub proof fn lemma_get_rewritten(doc: Doc, f: spec_fn(Seq<char>, Doc) -> Doc, key: Seq<char>)
    ensures
        doc.rewrite(f).get(key) == match doc.get(key) {
            Some(d) => Some(f(key, d)),
            None => None,
        },
{
    match doc {
        Doc::Table(fields) => lemma_lookup_rewritten(fields, f, key),
        _ => {},
    }
}

/// Rewriting twice by a rule that changes nothing the second time is
/// rewriting once.
pub proof fn lemma_rewrite_idempotent(doc: Doc, f: spec_fn(Seq<char>, Doc) -> Doc)
    requires
        forall|k: Seq<char>, d: Doc| #[trigger] f(k, f(k, d)) == f(k, d),
    ensures
        doc.rewrite(f).rewrite(f) == doc.rewrite(f),
{
    match doc {
        Doc::Table(fields) => {
            assert(rewrite_fields(rewrite_fields(fields, f), f) =~= rewrite_fields(fields, f));
        },
        _ => {},
    }
}

/// Rewriting by one rule and then by another is rewriting by the two in turn.
pub proof fn lemma_rewrite_twice(
    doc: Doc,
    f: spec_fn(Seq<char>, Doc) -> Doc,
    g: spec_fn(Seq<char>, Doc) -> Doc,
)
    ensures
        doc.rewrite(f).rewrite(g) == doc.rewrite(|k: Seq<char>, d: Doc| g(k, f(k, d))),
{
    match doc {
        Doc::Table(fields) => {
            assert(rewrite_fields(rewrite_fields(fields, f), g) =~= rewrite_fields(
                fields,
                |k: Seq<char>, d: Doc| g(k, f(k, d)),
            ));
        },
        _ => {},
    }
}

/// Rules that agree on every field rewrite alike.
pub proof fn lemma_rewrite_agree(
    doc: Doc,
    f: spec_fn(Seq<char>, Doc) -> Doc,
    g: spec_fn(Seq<char>, Doc) -> Doc,
)
    requires
        forall|k: Seq<char>, d: Doc| #[trigger] f(k, d) == g(k, d),
    ensures
        doc.rewrite(f) == doc.rewrite(g),
{
    match doc {
        Doc::Table(fields) => {
            assert(rewrite_fields(fields, f) =~= rewrite_fields(fields, g));
        },
        _ => {},
    }
}

/// Rewriting by a rule that changes no field changes nothing.
pub proof fn lemma_rewrite_nothing(doc: Doc, f: spec_fn(Seq<char>, Doc) -> Doc)
    requires
        forall|k: Seq<char>, d: Doc| #[trigger] f(k, d) == d,
    ensures
        doc.rewrite(f) == doc,
{
    match doc {
        Doc::Table(fields) => {
            assert(rewrite_fields(fields, f) =~= fields);
        },
        _ => {},
    }
}

/// Rewriting the items of a list by a rule that changes no item changes
/// nothing.
pub proof fn lemma_rewrite_items_nothing(doc: Doc, f: spec_fn(Doc) -> Doc)
    requires
        forall|d: Doc| #[trigger] f(d) == d,
    ensures
        doc.rewrite_items(f) == doc,
{
    match doc {
        Doc::List(items) => {
            assert(doc.rewrite_items(f)->List_0 =~= items);
        },
        _ => {},
    }
}

/// Rewriting the items of a list twice by a rule that changes nothing the
/// second time is rewriting them once.
pub proof fn lemma_rewrite_items_idempotent(doc: Doc, f: spec_fn(Doc) -> Doc)
    requires
        forall|d: Doc| #[trigger] f(f(d)) == f(d),
    ensures
        doc.rewrite_items(f).rewrite_items(f) == doc.rewrite_items(f),
{
    match doc {
        Doc::List(items) => {
            assert(doc.rewrite_items(f).rewrite_items(f)->List_0 =~= doc.rewrite_items(f)->List_0);
        },
        _ => {},
    }
}

/// In a table without a repeated key, storing a document under a key
/// that is there changes the one field under that key and nothing else.
pub proof fn lemma_with_fields(doc: Doc, key: Seq<char>, written: Doc)
    requires
        doc.well_keyed(),
    ensures
        match doc {
            Doc::Table(fields) => {
                &&& doc.with(key, written) matches Doc::Table(now)
                &&& now.len() == fields.len()
                &&& forall|i: int|
                    0 <= i < fields.len() ==> #[trigger] now[i] == if fields[i].0 == key {
                        (key, written)
                    } else {
                        fields[i]
                    }
                &&& forall|i: int|
                    0 <= i < fields.len() && (#[trigger] fields[i]).0 == key ==> doc.get(key)
                        == Some(fields[i].1)
                &&& doc.get(key).is_none() ==> forall|i: int|
                    0 <= i < fields.len() ==> (#[trigger] fields[i]).0 != key
            },
            _ => doc.with(key, written) == doc && doc.get(key).is_none(),
        },
{
    match doc {
        Doc::Table(fields) => {
            lemma_index_of_found(fields, key);
            if index_of(fields, key).is_none() {
                lemma_not_found(fields, key);
            }
            assert forall|i: int| 0 <= i < fields.len() && (#[trigger] fields[i]).0
                == key implies doc.get(key) == Some(fields[i].1) by {
                lemma_index_of_first(fields, key, i);
            }
        },
        _ => {},
    }
}

/// Storing a document under a key keeps every key in place: `get` finds
/// what was stored under that key, and under any other key what it found
/// before.
pub proof fn lemma_get_with(doc: Doc, key: Seq<char>, written: Doc, other: Seq<char>)
    ensures
        doc.with(key, written).get(other) == if other == key && doc.get(key).is_some() {
            Some(written)
        } else {
            doc.get(other)
        },
{
    match doc {
        Doc::Table(fields) => {
            lemma_index_of_found(fields, key);
            match index_of(fields, key) {
                Some(at) => {
                    let now = fields.update(at, (key, written));
                    assert forall|i: int| is_first(now, other, i) <==> is_first(
                        fields,
                        other,
                        i,
                    ) by {
                        if is_first(now, other, i) {
                            assert forall|j: int| 0 <= j < i implies (#[trigger] fields[j]).0
                                != other by {
                                assert(now[j].0 == fields[j].0);
                            }
                        }
                        if is_first(fields, other, i) {
                            assert forall|j: int| 0 <= j < i implies (#[trigger] now[j]).0
                                != other by {
                                assert(now[j].0 == fields[j].0);
                            }
                        }
                    }
                    lemma_index_of_found(fields, other);
                    match index_of(fields, other) {
                        Some(i) => lemma_index_of_first(now, other, i),
                        None => {},
                    }
                },
                None => {},
            }
        },
        _ => {},
    }
}

/// Rewriting by a rule that does not look at what stands under `key`
/// forgets what was stored there.
pub proof fn lemma_rewrite_forgets(
    doc: Doc,
    f: spec_fn(Seq<char>, Doc) -> Doc,
    key: Seq<char>,
    written: Doc,
)
    requires
        doc.get(key) matches Some(d) && f(key, written) == f(key, d),
    ensures
        doc.with(key, written).rewrite(f) == doc.rewrite(f),
{
    let fields = doc->Table_0;
    lemma_index_of_found(fields, key);
    let at = index_of(fields, key)->Some_0;
    assert(rewrite_fields(fields.update(at, (key, written)), f) =~= rewrite_fields(fields, f));
}

} // verus!
