//! Documents as values: scalars, arrays and tables, with accessors that
//! answer `None` where the shape is another.

use vstd::prelude::*;
use crate::content::{
    Doc, distinct_keys, index_of, lookup, lemma_index_of_first, lemma_index_of_absent,
    lemma_index_of_found, lemma_not_found,
};
use crate::datetime::Datetime;
use crate::text::str_eq;

verus! {

/// A document value: a scalar, a list of values, or a table of values.
#[derive(Debug, PartialEq)]
pub enum Value {
    String(String),
    Integer(i64),
    /// A floating-point scalar, held as its IEEE-754 bit pattern.
    Float(u64),
    Boolean(bool),
    Datetime(Datetime),
    Array(Vec<Value>),
    Table(Table),
}

/// A table of values in document order, with no key twice.
///
/// The keys and the values are held apart, the key of a field at the
/// position of its value: a value can then be lent out for writing while
/// every key stays as it is.
#[derive(Debug, PartialEq)]
pub struct Table {
    keys: Vec<String>,
    values: Vec<Value>,
}

impl Value {
    /// The content of this value.
    pub open spec fn content(&self) -> Doc
        decreases self,
    {
        match self {
            Value::String(s) => Doc::Text(s@),
            Value::Integer(n) => Doc::Integer(*n),
            Value::Float(bits) => Doc::Float(*bits),
            Value::Boolean(b) => Doc::Boolean(*b),
            Value::Datetime(at) => Doc::Datetime(*at),
            Value::Array(items) => Doc::List(
                Seq::new(
                    items@.len(),
                    |i: int|
                        if 0 <= i < items@.len() {
                            items@[i].content()
                        } else {
                            Doc::Boolean(false)
                        },
                ),
            ),
            Value::Table(table) => Doc::Table(table.fields()),
        }
    }
}

impl Table {
    /// The fields of this table, in order.
    pub closed spec fn fields(&self) -> Seq<(Seq<char>, Doc)>
        decreases self,
    {
        Seq::new(
            self.values@.len(),
            |i: int|
                if 0 <= i < self.values@.len() && i < self.keys@.len() {
                    (self.keys@[i]@, self.values@[i].content())
                } else {
                    (Seq::empty(), Doc::Boolean(false))
                },
        )
    }
}

impl View for Value {
    type V = Doc;

    open spec fn view(&self) -> Doc {
        self.content()
    }
}

impl View for Table {
    type V = Seq<(Seq<char>, Doc)>;

    open spec fn view(&self) -> Seq<(Seq<char>, Doc)> {
        self.fields()
    }
}

impl Table {
    #[verifier::type_invariant]
    spec fn well_formed(&self) -> bool {
        &&& self.keys@.len() == self.values@.len()
        &&& forall|i: int, j: int|
            0 <= i < j < self.keys@.len() ==> (#[trigger] self.keys@[i])@ != (
            #[trigger] self.keys@[j])@
    }

    /// A table without fields.
    pub fn new() -> (table: Table)
        ensures
            table@ == Seq::<(Seq<char>, Doc)>::empty(),
    {
        Table { keys: Vec::new(), values: Vec::new() }
    }

    /// The number of fields. No two of them have the same key.
    pub fn len(&self) -> (n: usize)
        ensures
            n == self@.len(),
            distinct_keys(self@),
    {
        proof {
            use_type_invariant(self);
        }
        self.values.len()
    }

    /// The key of the field at position `i`.
    pub fn key(&self, i: usize) -> (key: &str)
        requires
            i < self@.len(),
        ensures
            key@ == self@[i as int].0,
    {
        proof {
            use_type_invariant(self);
        }
        self.keys[i].as_str()
    }

    /// The value of the field at position `i`.
    pub fn value(&self, i: usize) -> (value: &Value)
        requires
            i < self@.len(),
        ensures
            value@ == self@[i as int].1,
    {
        proof {
            use_type_invariant(self);
        }
        &self.values[i]
    }

    /// The value of the field at position `i`, for writing: the table ends
    /// as it was but for what is written there.
    pub fn value_mut(&mut self, i: usize) -> (value: &mut Value)
        requires
            i < old(self)@.len(),
        ensures
            value@ == old(self)@[i as int].1,
            final(self)@ == old(self)@.update(i as int, (old(self)@[i as int].0, final(value)@)),
    {
        proof {
            use_type_invariant(&*self);
        }
        let value = &mut self.values[i];
        proof {
            assert(after_borrow(*self)@ =~= old(self)@.update(
                i as int,
                (old(self)@[i as int].0, final(value)@),
            ));
        }
        value
    }

    /// The position of the field stored under `key`; no other field has
    /// that key.
    pub fn position(&self, key: &str) -> (found: Option<usize>)
        ensures
            match found {
                Some(i) => index_of(self@, key@) == Some(i as int),
                None => index_of(self@, key@).is_none(),
            },
            distinct_keys(self@),
    {
        proof {
            use_type_invariant(self);
        }
        let n: usize = self.keys.len();
        let mut i: usize = 0;
        while i < n
            invariant
                i <= n,
                n == self.keys@.len(),
                n == self@.len(),
                forall|j: int| 0 <= j < i ==> (#[trigger] self@[j]).0 != key@,
                forall|j: int| 0 <= j < n ==> (#[trigger] self@[j]).0 == self.keys@[j]@,
                distinct_keys(self@),
            decreases n - i,
        {
            if str_eq(self.keys[i].as_str(), key) {
                proof {
                    lemma_index_of_first(self@, key@, i as int);
                }
                return Some(i);
            }
            i += 1;
        }
        proof {
            lemma_index_of_absent(self@, key@);
        }
        None
    }

    /// Whether a field is stored under `key`.
    pub fn contains_key(&self, key: &str) -> (found: bool)
        ensures
            found == lookup(self@, key@).is_some(),
    {
        self.position(key).is_some()
    }

    /// The value stored under `key`.
    pub fn get(&self, key: &str) -> (found: Option<&Value>)
        ensures
            match found {
                Some(value) => lookup(self@, key@) == Some(value@),
                None => lookup(self@, key@).is_none(),
            },
    {
        match self.position(key) {
            Some(i) => {
                proof {
                    lemma_index_of_found(self@, key@);
                }
                Some(self.value(i))
            },
            None => None,
        }
    }

    /// The value stored under `key`, for writing: the table ends as it was
    /// but for what is written there.
    pub fn get_mut(&mut self, key: &str) -> (found: Option<&mut Value>)
        ensures
            match found {
                Some(value) => {
                    &&& index_of(old(self)@, key@) matches Some(at)
                    &&& value@ == old(self)@[at].1
                    &&& final(self)@ == old(self)@.update(at, (key@, final(value)@))
                },
                None => index_of(old(self)@, key@).is_none() && final(self)@ == old(self)@,
            },
            distinct_keys(old(self)@),
    {
        match self.position(key) {
            Some(i) => {
                proof {
                    lemma_index_of_found(self@, key@);
                }
                Some(self.value_mut(i))
            },
            None => None,
        }
    }

    /// Stores `value` under `key`. A field already under that key keeps its
    /// place and hands back the value it held; otherwise the field is added
    /// at the end.
    pub fn insert(&mut self, key: String, value: Value) -> (previous: Option<Value>)
        ensures
            match index_of(old(self)@, key@) {
                Some(i) => {
                    &&& final(self)@ == old(self)@.update(i, (key@, value@))
                    &&& previous matches Some(p) && p@ == old(self)@[i].1
                },
                None => {
                    &&& final(self)@ == old(self)@.push((key@, value@))
                    &&& previous.is_none()
                },
            },
    {
        match self.position(key.as_str()) {
            Some(i) => {
                proof {
                    lemma_index_of_found(self@, key@);
                }
                let mut held = value;
                let slot = self.value_mut(i);
                std::mem::swap(slot, &mut held);
                Some(held)
            },
            None => {
                let mut taken = Table::new();
                std::mem::swap(self, &mut taken);
                proof {
                    use_type_invariant(&taken);
                    lemma_not_found(taken@, key@);
                    assert forall|j: int| 0 <= j < taken.keys@.len() implies (
                    #[trigger] taken.keys@[j])@ != key@ by {
                        assert(taken@[j].0 == taken.keys@[j]@);
                    }
                }
                let Table { mut keys, mut values } = taken;
                keys.push(key);
                values.push(value);
                let grown = Table { keys, values };
                *self = grown;
                None
            },
        }
    }
}

/// The content of each value, in order.
pub open spec fn docs(items: Seq<Value>) -> Seq<Doc> {
    Seq::new(items.len(), |i: int| items[i]@)
}

/// The content of an array is the list of its items' contents.
pub proof fn lemma_array_view(items: Vec<Value>)
    ensures
        Value::Array(items)@ == Doc::List(docs(items@)),
{
    let listed = Value::Array(items).content();
    assert(listed->List_0 =~= docs(items@));
}

impl Value {
    /// The value stored under `key`; `None` unless this is a table that has the key.
    pub fn get(&self, key: &str) -> (found: Option<&Value>)
        ensures
            match found {
                Some(value) => self@.get(key@) == Some(value@),
                None => self@.get(key@).is_none(),
            },
    {
        match self {
            Value::Table(table) => table.get(key),
            _ => None,
        }
    }

    /// The value stored under `key`, for writing; `None` unless this is a
    /// table that has the key. The document ends as it was but for what is
    /// written there.
    pub fn get_mut(&mut self, key: &str) -> (found: Option<&mut Value>)
        ensures
            match found {
                Some(value) => {
                    &&& old(self)@.get(key@) == Some(value@)
                    &&& final(self)@ == old(self)@.with(key@, final(value)@)
                },
                None => old(self)@.get(key@).is_none() && final(self)@ == old(self)@,
            },
            old(self)@.well_keyed(),
    {
        match self {
            Value::Table(table) => table.get_mut(key),
            _ => None,
        }
    }

    /// The text of a string; `None` for anything else.
    pub fn as_str(&self) -> (text: Option<&str>)
        ensures
            match text {
                Some(s) => self@ == Doc::Text(s@),
                None => !(self@ is Text),
            },
    {
        match self {
            Value::String(s) => Some(s.as_str()),
            _ => None,
        }
    }

    /// The items of an array; `None` for anything else.
    pub fn as_array(&self) -> (items: Option<&Vec<Value>>)
        ensures
            match items {
                Some(v) => self@ == Doc::List(docs(v@)),
                None => !(self@ is List),
            },
    {
        match self {
            Value::Array(items) => {
                proof {
                    lemma_array_view(*items);
                }
                Some(items)
            },
            _ => None,
        }
    }

    /// The items of an array, for writing; `None` for anything else.
    pub fn as_array_mut(&mut self) -> (items: Option<&mut Vec<Value>>)
        ensures
            match items {
                Some(v) => {
                    &&& old(self)@ == Doc::List(docs(v@))
                    &&& final(self)@ == Doc::List(docs(final(v)@))
                },
                None => !(old(self)@ is List) && final(self)@ == old(self)@,
            },
    {
        match self {
            Value::Array(items) => {
                proof {
                    lemma_array_view(*items);
                    lemma_array_view(*final(items));
                }
                Some(items)
            },
            _ => None,
        }
    }

    /// The fields of a table; `None` for anything else.
    pub fn as_table(&self) -> (table: Option<&Table>)
        ensures
            match table {
                Some(t) => self@ == Doc::Table(t@),
                None => !(self@ is Table),
            },
    {
        match self {
            Value::Table(table) => Some(table),
            _ => None,
        }
    }

    /// The fields of a table, for writing; `None` for anything else.
    pub fn as_table_mut(&mut self) -> (table: Option<&mut Table>)
        ensures
            match table {
                Some(t) => old(self)@ == Doc::Table(t@) && final(self)@ == Doc::Table(final(t)@),
                None => !(old(self)@ is Table) && final(self)@ == old(self)@,
            },
    {
        match self {
            Value::Table(table) => Some(table),
            _ => None,
        }
    }
}

/// A copy of each value, in order.
fn clone_items(items: &Vec<Value>) -> (copies: Vec<Value>)
    ensures
        docs(copies@) == docs(items@),
    decreases items,
{
    let mut copies: Vec<Value> = Vec::new();
    let n: usize = items.len();
    let mut i: usize = 0;
    while i < n
        invariant
            i <= n,
            n == items@.len(),
            copies@.len() == i,
            forall|j: int| 0 <= j < i ==> (#[trigger] copies@[j])@ == items@[j]@,
        decreases n - i,
    {
        copies.push(items[i].clone());
        i += 1;
    }
    copies
}

impl Clone for Value {
    /// A copy with the same content.
    fn clone(&self) -> (copy: Value)
        ensures
            copy@ == self@,
        decreases self,
    {
        match self {
            Value::String(s) => Value::String(s.clone()),
            Value::Integer(n) => Value::Integer(*n),
            Value::Float(bits) => Value::Float(*bits),
            Value::Boolean(b) => Value::Boolean(*b),
            Value::Datetime(at) => Value::Datetime(*at),
            Value::Array(items) => {
                let copies = clone_items(items);
                proof {
                    lemma_array_view(copies);
                    lemma_array_view(*items);
                }
                Value::Array(copies)
            },
            Value::Table(table) => Value::Table(table.clone()),
        }
    }
}

impl Clone for Table {
    /// A copy with the same fields.
    fn clone(&self) -> (copy: Table)
        ensures
            copy@ == self@,
        decreases self,
    {
        proof {
            use_type_invariant(self);
        }
        let mut keys: Vec<String> = Vec::new();
        let mut values: Vec<Value> = Vec::new();
        let n: usize = self.values.len();
        let mut i: usize = 0;
        while i < n
            invariant
                i <= n,
                n == self.values@.len(),
                n == self.keys@.len(),
                keys@.len() == i,
                values@.len() == i,
                forall|j: int| 0 <= j < i ==> (#[trigger] keys@[j])@ == self.keys@[j]@,
                forall|j: int| 0 <= j < i ==> (#[trigger] values@[j])@ == self.values@[j]@,
            decreases n - i,
        {
            keys.push(self.keys[i].clone());
            values.push(self.values[i].clone());
            i += 1;
        }
        let copy = Table { keys, values };
        copy
    }
}

} // verus!
