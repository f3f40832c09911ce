//! Documents: ordered lists of named values, nested to any depth.
//!
//! A [`Value`] is a tree of typed leaves. Its view, [`ValueModel`], holds the
//! same tree over mathematical sequences; two values are the same value exactly
//! when their views are equal, field order included.

use vstd::prelude::*;
use vstd::std_specs::cmp::PartialEqSpecImpl;
use crate::text::same_text;

verus! {

/// The unique identifier of a stored document: its twelve bytes read as one
/// big-endian number.
#[derive(Clone, Copy, Debug, PartialEq, Eq, Structural)]
pub struct ObjectId {
    pub value: u128,
}

/// One value of a document.
#[derive(Debug)]
pub enum Value {
    Null,
    Boolean(bool),
    Int32(i32),
    Int64(i64),
    /// A double, held as the 64 bits of its IEEE 754 form.
    Double(u64),
    String(String),
    ObjectId(ObjectId),
    /// A date, in milliseconds since the Unix epoch.
    DateTime(i64),
    Regex { pattern: String, options: String },
    Array(Vec<Value>),
    Document(Document),
    /// A value of any other kind, kept as its element type and its encoded bytes.
    Other { kind: u8, bytes: Vec<u8> },
}

/// A named value.
#[derive(Debug)]
pub struct Field {
    pub key: String,
    pub value: Value,
}

/// An ordered list of named values.
///
/// The fields are open to the caller and the type keeps no invariant: a name
/// may stand twice. Every function that looks a name up takes the first field
/// of that name, and a document built by `new` and `insert` alone holds each
/// name once. What is said of the difference of two documents in general is
/// said of documents with distinct names, see `distinct_keys`.
#[derive(Debug)]
pub struct Document {
    pub fields: Vec<Field>,
}

/// The view of a [`Value`].
pub enum ValueModel {
    Null,
    Boolean(bool),
    Int32(i32),
    Int64(i64),
    Double(u64),
    String(Seq<char>),
    ObjectId(ObjectId),
    DateTime(i64),
    Regex { pattern: Seq<char>, options: Seq<char> },
    Array(Seq<ValueModel>),
    Document(Seq<FieldModel>),
    Other { kind: u8, bytes: Seq<u8> },
}

/// The view of a [`Field`].
pub struct FieldModel {
    pub key: Seq<char>,
    pub value: ValueModel,
}

/// The view of a [`Document`]: its fields in order.
pub type DocumentModel = Seq<FieldModel>;

pub open spec fn value_model(v: Value) -> ValueModel
    decreases v,
{
    match v {
        Value::Null => ValueModel::Null,
        Value::Boolean(b) => ValueModel::Boolean(b),
        Value::Int32(i) => ValueModel::Int32(i),
        Value::Int64(i) => ValueModel::Int64(i),
        Value::Double(bits) => ValueModel::Double(bits),
        Value::String(s) => ValueModel::String(s@),
        Value::ObjectId(id) => ValueModel::ObjectId(id),
        Value::DateTime(ms) => ValueModel::DateTime(ms),
        Value::Regex { pattern, options } => ValueModel::Regex {
            pattern: pattern@,
            options: options@,
        },
        Value::Array(items) => ValueModel::Array(
            Seq::new(
                items@.len(),
                |i: int|
                    if 0 <= i < items@.len() {
                        value_model(items@[i])
                    } else {
                        ValueModel::Null
                    },
            ),
        ),
        Value::Document(d) => ValueModel::Document(
            Seq::new(
                d.fields@.len(),
                |i: int|
                    if 0 <= i < d.fields@.len() {
                        FieldModel {
                            key: d.fields@[i].key@,
                            value: value_model(d.fields@[i].value),
                        }
                    } else {
                        FieldModel { key: Seq::empty(), value: ValueModel::Null }
                    },
            ),
        ),
        Value::Other { kind, bytes } => ValueModel::Other { kind, bytes: bytes@ },
    }
}

impl View for Value {
    type V = ValueModel;

    open spec fn view(&self) -> ValueModel {
        value_model(*self)
    }
}

impl View for Field {
    type V = FieldModel;

    open spec fn view(&self) -> FieldModel {
        FieldModel { key: self.key@, value: self.value@ }
    }
}

impl View for Document {
    type V = Seq<FieldModel>;

    open spec fn view(&self) -> Seq<FieldModel> {
        Seq::new(self.fields@.len(), |i: int| self.fields@[i]@)
    }
}

/// The views of a sequence of values.
pub open spec fn value_models(items: Seq<Value>) -> Seq<ValueModel> {
    Seq::new(items.len(), |i: int| items[i]@)
}

/// The view of an array is the sequence of its items' views.
pub proof fn lemma_array_view(items: Vec<Value>)
    ensures
        Value::Array(items)@ == ValueModel::Array(value_models(items@)),
{
    assert(Value::Array(items)@->Array_0 =~= value_models(items@));
}

/// The view of a nested document is that document's view.
pub proof fn lemma_document_view(d: Document)
    ensures
        Value::Document(d)@ == ValueModel::Document(d@),
{
    assert(Value::Document(d)@->Document_0 =~= d@);
}

/// The first position at or after `from` whose field is named `key`, or the
/// length of `d` where there is none.
pub open spec fn key_position(d: DocumentModel, key: Seq<char>, from: int) -> int
    decreases d.len() - from,
{
    if 0 <= from < d.len() && d[from].key != key {
        key_position(d, key, from + 1)
    } else {
        from
    }
}

/// Whether `d` has a field named `key`.
pub open spec fn has_key(d: DocumentModel, key: Seq<char>) -> bool {
    key_position(d, key, 0) < d.len()
}

/// The value of the first field of `d` named `key`.
pub open spec fn lookup(d: DocumentModel, key: Seq<char>) -> Option<ValueModel> {
    let i = key_position(d, key, 0);
    if 0 <= i < d.len() {
        Some(d[i].value)
    } else {
        None
    }
}

/// `d` after `key` is set to `v`: the first field of that name gets the value
/// and keeps its place; where there is none, a field is added at the end.
pub open spec fn put(d: DocumentModel, key: Seq<char>, v: ValueModel) -> DocumentModel {
    let i = key_position(d, key, 0);
    if 0 <= i < d.len() {
        d.update(i, FieldModel { key, value: v })
    } else {
        d.push(FieldModel { key, value: v })
    }
}

/// `d` without its first field named `key`.
pub open spec fn without(d: DocumentModel, key: Seq<char>) -> DocumentModel {
    let i = key_position(d, key, 0);
    if 0 <= i < d.len() {
        d.remove(i)
    } else {
        d
    }
}

/// No two fields of `d` have the same name.
pub open spec fn distinct_keys(d: DocumentModel) -> bool {
    forall|i: int, j: int| 0 <= i < j < d.len() ==> (#[trigger] d[i]).key != (#[trigger] d[j]).key
}

/// What `key_position` finds: a position in range, the named field there when
/// it is inside the document, and no field of that name before it.
pub proof fn lemma_key_position(d: DocumentModel, key: Seq<char>, from: int)
    requires
        0 <= from <= d.len(),
    ensures
        from <= key_position(d, key, from) <= d.len(),
        key_position(d, key, from) < d.len() ==> d[key_position(d, key, from)].key == key,
        forall|j: int| from <= j < key_position(d, key, from) ==> (#[trigger] d[j]).key != key,
    decreases d.len() - from,
{
    if from < d.len() && d[from].key != key {
        lemma_key_position(d, key, from + 1);
    }
}

/// A field of a document with distinct names is the one that a lookup of its
/// name finds.
pub proof fn lemma_lookup_own_field(d: DocumentModel, i: int)
    requires
        distinct_keys(d),
        0 <= i < d.len(),
    ensures
        key_position(d, d[i].key, 0) == i,
        lookup(d, d[i].key) == Some(d[i].value),
{
    lemma_key_position(d, d[i].key, 0);
    let p = key_position(d, d[i].key, 0);
    if p < i {
        assert(d[p].key != d[i].key);
    } else if p > i {
        assert(d[i].key != d[i].key);
    }
}

/// Setting a name keeps the names of a document distinct.
pub proof fn lemma_put_keeps_distinct(d: DocumentModel, key: Seq<char>, v: ValueModel)
    requires
        distinct_keys(d),
    ensures
        distinct_keys(put(d, key, v)),
{
    lemma_key_position(d, key, 0);
    let r = put(d, key, v);
    let p = key_position(d, key, 0);
    assert forall|i: int, j: int| 0 <= i < j < r.len() implies (#[trigger] r[i]).key != (
    #[trigger] r[j]).key by {
        if p < d.len() {
            assert(d[i].key != d[j].key);
        } else if j < d.len() {
            assert(d[i].key != d[j].key);
        } else {
            assert(d[i].key != key);
        }
    }
}

impl Value {
    /// A copy of `self`, leaf by leaf.
    pub fn duplicate(&self) -> (r: Value)
        ensures
            r@ == self@,
        decreases self,
    {
        match self {
            Value::Null => Value::Null,
            Value::Boolean(b) => Value::Boolean(*b),
            Value::Int32(i) => Value::Int32(*i),
            Value::Int64(i) => Value::Int64(*i),
            Value::Double(bits) => Value::Double(*bits),
            Value::String(s) => Value::String(s.clone()),
            Value::ObjectId(id) => Value::ObjectId(*id),
            Value::DateTime(ms) => Value::DateTime(*ms),
            Value::Regex { pattern, options } => Value::Regex {
                pattern: pattern.clone(),
                options: options.clone(),
            },
            Value::Array(items) => {
                let mut out: Vec<Value> = Vec::new();
                let mut i: usize = 0;
                while i < items.len()
                    invariant
                        0 <= i <= items.len(),
                        out.len() == i,
                        decreases_to!(*self => *items),
                        forall|j: int| 0 <= j < i ==> out@[j]@ == items@[j]@,
                    decreases items.len() - i,
                {
                    proof {
                        assert(decreases_to!(*items => items[i as int]));
                    }
                    out.push(items[i].duplicate());
                    i += 1;
                }
                proof {
                    lemma_array_view(out);
                    lemma_array_view(*items);
                    assert(value_models(out@) =~= value_models(items@));
                }
                Value::Array(out)
            },
            Value::Document(d) => {
                let mut out: Vec<Field> = Vec::new();
                let mut i: usize = 0;
                while i < d.fields.len()
                    invariant
                        0 <= i <= d.fields.len(),
                        out.len() == i,
                        decreases_to!(*self => d.fields),
                        forall|j: int| 0 <= j < i ==> out@[j]@ == d.fields@[j]@,
                    decreases d.fields.len() - i,
                {
                    let key = d.fields[i].key.clone();
                    proof {
                        assert(decreases_to!(d.fields => d.fields[i as int]));
                    }
                    let value = d.fields[i].value.duplicate();
                    out.push(Field { key, value });
                    i += 1;
                }
                let copy = Document { fields: out };
                proof {
                    lemma_document_view(copy);
                    lemma_document_view(*d);
                    assert(copy@ =~= d@);
                }
                Value::Document(copy)
            },
            Value::Other { kind, bytes } => {
                let mut out: Vec<u8> = Vec::new();
                let mut i: usize = 0;
                while i < bytes.len()
                    invariant
                        0 <= i <= bytes.len(),
                        out@ == bytes@.take(i as int),
                    decreases bytes.len() - i,
                {
                    out.push(bytes[i]);
                    i += 1;
                }
                proof {
                    assert(out@ =~= bytes@);
                }
                Value::Other { kind: *kind, bytes: out }
            },
        }
    }
}

/// A document with distinct names no longer has a name once its first field
/// of that name is removed.
pub proof fn lemma_without_drops_key(d: DocumentModel, key: Seq<char>)
    requires
        distinct_keys(d),
    ensures
        !has_key(without(d, key), key),
        distinct_keys(without(d, key)),
{
    lemma_key_position(d, key, 0);
    let r = without(d, key);
    let p = key_position(d, key, 0);
    lemma_key_position(r, key, 0);
    let q = key_position(r, key, 0);
    if p < d.len() {
        if q < r.len() {
            if q < p {
                assert(d[q].key == key);
            } else {
                assert(d[q + 1].key == key);
                assert(d[p].key != d[q + 1].key);
            }
        }
        assert forall|i: int, j: int| 0 <= i < j < r.len() implies (#[trigger] r[i]).key != (
        #[trigger] r[j]).key by {
            let a = if i < p { i } else { i + 1 };
            let b = if j < p { j } else { j + 1 };
            assert(d[a].key != d[b].key);
        }
    }
}

impl Clone for Value {
    fn clone(&self) -> (r: Value)
        ensures
            r@ == self@,
    {
        self.duplicate()
    }
}

impl Clone for Field {
    fn clone(&self) -> (r: Field)
        ensures
            r@ == self@,
    {
        Field { key: self.key.clone(), value: self.value.clone() }
    }
}

impl Clone for Document {
    fn clone(&self) -> (r: Document)
        ensures
            r@ == self@,
    {
        let mut out: Vec<Field> = Vec::new();
        let mut i: usize = 0;
        while i < self.fields.len()
            invariant
                0 <= i <= self.fields.len(),
                out.len() == i,
                forall|j: int| 0 <= j < i ==> out@[j]@ == self.fields@[j]@,
            decreases self.fields.len() - i,
        {
            out.push(self.fields[i].clone());
            i += 1;
        }
        let copy = Document { fields: out };
        proof {
            assert(copy@ =~= self@);
        }
        copy
    }
}

/// Whether two byte strings are equal.
fn same_bytes(a: &Vec<u8>, b: &Vec<u8>) -> (r: bool)
    ensures
        r == (a@ == b@),
{
    if a.len() != b.len() {
        return false;
    }
    let mut i: usize = 0;
    while i < a.len()
        invariant
            0 <= i <= a.len(),
            a.len() == b.len(),
            forall|j: int| 0 <= j < i ==> a@[j] == b@[j],
        decreases a.len() - i,
    {
        if a[i] != b[i] {
            return false;
        }
        i += 1;
    }
    proof {
        assert(a@ =~= b@);
    }
    true
}

impl Value {
    /// Whether `self` and `other` are the same value: the same kind, the same
    /// leaves, and for arrays and documents the same items in the same order.
    pub fn same(&self, other: &Value) -> (r: bool)
        ensures
            r == (self@ == other@),
        decreases self,
    {
        match self {
            Value::Null => match other {
                Value::Null => true,
                _ => false,
            },
            Value::Boolean(a) => match other {
                Value::Boolean(b) => *a == *b,
                _ => false,
            },
            Value::Int32(a) => match other {
                Value::Int32(b) => *a == *b,
                _ => false,
            },
            Value::Int64(a) => match other {
                Value::Int64(b) => *a == *b,
                _ => false,
            },
            Value::Double(a) => match other {
                Value::Double(b) => *a == *b,
                _ => false,
            },
            Value::String(a) => match other {
                Value::String(b) => *a == *b,
                _ => false,
            },
            Value::ObjectId(a) => match other {
                Value::ObjectId(b) => a.value == b.value,
                _ => false,
            },
            Value::DateTime(a) => match other {
                Value::DateTime(b) => *a == *b,
                _ => false,
            },
            Value::Regex { pattern, options } => match other {
                Value::Regex { pattern: other_pattern, options: other_options } => *pattern
                    == *other_pattern && *options == *other_options,
                _ => false,
            },
            Value::Array(a) => match other {
                Value::Array(b) => {
                    proof {
                        lemma_array_view(*a);
                        lemma_array_view(*b);
                    }
                    if a.len() != b.len() {
                        proof {
                            assert(value_models(a@).len() != value_models(b@).len());
                        }
                        return false;
                    }
                    let mut i: usize = 0;
                    while i < a.len()
                        invariant
                            0 <= i <= a.len(),
                            a.len() == b.len(),
                            decreases_to!(*self => *a),
                            self@ == ValueModel::Array(value_models(a@)),
                            other@ == ValueModel::Array(value_models(b@)),
                            forall|j: int| 0 <= j < i ==> a@[j]@ == b@[j]@,
                        decreases a.len() - i,
                    {
                        proof {
                            assert(decreases_to!(*a => a[i as int]));
                        }
                        if !a[i].same(&b[i]) {
                            proof {
                                assert(value_models(a@)[i as int] == a@[i as int]@);
                                assert(value_models(b@)[i as int] == b@[i as int]@);
                            }
                            return false;
                        }
                        i += 1;
                    }
                    proof {
                        assert(value_models(a@) =~= value_models(b@));
                    }
                    true
                },
                _ => false,
            },
            Value::Document(a) => match other {
                Value::Document(b) => {
                    proof {
                        lemma_document_view(*a);
                        lemma_document_view(*b);
                    }
                    if a.fields.len() != b.fields.len() {
                        proof {
                            assert(a@.len() != b@.len());
                        }
                        return false;
                    }
                    let mut i: usize = 0;
                    while i < a.fields.len()
                        invariant
                            0 <= i <= a.fields.len(),
                            a.fields.len() == b.fields.len(),
                            decreases_to!(*self => a.fields),
                            self@ == ValueModel::Document(a@),
                            other@ == ValueModel::Document(b@),
                            forall|j: int| 0 <= j < i ==> a.fields@[j]@ == b.fields@[j]@,
                        decreases a.fields.len() - i,
                    {
                        proof {
                            assert(decreases_to!(a.fields => a.fields[i as int]));
                        }
                        if !(a.fields[i].key == b.fields[i].key) || !a.fields[i].value.same(
                            &b.fields[i].value,
                        ) {
                            proof {
                                assert(a@[i as int] == a.fields@[i as int]@);
                                assert(b@[i as int] == b.fields@[i as int]@);
                            }
                            return false;
                        }
                        i += 1;
                    }
                    proof {
                        assert(a@ =~= b@);
                    }
                    true
                },
                _ => false,
            },
            Value::Other { kind: k1, bytes: b1 } => match other {
                Value::Other { kind: k2, bytes: b2 } => *k1 == *k2 && same_bytes(b1, b2),
                _ => false,
            },
        }
    }
}

impl PartialEq for Value {
    fn eq(&self, other: &Value) -> (r: bool) {
        self.same(other)
    }
}

impl PartialEqSpecImpl for Value {
    open spec fn obeys_eq_spec() -> bool {
        true
    }

    open spec fn eq_spec(&self, other: &Value) -> bool {
        self@ == other@
    }
}

impl Document {
    /// A document without fields.
    pub fn new() -> (d: Document)
        ensures
            d@ == Seq::<FieldModel>::empty(),
    {
        let d = Document { fields: Vec::new() };
        proof {
            assert(d@ =~= Seq::<FieldModel>::empty());
        }
        d
    }

    /// The number of fields.
    pub fn len(&self) -> (n: usize)
        ensures
            n == self@.len(),
    {
        self.fields.len()
    }

    pub fn is_empty(&self) -> (b: bool)
        ensures
            b == (self@.len() == 0),
    {
        self.fields.len() == 0
    }

    /// The position of the first field named `key`, or the number of fields
    /// where there is none.
    pub fn position(&self, key: &str) -> (i: usize)
        ensures
            i == key_position(self@, key@, 0),
            i <= self@.len(),
    {
        let mut i: usize = 0;
        while i < self.fields.len() && !same_text(self.fields[i].key.as_str(), key)
            invariant
                0 <= i <= self.fields.len(),
                key_position(self@, key@, i as int) == key_position(self@, key@, 0),
            decreases self.fields.len() - i,
        {
            i += 1;
        }
        i
    }

    /// Whether a field is named `key`.
    pub fn contains_key(&self, key: &str) -> (b: bool)
        ensures
            b == has_key(self@, key@),
    {
        self.position(key) < self.fields.len()
    }

    /// The value of the first field named `key`.
    pub fn get(&self, key: &str) -> (r: Option<&Value>)
        ensures
            match r {
                Some(v) => lookup(self@, key@) == Some(v@),
                None => lookup(self@, key@) is None,
            },
    {
        let i = self.position(key);
        if i < self.fields.len() {
            Some(&self.fields[i].value)
        } else {
            None
        }
    }

    /// Sets `key` to `value`: the first field of that name gets the value and
    /// keeps its place; where there is none, a field is added at the end.
    pub fn insert(&mut self, key: String, value: Value)
        ensures
            final(self)@ == put(old(self)@, key@, value@),
    {
        let i = self.position(key.as_str());
        let ghost before = self@;
        let ghost field = FieldModel { key: key@, value: value@ };
        if i < self.fields.len() {
            self.fields.set(i, Field { key, value });
            proof {
                assert(self@ =~= before.update(i as int, field));
            }
        } else {
            self.fields.push(Field { key, value });
            proof {
                assert(self@ =~= before.push(field));
            }
        }
    }

    /// Removes the first field named `key`, where there is one.
    pub fn remove(&mut self, key: &str)
        ensures
            final(self)@ == without(old(self)@, key@),
    {
        let i = self.position(key);
        let ghost before = self@;
        if i < self.fields.len() {
            self.fields.remove(i);
            proof {
                assert(self@ =~= before.remove(i as int));
            }
        }
    }

    /// The identifier held by the field named `key`, where there is such a
    /// field and its value is an identifier.
    pub fn get_object_id(&self, key: &str) -> (r: Option<ObjectId>)
        ensures
            r == match lookup(self@, key@) {
                Some(ValueModel::ObjectId(id)) => Some(id),
                _ => None,
            },
    {
        match self.get(key) {
            Some(Value::ObjectId(id)) => Some(*id),
            _ => None,
        }
    }
}

impl PartialEq for Document {
    fn eq(&self, other: &Document) -> (r: bool) {
        if self.fields.len() != other.fields.len() {
            proof {
                assert(self@.len() != other@.len());
            }
            return false;
        }
        let mut i: usize = 0;
        while i < self.fields.len()
            invariant
                0 <= i <= self.fields.len(),
                self.fields.len() == other.fields.len(),
                forall|j: int| 0 <= j < i ==> self.fields@[j]@ == other.fields@[j]@,
            decreases self.fields.len() - i,
        {
            if !(self.fields[i].key == other.fields[i].key) || !self.fields[i].value.same(
                &other.fields[i].value,
            ) {
                proof {
                    assert(self@[i as int] == self.fields@[i as int]@);
                    assert(other@[i as int] == other.fields@[i as int]@);
                }
                return false;
            }
            i += 1;
        }
        proof {
            assert(self@ =~= other@);
        }
        true
    }
}

impl PartialEqSpecImpl for Document {
    open spec fn obeys_eq_spec() -> bool {
        true
    }

    open spec fn eq_spec(&self, other: &Document) -> bool {
        self@ == other@
    }
}

} // verus!
