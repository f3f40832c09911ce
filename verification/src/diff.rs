//! The structural difference between a document and its edited form.
//!
//! The difference is a pair of documents: the field paths to assign, each with
//! its new value, and the field paths to remove. Nested documents are compared
//! field by field and addressed by dotted paths; any other value that changed,
//! an array included, is assigned whole. The identifier field is never part of
//! either document.

use vstd::prelude::*;
use vstd::string::*;
use crate::document::{
    distinct_keys, has_key, key_position, lemma_document_view, lemma_key_position,
    lemma_put_keeps_distinct, lookup, put, Document, DocumentModel, Field, FieldModel, ObjectId,
    Value, ValueModel,
};
use crate::text::same_text;

verus! {

/// The name of the identifier field.
pub open spec fn id_key() -> Seq<char> {
    "_id"@
}

/// `prefix`, a dot, and `key`.
pub open spec fn dotted(prefix: Seq<char>, key: Seq<char>) -> Seq<char> {
    prefix + seq!['.'] + key
}

/// Whether a name holds no dot.
pub open spec fn no_dot(k: Seq<char>) -> bool {
    forall|i: int| 0 <= i < k.len() ==> k[i] != '.'
}

/// Whether the field path `e` is the path `p` or lies below it.
pub open spec fn at_or_below(e: Seq<char>, p: Seq<char>) -> bool {
    e == p || (e.len() > p.len() && e.subrange(0, p.len() as int) == p && e[p.len() as int]
        == '.')
}

/// The assignments `acc`, extended by what turns `old_v` into `new_v` at the
/// field path `path`: nothing where the two are equal; the differences of the
/// children where both are documents; else `new_v` whole.
pub open spec fn patch_at(
    path: Seq<char>,
    old_v: ValueModel,
    new_v: ValueModel,
    acc: DocumentModel,
) -> DocumentModel
    decreases new_v, 0nat,
{
    if old_v == new_v {
        acc
    } else {
        match new_v {
            ValueModel::Document(nd) => match old_v {
                ValueModel::Document(od) => patch_children(path, od, nd, nd.len(), acc),
                _ => put(acc, path, new_v),
            },
            _ => put(acc, path, new_v),
        }
    }
}

/// The assignments `acc`, extended by the differences of the first `n` fields
/// of `nd` against `od`, both found at `path`. Every child stands at the path
/// of its parent, a dot, and its own name, whatever these are: a child that
/// `od` lacks is assigned there, one that it has is compared there in turn.
pub open spec fn patch_children(
    path: Seq<char>,
    od: DocumentModel,
    nd: DocumentModel,
    n: nat,
    acc: DocumentModel,
) -> DocumentModel
    decreases nd, n,
{
    if n == 0 || n > nd.len() {
        acc
    } else {
        let before = patch_children(path, od, nd, (n - 1) as nat, acc);
        let child = nd[n - 1];
        let here = dotted(path, child.key);
        match lookup(od, child.key) {
            Some(ov) => patch_at(here, ov, child.value, before),
            None => put(before, here, child.value),
        }
    }
}

/// The path of the field `key` below `prefix`; an empty `prefix` stands for
/// the top level, where the path of a field is its name.
pub open spec fn field_path(prefix: Seq<char>, key: Seq<char>) -> Seq<char> {
    if prefix.len() == 0 {
        key
    } else {
        dotted(prefix, key)
    }
}

/// The assignments `acc`, extended by what turns `old_v` into `new_v` at the
/// field `key` below `prefix`.
pub open spec fn patch_value(
    prefix: Seq<char>,
    key: Seq<char>,
    old_v: ValueModel,
    new_v: ValueModel,
    acc: DocumentModel,
) -> DocumentModel {
    patch_at(field_path(prefix, key), old_v, new_v, acc)
}

/// The assignments that the first `n` fields of `edited` ask for.
pub open spec fn set_prefix(original: DocumentModel, edited: DocumentModel, n: nat) -> DocumentModel
    decreases n,
{
    if n == 0 || n > edited.len() {
        Seq::empty()
    } else {
        let before = set_prefix(original, edited, (n - 1) as nat);
        let f = edited[n - 1];
        if f.key == id_key() {
            before
        } else {
            match lookup(original, f.key) {
                Some(ov) => patch_at(f.key, ov, f.value, before),
                None => put(before, f.key, f.value),
            }
        }
    }
}

/// The marker stored with a field path that is to be removed.
pub open spec fn removed_marker() -> ValueModel {
    ValueModel::String(Seq::empty())
}

/// The removals that the first `n` fields of `original` ask for.
pub open spec fn unset_prefix(
    original: DocumentModel,
    edited: DocumentModel,
    n: nat,
) -> DocumentModel
    decreases n,
{
    if n == 0 || n > original.len() {
        Seq::empty()
    } else {
        let before = unset_prefix(original, edited, (n - 1) as nat);
        let f = original[n - 1];
        if f.key == id_key() || has_key(edited, f.key) {
            before
        } else {
            put(before, f.key, removed_marker())
        }
    }
}

/// The fields to assign so that `original` becomes `edited`.
pub open spec fn set_fields(original: DocumentModel, edited: DocumentModel) -> DocumentModel {
    set_prefix(original, edited, edited.len())
}

/// The top-level fields to remove so that `original` becomes `edited`.
pub open spec fn unset_fields(original: DocumentModel, edited: DocumentModel) -> DocumentModel {
    unset_prefix(original, edited, original.len())
}

/// `prefix`, a dot, and `key`.
pub fn dotted_path(prefix: &str, key: &str) -> (r: String)
    ensures
        r@ == dotted(prefix@, key@),
{
    let mut r = prefix.to_owned();
    r.append(".");
    r.append(key);
    proof {
        reveal_strlit(".");
        assert("."@ =~= seq!['.']);
    }
    r
}

/// Extends `set_doc` by what turns `old_v` into `new_v` at the field path
/// `path`.
fn diff_at(path: String, old_v: &Value, new_v: &Value, set_doc: &mut Document)
    ensures
        final(set_doc)@ == patch_at(path@, old_v@, new_v@, old(set_doc)@),
    decreases new_v,
{
    if old_v.same(new_v) {
        return ;
    }
    let ghost start = set_doc@;
    match new_v {
        Value::Document(new_d) => match old_v {
            Value::Document(old_d) => {
                proof {
                    lemma_document_view(*new_d);
                    lemma_document_view(*old_d);
                }
                let mut i: usize = 0;
                while i < new_d.fields.len()
                    invariant
                        0 <= i <= new_d.fields.len(),
                        decreases_to!(*new_v => new_d.fields),
                        set_doc@ == patch_children(path@, old_d@, new_d@, i as nat, start),
                    decreases new_d.fields.len() - i,
                {
                    let child = &new_d.fields[i];
                    proof {
                        assert(decreases_to!(new_d.fields => new_d.fields[i as int]));
                        assert(new_d@[i as int] == child@);
                    }
                    let here = dotted_path(path.as_str(), child.key.as_str());
                    match old_d.get(child.key.as_str()) {
                        Some(old_child) => {
                            diff_at(here, old_child, &child.value, set_doc);
                        },
                        None => {
                            set_doc.insert(here, child.value.clone());
                        },
                    }
                    i += 1;
                }
            },
            _ => {
                set_doc.insert(path, new_v.clone());
            },
        },
        _ => {
            set_doc.insert(path, new_v.clone());
        },
    }
}

/// Extends `set_doc` by what turns `old_v` into `new_v` at the field `key`
/// below `prefix`. An empty `prefix` stands for the top level. Whatever is
/// found below the field is assigned at dot-joined paths.
pub fn diff_value(prefix: &str, key: &str, old_v: &Value, new_v: &Value, set_doc: &mut Document)
    ensures
        final(set_doc)@ == patch_value(prefix@, key@, old_v@, new_v@, old(set_doc)@),
{
    let path = if prefix.is_empty() {
        key.to_owned()
    } else {
        dotted_path(prefix, key)
    };
    diff_at(path, old_v, new_v, set_doc);
}

/// The difference between `original` and `edited`: first the fields to assign,
/// then the fields to remove, each removed field held with an empty string.
/// Each part holds a field path once at most, and neither names the
/// identifier field.
pub fn diff_docs_deep(original: &Document, edited: &Document) -> (r: (Document, Document))
    ensures
        r.0@ == set_fields(original@, edited@),
        r.1@ == unset_fields(original@, edited@),
        distinct_keys(r.0@),
        distinct_keys(r.1@),
        !has_key(r.0@, id_key()),
        !has_key(r.1@, id_key()),
{
    proof {
        lemma_set_fields_distinct(original@, edited@, edited@.len());
        lemma_unset_fields_distinct(original@, edited@, original@.len());
        lemma_set_fields_keys(original@, edited@, edited@.len());
        lemma_unset_fields_keys(original@, edited@, original@.len());
    }
    let mut set_doc = Document::new();
    let mut unset_doc = Document::new();
    let mut i: usize = 0;
    while i < edited.fields.len()
        invariant
            0 <= i <= edited.fields.len(),
            set_doc@ == set_prefix(original@, edited@, i as nat),
        decreases edited.fields.len() - i,
    {
        let f = &edited.fields[i];
        proof {
            assert(edited@[i as int] == f@);
        }
        if !same_text(f.key.as_str(), "_id") {
            match original.get(f.key.as_str()) {
                None => {
                    set_doc.insert(f.key.clone(), f.value.clone());
                },
                Some(old_v) => {
                    diff_value("", f.key.as_str(), old_v, &f.value, &mut set_doc);
                    proof {
                        reveal_strlit("");
                        assert(""@ =~= Seq::<char>::empty());
                    }
                },
            }
        }
        i += 1;
    }
    let mut j: usize = 0;
    while j < original.fields.len()
        invariant
            0 <= j <= original.fields.len(),
            unset_doc@ == unset_prefix(original@, edited@, j as nat),
        decreases original.fields.len() - j,
    {
        let f = &original.fields[j];
        proof {
            assert(original@[j as int] == f@);
        }
        if !same_text(f.key.as_str(), "_id") && !edited.contains_key(f.key.as_str()) {
            unset_doc.insert(f.key.clone(), Value::String(String::new()));
        }
        j += 1;
    }
    (set_doc, unset_doc)
}

/// Why an edited document is not applied.
#[derive(Debug)]
pub enum EditError {
    /// The edited text is not a document; the reason is kept.
    Parse(String),
    /// The edited document has no identifier field.
    MissingId,
    /// The identifier field of the edited document holds no identifier.
    IdNotObjectId,
    /// The identifier of the edited document is not that of the original.
    IdChanged,
}

/// The message shown for an error.
pub open spec fn error_text(e: EditError) -> Seq<char> {
    match e {
        EditError::Parse(reason) => reason@,
        EditError::MissingId => "_id alanı yok"@,
        EditError::IdNotObjectId => "_id bir ObjectId olmalı"@,
        EditError::IdChanged => "_id değiştirilemez"@,
    }
}

impl EditError {
    /// The message shown for this error.
    pub fn message(&self) -> (m: String)
        ensures
            m@ == error_text(*self),
    {
        match self {
            EditError::Parse(reason) => reason.clone(),
            EditError::MissingId => "_id alanı yok".to_owned(),
            EditError::IdNotObjectId => "_id bir ObjectId olmalı".to_owned(),
            EditError::IdChanged => "_id değiştirilemez".to_owned(),
        }
    }
}

/// One update of a stored document: the fields to assign and the fields to
/// remove, in the document with the identifier `id`.
#[derive(Debug)]
pub struct Update {
    pub id: ObjectId,
    pub set: Document,
    pub unset: Document,
}

/// The identifier that an edit of `original` into `edited` keeps: that of
/// `edited`, which must be an identifier and the one `original` has.
pub open spec fn kept_id(original: DocumentModel, edited: DocumentModel) -> Result<
    ObjectId,
    EditError,
> {
    match lookup(edited, id_key()) {
        None => Err(EditError::MissingId),
        Some(ValueModel::ObjectId(id)) => if lookup(original, id_key()) == Some(
            ValueModel::ObjectId(id),
        ) {
            Ok(id)
        } else {
            Err(EditError::IdChanged)
        },
        Some(_) => Err(EditError::IdNotObjectId),
    }
}

/// Checks that `edited` has the identifier of `original`, and returns it.
pub fn check_id(original: &Document, edited: &Document) -> (r: Result<ObjectId, EditError>)
    ensures
        r == kept_id(original@, edited@),
{
    match edited.get("_id") {
        None => Err(EditError::MissingId),
        Some(Value::ObjectId(id)) => match original.get_object_id("_id") {
            Some(old_id) => if old_id.value == id.value {
                Ok(*id)
            } else {
                Err(EditError::IdChanged)
            },
            None => Err(EditError::IdChanged),
        },
        Some(_) => Err(EditError::IdNotObjectId),
    }
}

/// The one update that turns `original` into `edited`, or `None` where the two
/// do not differ and nothing is to be sent. The edit is refused where `edited`
/// lacks the identifier of `original`. Neither part of the update names the
/// identifier field.
pub fn apply_edited_document(original: &Document, edited: &Document) -> (r: Result<
    Option<Update>,
    EditError,
>)
    ensures
        match kept_id(original@, edited@) {
            Err(e) => r == Err::<Option<Update>, EditError>(e),
            Ok(id) => {
                let set = set_fields(original@, edited@);
                let unset = unset_fields(original@, edited@);
                if set.len() == 0 && unset.len() == 0 {
                    r matches Ok(None)
                } else {
                    r matches Ok(Some(u)) && u.id == id && u.set@ == set && u.unset@ == unset
                }
            },
        },
        r matches Ok(Some(u)) ==> !has_key(u.set@, id_key()) && !has_key(u.unset@, id_key()),
{
    let id = match check_id(original, edited) {
        Ok(id) => id,
        Err(e) => {
            return Err(e);
        },
    };
    let (set_doc, unset_doc) = diff_docs_deep(original, edited);
    if set_doc.is_empty() && unset_doc.is_empty() {
        return Ok(None);
    }
    Ok(Some(Update { id, set: set_doc, unset: unset_doc }))
}

/// The update that an edited text asks for, once the text has been read:
/// `parsed` holds the document that it denotes, or the reason why it denotes
/// none.
pub fn apply_edited_json(original: &Document, parsed: Result<Document, String>) -> (r: Result<
    Option<Update>,
    EditError,
>)
    ensures
        match parsed {
            Err(reason) => r matches Err(EditError::Parse(m)) && m@ == reason@,
            Ok(edited) => match kept_id(original@, edited@) {
                Err(e) => r == Err::<Option<Update>, EditError>(e),
                Ok(id) => {
                    let set = set_fields(original@, edited@);
                    let unset = unset_fields(original@, edited@);
                    if set.len() == 0 && unset.len() == 0 {
                        r matches Ok(None)
                    } else {
                        r matches Ok(Some(u)) && u.id == id && u.set@ == set && u.unset@ == unset
                    }
                },
            },
        },
{
    match parsed {
        Err(reason) => Err(EditError::Parse(reason)),
        Ok(edited) => apply_edited_document(original, &edited),
    }
}

/// The top-level fields among the first `n` of `edited`, the identifier
/// aside, that `original` lacks or holds with another value.
pub open spec fn changed_prefix(
    original: DocumentModel,
    edited: DocumentModel,
    n: nat,
) -> Seq<FieldModel>
    decreases n,
{
    if n == 0 || n > edited.len() {
        Seq::empty()
    } else {
        let before = changed_prefix(original, edited, (n - 1) as nat);
        let f = edited[n - 1];
        if f.key == id_key() || lookup(original, f.key) == Some(f.value) {
            before
        } else {
            before.push(f)
        }
    }
}

/// The views of a sequence of fields.
pub open spec fn field_models(fields: Seq<Field>) -> Seq<FieldModel> {
    Seq::new(fields.len(), |i: int| fields[i]@)
}

/// The field-by-field updates that turn `original` into `edited`: one for each
/// top-level field of `edited`, the identifier aside, that `original` lacks or
/// holds with another value, in the order of `edited`. The edit is refused
/// where `edited` lacks the identifier of `original`.
pub fn field_updates(original: &Document, edited: &Document) -> (r: Result<
    (ObjectId, Vec<Field>),
    EditError,
>)
    ensures
        match kept_id(original@, edited@) {
            Err(e) => r == Err::<(ObjectId, Vec<Field>), EditError>(e),
            Ok(id) => r matches Ok(u) && u.0 == id && field_models(u.1@) == changed_prefix(
                original@,
                edited@,
                edited@.len(),
            ),
        },
{
    let id = match check_id(original, edited) {
        Ok(id) => id,
        Err(e) => {
            return Err(e);
        },
    };
    let mut out: Vec<Field> = Vec::new();
    let mut i: usize = 0;
    proof {
        assert(field_models(out@) =~= changed_prefix(original@, edited@, 0));
    }
    while i < edited.fields.len()
        invariant
            0 <= i <= edited.fields.len(),
            field_models(out@) == changed_prefix(original@, edited@, i as nat),
        decreases edited.fields.len() - i,
    {
        let f = &edited.fields[i];
        let ghost before = field_models(out@);
        proof {
            assert(edited@[i as int] == f@);
        }
        if !same_text(f.key.as_str(), "_id") {
            let unchanged = match original.get(f.key.as_str()) {
                Some(old_v) => old_v.same(&f.value),
                None => false,
            };
            if !unchanged {
                out.push(f.clone());
                proof {
                    assert(field_models(out@) =~= before.push(f@));
                }
            }
        }
        i += 1;
    }
    Ok((id, out))
}

/// Assignments built on a document with distinct names have distinct names.
pub proof fn lemma_patch_at_distinct(
    path: Seq<char>,
    old_v: ValueModel,
    new_v: ValueModel,
    acc: DocumentModel,
)
    requires
        distinct_keys(acc),
    ensures
        distinct_keys(patch_at(path, old_v, new_v, acc)),
    decreases new_v, 0nat,
{
    if old_v != new_v {
        lemma_put_keeps_distinct(acc, path, new_v);
        match new_v {
            ValueModel::Document(nd) => match old_v {
                ValueModel::Document(od) => {
                    lemma_patch_children_distinct(path, od, nd, nd.len(), acc);
                },
                _ => {},
            },
            _ => {},
        }
    }
}

pub proof fn lemma_patch_children_distinct(
    path: Seq<char>,
    od: DocumentModel,
    nd: DocumentModel,
    n: nat,
    acc: DocumentModel,
)
    requires
        distinct_keys(acc),
    ensures
        distinct_keys(patch_children(path, od, nd, n, acc)),
    decreases nd, n,
{
    if !(n == 0 || n > nd.len()) {
        lemma_patch_children_distinct(path, od, nd, (n - 1) as nat, acc);
        let before = patch_children(path, od, nd, (n - 1) as nat, acc);
        let child = nd[n - 1];
        match lookup(od, child.key) {
            Some(ov) => {
                lemma_patch_at_distinct(dotted(path, child.key), ov, child.value, before);
            },
            None => {
                lemma_put_keeps_distinct(before, dotted(path, child.key), child.value);
            },
        }
    }
}

/// The fields to assign have distinct names.
pub proof fn lemma_set_fields_distinct(original: DocumentModel, edited: DocumentModel, n: nat)
    ensures
        distinct_keys(set_prefix(original, edited, n)),
    decreases n,
{
    if !(n == 0 || n > edited.len()) {
        lemma_set_fields_distinct(original, edited, (n - 1) as nat);
        let before = set_prefix(original, edited, (n - 1) as nat);
        let f = edited[n - 1];
        if f.key != id_key() {
            match lookup(original, f.key) {
                Some(ov) => {
                    lemma_patch_at_distinct(f.key, ov, f.value, before);
                },
                None => {
                    lemma_put_keeps_distinct(before, f.key, f.value);
                },
            }
        }
    }
}

/// The fields to remove have distinct names.
pub proof fn lemma_unset_fields_distinct(original: DocumentModel, edited: DocumentModel, n: nat)
    ensures
        distinct_keys(unset_prefix(original, edited, n)),
    decreases n,
{
    if !(n == 0 || n > original.len()) {
        lemma_unset_fields_distinct(original, edited, (n - 1) as nat);
        let before = unset_prefix(original, edited, (n - 1) as nat);
        let f = original[n - 1];
        if !(f.key == id_key() || has_key(edited, f.key)) {
            lemma_put_keeps_distinct(before, f.key, removed_marker());
        }
    }
}

/// Setting one name adds no other name to a document.
pub proof fn lemma_put_other_key(d: DocumentModel, key: Seq<char>, v: ValueModel, other: Seq<char>)
    requires
        other != key,
        !has_key(d, other),
    ensures
        !has_key(put(d, key, v), other),
{
    lemma_key_position(d, key, 0);
    lemma_key_position(d, other, 0);
    let r = put(d, key, v);
    lemma_key_position(r, other, 0);
    let q = key_position(r, other, 0);
    if q < r.len() {
        if q < d.len() && q != key_position(d, key, 0) {
            assert(d[q].key == other);
        }
    }
}

/// The fields to remove never name the identifier field.
pub proof fn lemma_unset_fields_keys(original: DocumentModel, edited: DocumentModel, n: nat)
    ensures
        !has_key(unset_prefix(original, edited, n), id_key()),
    decreases n,
{
    if !(n == 0 || n > original.len()) {
        lemma_unset_fields_keys(original, edited, (n - 1) as nat);
        let before = unset_prefix(original, edited, (n - 1) as nat);
        let f = original[n - 1];
        if !(f.key == id_key() || has_key(edited, f.key)) {
            lemma_put_other_key(before, f.key, removed_marker(), id_key());
        }
    }
}

/// A dotted path is not the name of the identifier field, which holds no dot.
pub proof fn lemma_dotted_is_not_id(prefix: Seq<char>, key: Seq<char>)
    ensures
        dotted(prefix, key) != id_key(),
{
    reveal_strlit("_id");
    let p = dotted(prefix, key);
    assert(p[prefix.len() as int] == '.');
    if p == id_key() {
        assert(id_key().len() == 3);
        assert(id_key()[0] == '_' && id_key()[1] == 'i' && id_key()[2] == 'd');
        assert(0 <= prefix.len() < 3);
        assert(id_key()[prefix.len() as int] == '.');
    }
}

/// What is assigned at a path other than the identifier's name, or below it,
/// adds no field of that name.
pub proof fn lemma_patch_at_keeps_id_out(
    path: Seq<char>,
    old_v: ValueModel,
    new_v: ValueModel,
    acc: DocumentModel,
)
    requires
        !has_key(acc, id_key()),
        path != id_key(),
    ensures
        !has_key(patch_at(path, old_v, new_v, acc), id_key()),
    decreases new_v, 0nat,
{
    if old_v != new_v {
        lemma_put_other_key(acc, path, new_v, id_key());
        match new_v {
            ValueModel::Document(nd) => match old_v {
                ValueModel::Document(od) => {
                    lemma_patch_children_keep_id_out(path, od, nd, nd.len(), acc);
                },
                _ => {},
            },
            _ => {},
        }
    }
}

pub proof fn lemma_patch_children_keep_id_out(
    path: Seq<char>,
    od: DocumentModel,
    nd: DocumentModel,
    n: nat,
    acc: DocumentModel,
)
    requires
        !has_key(acc, id_key()),
    ensures
        !has_key(patch_children(path, od, nd, n, acc), id_key()),
    decreases nd, n,
{
    if !(n == 0 || n > nd.len()) {
        lemma_patch_children_keep_id_out(path, od, nd, (n - 1) as nat, acc);
        let before = patch_children(path, od, nd, (n - 1) as nat, acc);
        let child = nd[n - 1];
        let here = dotted(path, child.key);
        lemma_dotted_is_not_id(path, child.key);
        match lookup(od, child.key) {
            Some(ov) => {
                lemma_patch_at_keeps_id_out(here, ov, child.value, before);
            },
            None => {
                lemma_put_other_key(before, here, child.value, id_key());
            },
        }
    }
}

/// The fields to assign never name the identifier field, whatever the two
/// documents are.
pub proof fn lemma_set_fields_keys(original: DocumentModel, edited: DocumentModel, n: nat)
    ensures
        !has_key(set_prefix(original, edited, n), id_key()),
    decreases n,
{
    if !(n == 0 || n > edited.len()) {
        lemma_set_fields_keys(original, edited, (n - 1) as nat);
        let before = set_prefix(original, edited, (n - 1) as nat);
        let f = edited[n - 1];
        if f.key != id_key() {
            match lookup(original, f.key) {
                Some(ov) => {
                    lemma_patch_at_keeps_id_out(f.key, ov, f.value, before);
                },
                None => {
                    lemma_put_other_key(before, f.key, f.value, id_key());
                },
            }
        }
    }
}

} // verus!
