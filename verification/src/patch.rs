//! What a difference does to a document, and why it turns the original into
//! the edited document.
//!
//! A difference is read as the store reads it: a field path names a field of
//! the document, or, with dots, a field of a document nested in it; the
//! fields to assign are assigned one after the other, then the fields to
//! remove are removed. Two documents are alike where they hold the same
//! names with like values, in whatever order.

use vstd::prelude::*;
use vstd::string::*;
use crate::diff::{
    at_or_below, dotted, id_key, no_dot, patch_at, patch_children, set_fields, set_prefix,
    unset_fields, Update,
};
use crate::diff_laws::{lemma_has_own_key, lemma_put_lookup, lemma_removed, removed};
use crate::document::{
    distinct_keys, has_key, key_position, lemma_document_view, lemma_key_position,
    lemma_lookup_own_field, lemma_put_keeps_distinct, lemma_without_drops_key, lookup, put,
    without, Document, DocumentModel, FieldModel, Value, ValueModel,
};
use crate::text::{next_separator, to_chars};

verus! {

/// No field path of `acc` is `p` or lies below it.
pub open spec fn clear_of(acc: DocumentModel, p: Seq<char>) -> bool {
    forall|i: int| 0 <= i < acc.len() ==> !at_or_below((#[trigger] acc[i]).key, p)
}

/// `entries` with every field path put below `p`.
pub open spec fn prefixed(p: Seq<char>, entries: DocumentModel) -> DocumentModel {
    Seq::new(
        entries.len(),
        |i: int| FieldModel { key: dotted(p, entries[i].key), value: entries[i].value },
    )
}

/// What turns `ov` into `nv` at the field `key`, with field paths counted from
/// the document that holds the field.
pub open spec fn changes(ov: ValueModel, nv: ValueModel, key: Seq<char>) -> DocumentModel
    decreases nv, 0nat,
{
    if ov == nv {
        Seq::empty()
    } else {
        match nv {
            ValueModel::Document(nd) => match ov {
                ValueModel::Document(od) => prefixed(key, child_changes(od, nd, nd.len())),
                _ => seq![FieldModel { key, value: nv }],
            },
            _ => seq![FieldModel { key, value: nv }],
        }
    }
}

/// What the field `c` of a new document asks for, given the old document.
pub open spec fn field_changes(od: DocumentModel, c: FieldModel) -> DocumentModel
    decreases c.value, 1nat,
{
    match lookup(od, c.key) {
        Some(ov) => changes(ov, c.value, c.key),
        None => seq![c],
    }
}

/// What turns the document `od` into the first `n` fields of `nd`, with field
/// paths counted from the document itself.
pub open spec fn child_changes(od: DocumentModel, nd: DocumentModel, n: nat) -> DocumentModel
    decreases nd, n,
{
    if n == 0 || n > nd.len() {
        Seq::empty()
    } else {
        child_changes(od, nd, (n - 1) as nat) + field_changes(od, nd[n - 1])
    }
}

/// What turns `original` into the first `n` fields of `edited`, the
/// identifier aside.
pub open spec fn top_changes(original: DocumentModel, edited: DocumentModel, n: nat) -> DocumentModel
    decreases n,
{
    if n == 0 || n > edited.len() {
        Seq::empty()
    } else {
        top_changes(original, edited, (n - 1) as nat) + (if edited[n - 1].key == id_key() {
            Seq::empty()
        } else {
            field_changes(original, edited[n - 1])
        })
    }
}

/// Whether the names of a value are plain at every depth: in each document
/// nested in it, outside of lists, no name holds a dot or stands twice.
pub open spec fn plain_names(v: ValueModel) -> bool
    decreases v,
{
    match v {
        ValueModel::Document(d) => plain_doc(d),
        _ => true,
    }
}

pub open spec fn plain_doc(d: DocumentModel) -> bool
    decreases d,
{
    distinct_keys(d) && (forall|i: int|
        0 <= i < d.len() ==> no_dot((#[trigger] d[i]).key) && plain_names(d[i].value))
}

proof fn lemma_below_dotted_is_below(e: Seq<char>, p: Seq<char>, c: Seq<char>)
    requires
        at_or_below(e, dotted(p, c)),
    ensures
        at_or_below(e, p),
{
    let q = dotted(p, c);
    assert(q.subrange(0, p.len() as int) =~= p);
    assert(q[p.len() as int] == '.');
    if e != q {
        assert(e.subrange(0, p.len() as int) =~= e.subrange(0, q.len() as int).subrange(
            0,
            p.len() as int,
        ));
        assert(e[p.len() as int] == e.subrange(0, q.len() as int)[p.len() as int]);
    }
}

/// Two names without dots are one name where one field path is at or below
/// both of them, counted from the same base.
proof fn lemma_one_name(base: Seq<char>, c: Seq<char>, d: Seq<char>, e: Seq<char>)
    requires
        no_dot(c),
        no_dot(d),
        at_or_below(e, base + c),
        at_or_below(e, base + d),
    ensures
        c == d,
{
    let x = base + c;
    let y = base + d;
    assert(e.subrange(0, x.len() as int) == x);
    assert(e.subrange(0, y.len() as int) == y);
    if c.len() < d.len() {
        let pos = x.len() as int;
        assert(e.len() > pos);
        assert(e[pos] == '.');
        assert(e[pos] == e.subrange(0, y.len() as int)[pos]);
        assert(y[pos] == d[c.len() as int]);
    } else if d.len() < c.len() {
        let pos = y.len() as int;
        assert(e.len() > pos);
        assert(e[pos] == '.');
        assert(e[pos] == e.subrange(0, x.len() as int)[pos]);
        assert(x[pos] == c[d.len() as int]);
    } else {
        assert forall|i: int| 0 <= i < c.len() implies c[i] == d[i] by {
            assert(x[base.len() + i] == c[i]);
            assert(y[base.len() + i] == d[i]);
            assert(e.subrange(0, x.len() as int)[base.len() + i] == e[base.len() + i]);
            assert(e.subrange(0, y.len() as int)[base.len() + i] == e[base.len() + i]);
        }
        assert(c =~= d);
    }
}

proof fn lemma_dotted_keeps_below(p: Seq<char>, r: Seq<char>, k: Seq<char>)
    requires
        at_or_below(r, k),
    ensures
        at_or_below(dotted(p, r), dotted(p, k)),
{
    if r != k {
        let a = dotted(p, r);
        let b = dotted(p, k);
        assert(r.subrange(0, k.len() as int) == k);
        assert(a.subrange(0, b.len() as int) =~= b) by {
            assert forall|i: int| 0 <= i < b.len() implies a[i] == b[i] by {
                if i > p.len() {
                    assert(r.subrange(0, k.len() as int)[i - p.len() - 1] == r[i - p.len() - 1]);
                }
            }
        }
        assert(a[b.len() as int] == r[k.len() as int]);
    }
}

/// Setting a path that `acc` is clear of adds one field at the end.
proof fn lemma_put_appends(acc: DocumentModel, p: Seq<char>, v: ValueModel)
    requires
        clear_of(acc, p),
    ensures
        put(acc, p, v) == acc.push(FieldModel { key: p, value: v }),
{
    lemma_key_position(acc, p, 0);
    let i = key_position(acc, p, 0);
    if i < acc.len() {
        assert(at_or_below(acc[i].key, p));
    }
}

/// Every field path of the changes of a field is the name of the field or
/// lies below it.
proof fn lemma_changes_rooted(ov: ValueModel, nv: ValueModel, key: Seq<char>, i: int)
    requires
        0 <= i < changes(ov, nv, key).len(),
    ensures
        at_or_below(changes(ov, nv, key)[i].key, key),
{
    let e = changes(ov, nv, key)[i].key;
    if e != key {
        assert(e.subrange(0, key.len() as int) =~= key);
    }
}

/// Every field path of what a field asks for is the name of the field or lies
/// below it.
proof fn lemma_field_changes_rooted(od: DocumentModel, c: FieldModel, i: int)
    requires
        0 <= i < field_changes(od, c).len(),
    ensures
        at_or_below(field_changes(od, c)[i].key, c.key),
{
    match lookup(od, c.key) {
        Some(ov) => {
            lemma_changes_rooted(ov, c.value, c.key, i);
        },
        None => {},
    }
}

/// Every field path of the changes of a document begins with the name of one
/// of the fields looked at.
proof fn lemma_child_changes_rooted(od: DocumentModel, nd: DocumentModel, n: nat, i: int)
    requires
        n <= nd.len(),
        0 <= i < child_changes(od, nd, n).len(),
    ensures
        exists|j: int| 0 <= j < n && at_or_below(child_changes(od, nd, n)[i].key, #[trigger] nd[j].key),
    decreases n,
{
    if n > 0 {
        let before = child_changes(od, nd, (n - 1) as nat);
        if i < before.len() {
            lemma_child_changes_rooted(od, nd, (n - 1) as nat, i);
            let j = choose|j: int| 0 <= j < n - 1 && at_or_below(before[i].key, #[trigger] nd[j].key);
            assert(at_or_below(child_changes(od, nd, n)[i].key, nd[j].key));
        } else {
            lemma_field_changes_rooted(od, nd[n - 1], i - before.len());
            assert(at_or_below(child_changes(od, nd, n)[i].key, nd[n - 1].key));
        }
    }
}

proof fn lemma_top_changes_rooted(original: DocumentModel, edited: DocumentModel, n: nat, i: int)
    requires
        n <= edited.len(),
        0 <= i < top_changes(original, edited, n).len(),
    ensures
        exists|j: int|
            0 <= j < n && at_or_below(top_changes(original, edited, n)[i].key, #[trigger] edited[j].key),
    decreases n,
{
    if n > 0 {
        let before = top_changes(original, edited, (n - 1) as nat);
        if i < before.len() {
            lemma_top_changes_rooted(original, edited, (n - 1) as nat, i);
            let j = choose|j: int|
                0 <= j < n - 1 && at_or_below(before[i].key, #[trigger] edited[j].key);
            assert(at_or_below(top_changes(original, edited, n)[i].key, edited[j].key));
        } else {
            lemma_field_changes_rooted(original, edited[n - 1], i - before.len());
            assert(at_or_below(top_changes(original, edited, n)[i].key, edited[n - 1].key));
        }
    }
}

/// The changes of a field below a path are its changes at the dot-joined
/// path.
proof fn lemma_changes_prefixed(p: Seq<char>, ov: ValueModel, nv: ValueModel, key: Seq<char>)
    ensures
        prefixed(p, changes(ov, nv, key)) == changes(ov, nv, dotted(p, key)),
{
    if ov == nv {
        assert(prefixed(p, Seq::<FieldModel>::empty()) =~= Seq::<FieldModel>::empty());
    } else {
        let whole = seq![FieldModel { key, value: nv }];
        assert(prefixed(p, whole) =~= seq![FieldModel { key: dotted(p, key), value: nv }]);
        match nv {
            ValueModel::Document(nd) => match ov {
                ValueModel::Document(od) => {
                    let inner = child_changes(od, nd, nd.len());
                    assert(prefixed(p, prefixed(key, inner)) =~= prefixed(dotted(p, key), inner)) by {
                        assert forall|i: int| 0 <= i < inner.len() implies prefixed(
                            p,
                            prefixed(key, inner),
                        )[i].key == prefixed(dotted(p, key), inner)[i].key by {
                            assert(dotted(p, dotted(key, inner[i].key)) =~= dotted(
                                dotted(p, key),
                                inner[i].key,
                            ));
                        }
                    }
                },
                _ => {},
            },
            _ => {},
        }
    }
}

proof fn lemma_patch_at_is_changes(
    path: Seq<char>,
    ov: ValueModel,
    nv: ValueModel,
    acc: DocumentModel,
)
    requires
        clear_of(acc, path),
        plain_names(nv),
    ensures
        patch_at(path, ov, nv, acc) == acc + changes(ov, nv, path),
    decreases nv, 0nat,
{
    if ov == nv {
        assert(acc + Seq::<FieldModel>::empty() =~= acc);
    } else {
        lemma_put_appends(acc, path, nv);
        assert(acc.push(FieldModel { key: path, value: nv }) =~= acc + seq![
            FieldModel { key: path, value: nv },
        ]);
        match nv {
            ValueModel::Document(nd) => match ov {
                ValueModel::Document(od) => {
                    lemma_patch_children_is_changes(path, od, nd, nd.len(), acc);
                },
                _ => {},
            },
            _ => {},
        }
    }
}

proof fn lemma_patch_children_is_changes(
    path: Seq<char>,
    od: DocumentModel,
    nd: DocumentModel,
    n: nat,
    acc: DocumentModel,
)
    requires
        clear_of(acc, path),
        plain_doc(nd),
        n <= nd.len(),
    ensures
        patch_children(path, od, nd, n, acc) == acc + prefixed(path, child_changes(od, nd, n)),
    decreases nd, n,
{
    if n == 0 {
        assert(acc + prefixed(path, Seq::<FieldModel>::empty()) =~= acc);
    } else {
        lemma_patch_children_is_changes(path, od, nd, (n - 1) as nat, acc);
        let earlier = child_changes(od, nd, (n - 1) as nat);
        let before = patch_children(path, od, nd, (n - 1) as nat, acc);
        let c = nd[n - 1];
        let here = dotted(path, c.key);
        assert forall|i: int| 0 <= i < before.len() implies !at_or_below(
            (#[trigger] before[i]).key,
            here,
        ) by {
            if at_or_below(before[i].key, here) {
                if i < acc.len() {
                    lemma_below_dotted_is_below(acc[i].key, path, c.key);
                } else {
                    let r = earlier[i - acc.len()];
                    lemma_child_changes_rooted(od, nd, (n - 1) as nat, i - acc.len());
                    let j = choose|j: int|
                        0 <= j < n - 1 && at_or_below(r.key, #[trigger] nd[j].key);
                    lemma_dotted_keeps_below(path, r.key, nd[j].key);
                    assert(dotted(path, nd[j].key) =~= (path + seq!['.']) + nd[j].key);
                    assert(here =~= (path + seq!['.']) + c.key);
                    lemma_one_name(path + seq!['.'], nd[j].key, c.key, dotted(path, r.key));
                    assert(nd[j].key != nd[n - 1].key);
                }
            }
        }
        let asked = field_changes(od, c);
        match lookup(od, c.key) {
            Some(ov) => {
                lemma_patch_at_is_changes(here, ov, c.value, before);
                lemma_changes_prefixed(path, ov, c.value, c.key);
            },
            None => {
                lemma_put_appends(before, here, c.value);
                assert(before.push(FieldModel { key: here, value: c.value }) =~= before
                    + prefixed(path, asked));
            },
        }
        assert((acc + prefixed(path, earlier)) + prefixed(path, asked) =~= acc + prefixed(
            path,
            earlier + asked,
        ));
    }
}

/// The fields to assign are the changes of the document, field by field.
pub proof fn lemma_set_fields_are_changes(original: DocumentModel, edited: DocumentModel, n: nat)
    requires
        plain_doc(edited),
        n <= edited.len(),
    ensures
        set_prefix(original, edited, n) == top_changes(original, edited, n),
    decreases n,
{
    if n > 0 {
        lemma_set_fields_are_changes(original, edited, (n - 1) as nat);
        let before = top_changes(original, edited, (n - 1) as nat);
        let f = edited[n - 1];
        if f.key == id_key() {
            assert(before + Seq::<FieldModel>::empty() =~= before);
        } else {
            assert forall|i: int| 0 <= i < before.len() implies !at_or_below(
                (#[trigger] before[i]).key,
                f.key,
            ) by {
                if at_or_below(before[i].key, f.key) {
                    lemma_top_changes_rooted(original, edited, (n - 1) as nat, i);
                    let j = choose|j: int|
                        0 <= j < n - 1 && at_or_below(before[i].key, #[trigger] edited[j].key);
                    assert(Seq::<char>::empty() + edited[j].key =~= edited[j].key);
                    assert(Seq::<char>::empty() + f.key =~= f.key);
                    lemma_one_name(Seq::empty(), edited[j].key, f.key, before[i].key);
                    assert(edited[j].key != edited[n - 1].key);
                }
            }
            match lookup(original, f.key) {
                Some(ov) => {
                    lemma_patch_at_is_changes(f.key, ov, f.value, before);
                },
                None => {
                    lemma_put_appends(before, f.key, f.value);
                    assert(before.push(f) =~= before + seq![f]);
                },
            }
        }
    }
}

/// The document that the field `k` of `d` holds; the empty document where it
/// holds none.
pub open spec fn child_doc(d: DocumentModel, k: Seq<char>) -> DocumentModel {
    match lookup(d, k) {
        Some(ValueModel::Document(x)) => x,
        _ => Seq::empty(),
    }
}

/// `d` after the value `v` is assigned at the field path `e`: a path without
/// a dot names a field of `d`; a path with dots names, by what stands before
/// its first dot, a document nested in `d`, and by the rest a field path in
/// that document.
pub open spec fn assign(d: DocumentModel, e: Seq<char>, v: ValueModel) -> DocumentModel
    decreases e.len(),
{
    let i = next_separator(e, '.', 0);
    if 0 <= i < e.len() {
        let head = e.subrange(0, i);
        put(
            d,
            head,
            ValueModel::Document(assign(child_doc(d, head), e.subrange(i + 1, e.len() as int), v)),
        )
    } else {
        put(d, e, v)
    }
}

/// `d` after the first `n` of `entries` are assigned, one after the other.
pub open spec fn assign_all(d: DocumentModel, entries: DocumentModel, n: nat) -> DocumentModel
    decreases n,
{
    if n == 0 || n > entries.len() {
        d
    } else {
        assign(assign_all(d, entries, (n - 1) as nat), entries[n - 1].key, entries[n - 1].value)
    }
}

/// `d` after all of `entries` are assigned.
pub open spec fn assigned(d: DocumentModel, entries: DocumentModel) -> DocumentModel {
    assign_all(d, entries, entries.len())
}

/// `d` after the first `n` names of `entries` are removed from it.
pub open spec fn remove_all(d: DocumentModel, entries: DocumentModel, n: nat) -> DocumentModel
    decreases n,
{
    if n == 0 || n > entries.len() {
        d
    } else {
        without(remove_all(d, entries, (n - 1) as nat), entries[n - 1].key)
    }
}

proof fn lemma_no_dot_no_separator(k: Seq<char>, from: int)
    requires
        no_dot(k),
        0 <= from <= k.len(),
    ensures
        next_separator(k, '.', from) == k.len(),
    decreases k.len() - from,
{
    if from < k.len() {
        lemma_no_dot_no_separator(k, from + 1);
    }
}

proof fn lemma_first_dot_of_dotted(k: Seq<char>, r: Seq<char>, from: int)
    requires
        no_dot(k),
        0 <= from <= k.len(),
    ensures
        next_separator(dotted(k, r), '.', from) == k.len(),
    decreases k.len() - from,
{
    let s = dotted(k, r);
    if from < k.len() {
        assert(s[from] == k[from]);
        lemma_first_dot_of_dotted(k, r, from + 1);
    } else {
        assert(s[from] == '.');
    }
}

/// Assigning at a name without a dot sets that field.
proof fn lemma_assign_plain(d: DocumentModel, k: Seq<char>, v: ValueModel)
    requires
        no_dot(k),
    ensures
        assign(d, k, v) == put(d, k, v),
{
    lemma_no_dot_no_separator(k, 0);
}

/// Assigning at a path below a name without a dot assigns in the document
/// that the field of that name holds.
proof fn lemma_assign_dotted(d: DocumentModel, k: Seq<char>, r: Seq<char>, v: ValueModel)
    requires
        no_dot(k),
    ensures
        assign(d, dotted(k, r), v) == put(
            d,
            k,
            ValueModel::Document(assign(child_doc(d, k), r, v)),
        ),
{
    let e = dotted(k, r);
    lemma_first_dot_of_dotted(k, r, 0);
    assert(e.subrange(0, k.len() as int) =~= k);
    assert(e.subrange(k.len() as int + 1, e.len() as int) =~= r);
}

/// Setting a name twice is setting it to the second value.
proof fn lemma_put_twice(d: DocumentModel, k: Seq<char>, a: ValueModel, b: ValueModel)
    ensures
        put(put(d, k, a), k, b) == put(d, k, b),
{
    lemma_key_position(d, k, 0);
    let once = put(d, k, a);
    lemma_key_position(once, k, 0);
    let p = key_position(d, k, 0);
    let q = key_position(once, k, 0);
    if q < p {
        assert(once[q].key == d[q].key);
    } else if q > p {
        assert(once[p].key == k);
    }
    assert(q == p);
    assert(put(once, k, b) =~= put(d, k, b));
}

proof fn lemma_assign_all_of_front(
    d: DocumentModel,
    a: DocumentModel,
    b: DocumentModel,
    n: nat,
)
    requires
        n <= a.len(),
    ensures
        assign_all(d, a + b, n) == assign_all(d, a, n),
    decreases n,
{
    if n > 0 {
        lemma_assign_all_of_front(d, a, b, (n - 1) as nat);
        assert((a + b)[n - 1] == a[n - 1]);
    }
}

/// Assigning two lists of fields one after the other is assigning the two
/// put together.
proof fn lemma_assign_all_joined(d: DocumentModel, a: DocumentModel, b: DocumentModel, m: nat)
    requires
        m <= b.len(),
    ensures
        assign_all(d, a + b, a.len() + m) == assign_all(assigned(d, a), b, m),
    decreases m,
{
    if m == 0 {
        lemma_assign_all_of_front(d, a, b, a.len());
    } else {
        lemma_assign_all_joined(d, a, b, (m - 1) as nat);
        assert((a + b)[a.len() + m - 1] == b[m - 1]);
    }
}

/// Assigning fields below a name assigns them in the document that the field
/// of that name holds.
proof fn lemma_assign_below(d: DocumentModel, k: Seq<char>, entries: DocumentModel, n: nat)
    requires
        no_dot(k),
        n <= entries.len(),
    ensures
        assign_all(d, prefixed(k, entries), n) == if n == 0 {
            d
        } else {
            put(d, k, ValueModel::Document(assign_all(child_doc(d, k), entries, n)))
        },
    decreases n,
{
    if n > 0 {
        lemma_assign_below(d, k, entries, (n - 1) as nat);
        let prev = assign_all(d, prefixed(k, entries), (n - 1) as nat);
        let f = entries[n - 1];
        let inner = assign_all(child_doc(d, k), entries, (n - 1) as nat);
        assert(prefixed(k, entries)[n - 1] == FieldModel { key: dotted(k, f.key), value: f.value });
        lemma_assign_dotted(prev, k, f.key, f.value);
        if n > 1 {
            lemma_put_lookup(d, k, ValueModel::Document(inner), k);
            lemma_put_twice(
                d,
                k,
                ValueModel::Document(inner),
                ValueModel::Document(assign(inner, f.key, f.value)),
            );
        }
    }
}

/// Whether two values are alike: the same value, or two documents that hold
/// the same names with like values, in whatever order.
pub open spec fn alike(a: ValueModel, b: ValueModel) -> bool
    decreases b,
{
    match b {
        ValueModel::Document(y) => match a {
            ValueModel::Document(x) => alike_docs(x, y),
            _ => false,
        },
        _ => a == b,
    }
}

pub open spec fn alike_docs(x: DocumentModel, y: DocumentModel) -> bool
    decreases y,
{
    &&& forall|j: int|
        0 <= j < y.len() ==> match lookup(x, (#[trigger] y[j]).key) {
            Some(w) => alike(w, y[j].value),
            None => false,
        }
    &&& forall|i: int| 0 <= i < x.len() ==> has_key(y, (#[trigger] x[i]).key)
}

/// Whether `nv` keeps what `ov` holds below: where both are documents, every
/// name of `ov` is a name of `nv`, and so on in the documents nested in them.
pub open spec fn grows(ov: ValueModel, nv: ValueModel) -> bool
    decreases nv, 0nat,
{
    match nv {
        ValueModel::Document(nd) => match ov {
            ValueModel::Document(od) => grows_docs(od, nd),
            _ => true,
        },
        _ => true,
    }
}

pub open spec fn grows_docs(od: DocumentModel, nd: DocumentModel) -> bool
    decreases nd, 1nat,
{
    &&& forall|i: int| 0 <= i < od.len() ==> has_key(nd, (#[trigger] od[i]).key)
    &&& grows_below(od, nd)
}

/// Whether every field of `nd` keeps what the field of that name in `od`
/// holds below.
pub open spec fn grows_below(od: DocumentModel, nd: DocumentModel) -> bool
    decreases nd, 0nat,
{
    forall|j: int|
        0 <= j < nd.len() ==> match lookup(od, (#[trigger] nd[j]).key) {
            Some(ov) => grows(ov, nd[j].value),
            None => true,
        }
}

/// A value with plain names is like itself.
pub proof fn lemma_alike_itself(v: ValueModel)
    requires
        plain_names(v),
    ensures
        alike(v, v),
    decreases v,
{
    match v {
        ValueModel::Document(y) => {
            assert forall|j: int| 0 <= j < y.len() implies match lookup(y, (#[trigger] y[j]).key) {
                Some(w) => alike(w, y[j].value),
                None => false,
            } by {
                lemma_lookup_own_field(y, j);
                lemma_alike_itself(y[j].value);
            }
            assert forall|i: int| 0 <= i < y.len() implies has_key(y, (#[trigger] y[i]).key) by {
                lemma_has_own_key(y, i);
            }
        },
        _ => {},
    }
}

/// What the changes of one field do to a document that holds the old value
/// of the field: the field holds a value like the new one, and every other
/// field is left as it is.
proof fn lemma_changes_applied(d: DocumentModel, key: Seq<char>, ov: ValueModel, nv: ValueModel)
    requires
        distinct_keys(d),
        lookup(d, key) == Some(ov),
        no_dot(key),
        plain_names(ov),
        plain_names(nv),
        grows(ov, nv),
    ensures
        distinct_keys(assigned(d, changes(ov, nv, key))),
        match lookup(assigned(d, changes(ov, nv, key)), key) {
            Some(w) => alike(w, nv),
            None => false,
        },
        forall|x: Seq<char>|
            x != key ==> lookup(assigned(d, changes(ov, nv, key)), x) == lookup(d, x),
    decreases nv, 0nat,
{
    let asked = changes(ov, nv, key);
    if ov == nv {
        lemma_alike_itself(nv);
    } else {
        let whole = seq![FieldModel { key, value: nv }];
        assert(assigned(d, whole) == assign(d, key, nv)) by {
            assert(assign_all(d, whole, 0) == d);
        }
        lemma_assign_plain(d, key, nv);
        lemma_put_keeps_distinct(d, key, nv);
        lemma_alike_itself(nv);
        assert forall|x: Seq<char>| lookup(put(d, key, nv), x) == if x == key {
            Some(nv)
        } else {
            lookup(d, x)
        } by {
            lemma_put_lookup(d, key, nv, x);
        }
        match nv {
            ValueModel::Document(nd) => match ov {
                ValueModel::Document(od) => {
                    let inner = child_changes(od, nd, nd.len());
                    let grown = assigned(od, inner);
                    lemma_children_applied(od, nd, nd.len());
                    lemma_docs_alike(od, nd, grown);
                    lemma_assign_below(d, key, inner, inner.len());
                    if inner.len() > 0 {
                        lemma_put_keeps_distinct(d, key, ValueModel::Document(grown));
                        assert forall|x: Seq<char>|
                            lookup(put(d, key, ValueModel::Document(grown)), x) == if x == key {
                                Some(ValueModel::Document(grown))
                            } else {
                                lookup(d, x)
                            } by {
                            lemma_put_lookup(d, key, ValueModel::Document(grown), x);
                        }
                    }
                },
                _ => {},
            },
            _ => {},
        }
    }
}

/// What the changes of the first `n` fields of a document do to the old
/// document: each of those fields holds a value like its new one, and every
/// field of another name is left as it is.
proof fn lemma_children_applied(od: DocumentModel, nd: DocumentModel, n: nat)
    requires
        plain_doc(od),
        plain_doc(nd),
        grows_below(od, nd),
        n <= nd.len(),
    ensures
        distinct_keys(assigned(od, child_changes(od, nd, n))),
        forall|j: int|
            0 <= j < n ==> match lookup(
                assigned(od, child_changes(od, nd, n)),
                (#[trigger] nd[j]).key,
            ) {
                Some(w) => alike(w, nd[j].value),
                None => false,
            },
        forall|x: Seq<char>|
            (forall|j: int| 0 <= j < n ==> (#[trigger] nd[j]).key != x) ==> lookup(
                assigned(od, child_changes(od, nd, n)),
                x,
            ) == lookup(od, x),
    decreases nd, n,
{
    if n > 0 {
        lemma_children_applied(od, nd, (n - 1) as nat);
        let earlier = child_changes(od, nd, (n - 1) as nat);
        let before = assigned(od, earlier);
        let c = nd[n - 1];
        let asked = field_changes(od, c);
        let after = assigned(od, child_changes(od, nd, n));
        lemma_assign_all_joined(od, earlier, asked, asked.len());
        assert(after == assigned(before, asked));
        assert(lookup(before, c.key) == lookup(od, c.key)) by {
            assert forall|j: int| 0 <= j < n - 1 implies (#[trigger] nd[j]).key != c.key by {
                assert(nd[j].key != nd[n - 1].key);
            }
        }
        lemma_field_applied(before, od, c);
        assert forall|j: int| 0 <= j < n implies match lookup(after, (#[trigger] nd[j]).key) {
            Some(w) => alike(w, nd[j].value),
            None => false,
        } by {
            if j < n - 1 {
                assert(nd[j].key != nd[n - 1].key);
            }
        }
    }
}

/// What a field of the new document asks for does to a document that holds
/// for its name what the old document holds.
proof fn lemma_field_applied(d: DocumentModel, od: DocumentModel, c: FieldModel)
    requires
        distinct_keys(d),
        plain_doc(od),
        lookup(d, c.key) == lookup(od, c.key),
        no_dot(c.key),
        plain_names(c.value),
        match lookup(od, c.key) {
            Some(ov) => grows(ov, c.value),
            None => true,
        },
    ensures
        distinct_keys(assigned(d, field_changes(od, c))),
        match lookup(assigned(d, field_changes(od, c)), c.key) {
            Some(w) => alike(w, c.value),
            None => false,
        },
        forall|x: Seq<char>|
            x != c.key ==> lookup(assigned(d, field_changes(od, c)), x) == lookup(d, x),
    decreases c.value, 1nat,
{
    match lookup(od, c.key) {
        Some(ov) => {
            lemma_key_position(od, c.key, 0);
            lemma_changes_applied(d, c.key, ov, c.value);
        },
        None => {
            assert(assigned(d, seq![c]) == assign(d, c.key, c.value)) by {
                assert(assign_all(d, seq![c], 0) == d);
            }
            lemma_assign_plain(d, c.key, c.value);
            lemma_put_keeps_distinct(d, c.key, c.value);
            lemma_alike_itself(c.value);
            assert forall|x: Seq<char>| lookup(put(d, c.key, c.value), x) == if x == c.key {
                Some(c.value)
            } else {
                lookup(d, x)
            } by {
                lemma_put_lookup(d, c.key, c.value, x);
            }
        },
    }
}

/// A document that holds for every field of `nd` a like value, and besides
/// only what `od` holds, is like `nd`, where `nd` has every name of `od`.
proof fn lemma_docs_alike(od: DocumentModel, nd: DocumentModel, grown: DocumentModel)
    requires
        forall|i: int| 0 <= i < od.len() ==> has_key(nd, (#[trigger] od[i]).key),
        forall|j: int|
            0 <= j < nd.len() ==> match lookup(grown, (#[trigger] nd[j]).key) {
                Some(w) => alike(w, nd[j].value),
                None => false,
            },
        forall|x: Seq<char>|
            (forall|j: int| 0 <= j < nd.len() ==> (#[trigger] nd[j]).key != x) ==> lookup(
                grown,
                x,
            ) == lookup(od, x),
    ensures
        alike_docs(grown, nd),
{
    assert forall|i: int| 0 <= i < grown.len() implies has_key(nd, (#[trigger] grown[i]).key) by {
        lemma_name_is_kept(od, nd, grown, grown[i].key, i);
    }
}

proof fn lemma_name_is_kept(
    od: DocumentModel,
    nd: DocumentModel,
    grown: DocumentModel,
    x: Seq<char>,
    i: int,
)
    requires
        forall|i: int| 0 <= i < od.len() ==> has_key(nd, (#[trigger] od[i]).key),
        (forall|j: int| 0 <= j < nd.len() ==> (#[trigger] nd[j]).key != x) ==> lookup(grown, x)
            == lookup(od, x),
        0 <= i < grown.len(),
        grown[i].key == x,
    ensures
        has_key(nd, x),
{
    lemma_has_own_key(grown, i);
    lemma_key_position(grown, x, 0);
    lemma_key_position(nd, x, 0);
    lemma_key_position(od, x, 0);
    if !has_key(nd, x) {
        assert forall|j: int| 0 <= j < nd.len() implies (#[trigger] nd[j]).key != x by {
            if nd[j].key == x {
                lemma_has_own_key(nd, j);
            }
        }
        let p = key_position(od, x, 0);
        assert(lookup(od, x) is Some);
        assert(has_key(nd, od[p].key));
    }
}

/// What the changes of the first `n` fields of the edited document do to the
/// original: each of those fields, the identifier aside, holds a value like
/// its new one, and every other field is left as it is.
proof fn lemma_top_applied(original: DocumentModel, edited: DocumentModel, n: nat)
    requires
        plain_doc(original),
        plain_doc(edited),
        grows_below(original, edited),
        n <= edited.len(),
    ensures
        distinct_keys(assigned(original, top_changes(original, edited, n))),
        forall|j: int|
            0 <= j < n && (#[trigger] edited[j]).key != id_key() ==> match lookup(
                assigned(original, top_changes(original, edited, n)),
                edited[j].key,
            ) {
                Some(w) => alike(w, edited[j].value),
                None => false,
            },
        forall|x: Seq<char>|
            (x == id_key() || forall|j: int| 0 <= j < n ==> (#[trigger] edited[j]).key != x)
                ==> lookup(assigned(original, top_changes(original, edited, n)), x) == lookup(
                original,
                x,
            ),
    decreases n,
{
    if n > 0 {
        lemma_top_applied(original, edited, (n - 1) as nat);
        let earlier = top_changes(original, edited, (n - 1) as nat);
        let before = assigned(original, earlier);
        let c = edited[n - 1];
        let after = assigned(original, top_changes(original, edited, n));
        if c.key == id_key() {
            assert(earlier + Seq::<FieldModel>::empty() =~= earlier);
        } else {
            let asked = field_changes(original, c);
            lemma_assign_all_joined(original, earlier, asked, asked.len());
            assert(after == assigned(before, asked));
            assert(lookup(before, c.key) == lookup(original, c.key)) by {
                assert forall|j: int| 0 <= j < n - 1 implies (#[trigger] edited[j]).key
                    != c.key by {
                    assert(edited[j].key != edited[n - 1].key);
                }
            }
            lemma_field_applied(before, original, c);
            assert forall|j: int|
                0 <= j < n && (#[trigger] edited[j]).key != id_key() implies match lookup(
                after,
                edited[j].key,
            ) {
                Some(w) => alike(w, edited[j].value),
                None => false,
            } by {
                if j < n - 1 {
                    assert(edited[j].key != edited[n - 1].key);
                }
            }
        }
    }
}

/// What taking out a name does to the names and the values of a document
/// with distinct names.
proof fn lemma_without_lookup(d: DocumentModel, k: Seq<char>, x: Seq<char>)
    requires
        distinct_keys(d),
    ensures
        lookup(without(d, k), x) == if x == k {
            None
        } else {
            lookup(d, x)
        },
{
    lemma_without_drops_key(d, k);
    lemma_key_position(d, k, 0);
    lemma_key_position(d, x, 0);
    let r = without(d, k);
    lemma_key_position(r, x, 0);
    let p = key_position(d, k, 0);
    let q = key_position(d, x, 0);
    let qr = key_position(r, x, 0);
    if x != k && p < d.len() {
        if q < d.len() {
            let at: int = if q < p {
                q
            } else {
                q - 1
            };
            assert(r[at] == d[q]);
            if qr < at {
                let from: int = if qr < p {
                    qr
                } else {
                    qr + 1
                };
                assert(r[qr] == d[from]);
            }
            assert(qr == at);
        } else if qr < r.len() {
            let from: int = if qr < p {
                qr
            } else {
                qr + 1
            };
            assert(r[qr] == d[from]);
        }
    }
}

/// What removing the first `n` names of `entries` does to a document with
/// distinct names: those names are gone, all else is left as it is.
proof fn lemma_remove_all_lookup(d: DocumentModel, entries: DocumentModel, n: nat, x: Seq<char>)
    requires
        distinct_keys(d),
        n <= entries.len(),
    ensures
        distinct_keys(remove_all(d, entries, n)),
        lookup(remove_all(d, entries, n), x) == if exists|i: int|
            0 <= i < n && (#[trigger] entries[i]).key == x {
            None
        } else {
            lookup(d, x)
        },
    decreases n,
{
    if n > 0 {
        lemma_remove_all_lookup(d, entries, (n - 1) as nat, x);
        let before = remove_all(d, entries, (n - 1) as nat);
        lemma_without_drops_key(before, entries[n - 1].key);
        lemma_without_lookup(before, entries[n - 1].key, x);
        if exists|i: int| 0 <= i < n && (#[trigger] entries[i]).key == x {
            let i = choose|i: int| 0 <= i < n && (#[trigger] entries[i]).key == x;
            if i < n - 1 {
                assert(entries[i].key == x);
            }
        } else {
            assert(entries[n - 1].key != x);
            assert(!(exists|i: int| 0 <= i < n - 1 && (#[trigger] entries[i]).key == x)) by {
                if exists|i: int| 0 <= i < n - 1 && (#[trigger] entries[i]).key == x {
                    let i = choose|i: int| 0 <= i < n - 1 && (#[trigger] entries[i]).key == x;
                    assert(0 <= i < n && entries[i].key == x);
                }
            }
        }
    }
}

/// The document that comes of `original` once the fields of `set` are
/// assigned, one after the other, and the names of `unset` are then removed.
pub open spec fn patched_document(
    original: DocumentModel,
    set: DocumentModel,
    unset: DocumentModel,
) -> DocumentModel {
    remove_all(assigned(original, set), unset, unset.len())
}

/// For one name: what the patched document holds for it.
proof fn lemma_patched_lookup(original: DocumentModel, edited: DocumentModel, x: Seq<char>)
    requires
        plain_doc(original),
        plain_doc(edited),
        grows_below(original, edited),
    ensures
        ({
            let set = set_fields(original, edited);
            let unset = unset_fields(original, edited);
            lookup(patched_document(original, set, unset), x) == if removed(
                original,
                edited,
                original.len(),
                x,
            ) {
                None
            } else {
                lookup(assigned(original, top_changes(original, edited, edited.len())), x)
            }
        }),
{
    let unset = unset_fields(original, edited);
    lemma_set_fields_are_changes(original, edited, edited.len());
    lemma_top_applied(original, edited, edited.len());
    let applied = assigned(original, top_changes(original, edited, edited.len()));
    lemma_remove_all_lookup(applied, unset, unset.len(), x);
    lemma_removed(original, edited, original.len(), x);
    lemma_key_position(unset, x, 0);
    if exists|i: int| 0 <= i < unset.len() && (#[trigger] unset[i]).key == x {
        let i = choose|i: int| 0 <= i < unset.len() && (#[trigger] unset[i]).key == x;
        lemma_has_own_key(unset, i);
    } else if has_key(unset, x) {
        let p = key_position(unset, x, 0);
        assert(unset[p].key == x);
    }
}

/// Where no name holds a dot or stands twice, no nested document
/// loses a name, and the identifier is kept, the difference turns the
/// original into the edited document: once its fields are assigned, one
/// after the other, and its names are removed, the document is like the
/// edited one.
pub proof fn law_difference_turns_original_into_edited(
    original: DocumentModel,
    edited: DocumentModel,
)
    requires
        plain_doc(original),
        plain_doc(edited),
        grows_below(original, edited),
        lookup(original, id_key()) == lookup(edited, id_key()),
    ensures
        alike_docs(
            patched_document(
                original,
                set_fields(original, edited),
                unset_fields(original, edited),
            ),
            edited,
        ),
{
    let set = set_fields(original, edited);
    let unset = unset_fields(original, edited);
    let result = patched_document(original, set, unset);
    let applied = assigned(original, top_changes(original, edited, edited.len()));
    lemma_top_applied(original, edited, edited.len());
    assert forall|j: int| 0 <= j < edited.len() implies match lookup(
        result,
        (#[trigger] edited[j]).key,
    ) {
        Some(w) => alike(w, edited[j].value),
        None => false,
    } by {
        let k = edited[j].key;
        lemma_patched_lookup(original, edited, k);
        lemma_has_own_key(edited, j);
        lemma_lookup_own_field(edited, j);
        lemma_alike_itself(edited[j].value);
    }
    assert forall|i: int| 0 <= i < result.len() implies has_key(
        edited,
        (#[trigger] result[i]).key,
    ) by {
        let x = result[i].key;
        lemma_patched_lookup(original, edited, x);
        lemma_has_own_key(result, i);
        lemma_key_position(result, x, 0);
        lemma_key_position(original, x, 0);
        lemma_key_position(edited, x, 0);
        if !has_key(edited, x) {
            assert forall|j: int| 0 <= j < edited.len() implies (#[trigger] edited[j]).key != x by {
                if edited[j].key == x {
                    lemma_has_own_key(edited, j);
                }
            }
            assert(lookup(applied, x) == lookup(original, x));
        }
    }
}

/// The value that `d` holds at the field path `e`: a path without a dot names
/// a field of `d`; a path with dots names, by what stands before its first
/// dot, a document nested in `d`, and by the rest a field path in that
/// document.
pub open spec fn value_at(d: DocumentModel, e: Seq<char>) -> Option<ValueModel>
    decreases e.len(),
{
    let i = next_separator(e, '.', 0);
    if 0 <= i < e.len() {
        match lookup(d, e.subrange(0, i)) {
            Some(ValueModel::Document(x)) => value_at(x, e.subrange(i + 1, e.len() as int)),
            _ => None,
        }
    } else {
        lookup(d, e)
    }
}

/// Whether the assignment of `v` at the path `e` is called for: the edited
/// document `nd` holds `v` there, the old document `od` holds nothing or
/// another value there, and the two do not both hold a document there.
pub open spec fn called_for(od: DocumentModel, nd: DocumentModel, e: Seq<char>, v: ValueModel) -> bool {
    &&& value_at(nd, e) == Some(v)
    &&& value_at(od, e) != Some(v)
    &&& !(v is Document && (value_at(od, e) matches Some(w) && w is Document))
}

proof fn lemma_value_at_plain(d: DocumentModel, k: Seq<char>)
    requires
        no_dot(k),
    ensures
        value_at(d, k) == lookup(d, k),
{
    lemma_no_dot_no_separator(k, 0);
}

proof fn lemma_value_at_dotted(d: DocumentModel, k: Seq<char>, r: Seq<char>)
    requires
        no_dot(k),
    ensures
        value_at(d, dotted(k, r)) == match lookup(d, k) {
            Some(ValueModel::Document(x)) => value_at(x, r),
            _ => None,
        },
{
    let e = dotted(k, r);
    lemma_first_dot_of_dotted(k, r, 0);
    assert(e.subrange(0, k.len() as int) =~= k);
    assert(e.subrange(k.len() as int + 1, e.len() as int) =~= r);
}

/// Every assignment that a field of the new document asks for is called for.
proof fn lemma_field_changes_called_for(
    od: DocumentModel,
    nd: DocumentModel,
    c: FieldModel,
    i: int,
)
    requires
        no_dot(c.key),
        plain_names(c.value),
        lookup(nd, c.key) == Some(c.value),
        0 <= i < field_changes(od, c).len(),
    ensures
        called_for(od, nd, field_changes(od, c)[i].key, field_changes(od, c)[i].value),
    decreases c.value, 1nat,
{
    lemma_value_at_plain(od, c.key);
    lemma_value_at_plain(nd, c.key);
    match lookup(od, c.key) {
        Some(ov) => {
            if ov != c.value {
                match c.value {
                    ValueModel::Document(inner_new) => match ov {
                        ValueModel::Document(inner_old) => {
                            let inner = child_changes(inner_old, inner_new, inner_new.len());
                            lemma_child_changes_called_for(
                                inner_old,
                                inner_new,
                                inner_new.len(),
                                i,
                            );
                            lemma_value_at_dotted(od, c.key, inner[i].key);
                            lemma_value_at_dotted(nd, c.key, inner[i].key);
                        },
                        _ => {},
                    },
                    _ => {},
                }
            }
        },
        None => {},
    }
}

/// Every assignment among the changes of a document is called for.
proof fn lemma_child_changes_called_for(od: DocumentModel, nd: DocumentModel, n: nat, i: int)
    requires
        plain_doc(nd),
        n <= nd.len(),
        0 <= i < child_changes(od, nd, n).len(),
    ensures
        called_for(od, nd, child_changes(od, nd, n)[i].key, child_changes(od, nd, n)[i].value),
    decreases nd, n,
{
    if n > 0 {
        let before = child_changes(od, nd, (n - 1) as nat);
        if i < before.len() {
            lemma_child_changes_called_for(od, nd, (n - 1) as nat, i);
        } else {
            lemma_lookup_own_field(nd, n - 1);
            lemma_field_changes_called_for(od, nd, nd[n - 1], i - before.len());
        }
    }
}

proof fn lemma_top_changes_called_for(
    original: DocumentModel,
    edited: DocumentModel,
    n: nat,
    i: int,
)
    requires
        plain_doc(edited),
        n <= edited.len(),
        0 <= i < top_changes(original, edited, n).len(),
    ensures
        called_for(
            original,
            edited,
            top_changes(original, edited, n)[i].key,
            top_changes(original, edited, n)[i].value,
        ),
    decreases n,
{
    if n > 0 {
        let before = top_changes(original, edited, (n - 1) as nat);
        if i < before.len() {
            lemma_top_changes_called_for(original, edited, (n - 1) as nat, i);
        } else {
            lemma_lookup_own_field(edited, n - 1);
            lemma_field_changes_called_for(original, edited, edited[n - 1], i - before.len());
        }
    }
}

/// Every assignment is called for, where no name of the edited document
/// holds a dot or stands twice: the edited document holds the assigned value
/// at the assigned path, the original holds nothing or another value there,
/// and the two do not both hold a document there.
pub proof fn law_assignments_are_called_for(
    original: DocumentModel,
    edited: DocumentModel,
    i: int,
)
    requires
        plain_doc(edited),
        0 <= i < set_fields(original, edited).len(),
    ensures
        called_for(
            original,
            edited,
            set_fields(original, edited)[i].key,
            set_fields(original, edited)[i].value,
        ),
{
    lemma_set_fields_are_changes(original, edited, edited.len());
    lemma_top_changes_called_for(original, edited, edited.len(), i);
}

/// Every assignment comes of a top-level field of the edited document that
/// the original lacks or holds with another value, and stands at the name of
/// that field or below it.
proof fn lemma_top_changes_source(original: DocumentModel, edited: DocumentModel, n: nat, i: int)
    requires
        n <= edited.len(),
        0 <= i < top_changes(original, edited, n).len(),
    ensures
        exists|j: int|
            0 <= j < n && lookup(original, (#[trigger] edited[j]).key) != Some(edited[j].value)
                && at_or_below(top_changes(original, edited, n)[i].key, edited[j].key),
    decreases n,
{
    if n > 0 {
        let before = top_changes(original, edited, (n - 1) as nat);
        if i < before.len() {
            lemma_top_changes_source(original, edited, (n - 1) as nat, i);
            let j = choose|j: int|
                0 <= j < n - 1 && lookup(original, (#[trigger] edited[j]).key) != Some(
                    edited[j].value,
                ) && at_or_below(before[i].key, edited[j].key);
            assert(at_or_below(top_changes(original, edited, n)[i].key, edited[j].key));
        } else {
            lemma_field_changes_rooted(original, edited[n - 1], i - before.len());
            assert(lookup(original, edited[n - 1].key) != Some(edited[n - 1].value));
            assert(at_or_below(top_changes(original, edited, n)[i].key, edited[n - 1].key));
        }
    }
}

/// A top-level field that the two documents hold with the same value is left
/// alone: nothing is assigned at its name or below it, where no top-level
/// name of the edited document holds a dot or stands twice.
pub proof fn law_equal_fields_are_left_alone(
    original: DocumentModel,
    edited: DocumentModel,
    j: int,
    i: int,
)
    requires
        plain_doc(edited),
        0 <= j < edited.len(),
        lookup(original, edited[j].key) == Some(edited[j].value),
        0 <= i < set_fields(original, edited).len(),
    ensures
        !at_or_below(set_fields(original, edited)[i].key, edited[j].key),
{
    lemma_set_fields_are_changes(original, edited, edited.len());
    let e = set_fields(original, edited)[i].key;
    if at_or_below(e, edited[j].key) {
        lemma_top_changes_source(original, edited, edited.len(), i);
        let m = choose|m: int|
            0 <= m < edited.len() && lookup(original, (#[trigger] edited[m]).key) != Some(
                edited[m].value,
            ) && at_or_below(e, edited[m].key);
        assert(Seq::<char>::empty() + edited[j].key =~= edited[j].key);
        assert(Seq::<char>::empty() + edited[m].key =~= edited[m].key);
        lemma_one_name(Seq::empty(), edited[j].key, edited[m].key, e);
        if m < j {
            assert(edited[m].key != edited[j].key);
        } else if j < m {
            assert(edited[j].key != edited[m].key);
        }
    }
}

/// Assigns `value` at the field path `path` of `d`.
pub fn assign_path(d: &mut Document, path: &str, value: Value)
    ensures
        final(d)@ == assign(old(d)@, path@, value@),
    decreases path@.len(),
{
    let chars = to_chars(path);
    let n = chars.len();
    let mut i: usize = 0;
    while i < n && chars[i] != '.'
        invariant
            0 <= i <= n,
            n == chars.len(),
            next_separator(chars@, '.', i as int) == next_separator(chars@, '.', 0),
        decreases n - i,
    {
        i += 1;
    }
    if i < n {
        let head = path.substring_char(0, i);
        let rest = path.substring_char(i + 1, n);
        let mut child = match d.get(head) {
            Some(Value::Document(x)) => {
                proof {
                    lemma_document_view(*x);
                }
                x.clone()
            },
            _ => Document::new(),
        };
        assign_path(&mut child, rest, value);
        proof {
            lemma_document_view(child);
        }
        d.insert(head.to_owned(), Value::Document(child));
    } else {
        d.insert(path.to_owned(), value);
    }
}

/// The document that comes of `original` once the fields of `set` are
/// assigned, one after the other, and the names of `unset` are then removed.
pub fn apply_difference(original: &Document, set: &Document, unset: &Document) -> (r: Document)
    ensures
        r@ == patched_document(original@, set@, unset@),
{
    let mut d = original.clone();
    let mut i: usize = 0;
    while i < set.fields.len()
        invariant
            0 <= i <= set.fields.len(),
            d@ == assign_all(original@, set@, i as nat),
        decreases set.fields.len() - i,
    {
        proof {
            assert(set@[i as int] == set.fields@[i as int]@);
        }
        assign_path(&mut d, set.fields[i].key.as_str(), set.fields[i].value.clone());
        i += 1;
    }
    let ghost applied = d@;
    let mut j: usize = 0;
    while j < unset.fields.len()
        invariant
            0 <= j <= unset.fields.len(),
            d@ == remove_all(applied, unset@, j as nat),
        decreases unset.fields.len() - j,
    {
        proof {
            assert(unset@[j as int] == unset.fields@[j as int]@);
        }
        d.remove(unset.fields[j].key.as_str());
        j += 1;
    }
    d
}

/// The document that an update makes of `original`.
pub fn apply_update(original: &Document, update: &Update) -> (r: Document)
    ensures
        r@ == patched_document(original@, update.set@, update.unset@),
{
    apply_difference(original, &update.set, &update.unset)
}

/// Whether two values are alike: the same value, or two documents that hold
/// the same names with like values, in whatever order.
pub fn same_fields(a: &Value, b: &Value) -> (r: bool)
    ensures
        r == alike(a@, b@),
    decreases b,
{
    match b {
        Value::Document(y) => match a {
            Value::Document(x) => {
                proof {
                    lemma_document_view(*x);
                    lemma_document_view(*y);
                }
                let mut j: usize = 0;
                while j < y.fields.len()
                    invariant
                        0 <= j <= y.fields.len(),
                        decreases_to!(*b => y.fields),
                        a@ == ValueModel::Document(x@),
                        b@ == ValueModel::Document(y@),
                        forall|m: int|
                            0 <= m < j ==> match lookup(x@, (#[trigger] y@[m]).key) {
                                Some(w) => alike(w, y@[m].value),
                                None => false,
                            },
                    decreases y.fields.len() - j,
                {
                    proof {
                        assert(decreases_to!(y.fields => y.fields[j as int]));
                        assert(y@[j as int] == y.fields@[j as int]@);
                    }
                    let like = match x.get(y.fields[j].key.as_str()) {
                        Some(w) => same_fields(w, &y.fields[j].value),
                        None => false,
                    };
                    if !like {
                        proof {
                            assert(!alike_docs(x@, y@)) by {
                                assert(0 <= j < y@.len());
                                assert(match lookup(x@, y@[j as int].key) {
                                    Some(w) => !alike(w, y@[j as int].value),
                                    None => true,
                                });
                            }
                        }
                        return false;
                    }
                    j += 1;
                }
                let mut i: usize = 0;
                while i < x.fields.len()
                    invariant
                        0 <= i <= x.fields.len(),
                        a@ == ValueModel::Document(x@),
                        b@ == ValueModel::Document(y@),
                        forall|m: int|
                            0 <= m < y@.len() ==> match lookup(x@, (#[trigger] y@[m]).key) {
                                Some(w) => alike(w, y@[m].value),
                                None => false,
                            },
                        forall|m: int| 0 <= m < i ==> has_key(y@, (#[trigger] x@[m]).key),
                    decreases x.fields.len() - i,
                {
                    proof {
                        assert(x@[i as int] == x.fields@[i as int]@);
                    }
                    if !y.contains_key(x.fields[i].key.as_str()) {
                        proof {
                            assert(!alike_docs(x@, y@)) by {
                                assert(!has_key(y@, x@[i as int].key));
                            }
                        }
                        return false;
                    }
                    i += 1;
                }
                true
            },
            _ => false,
        },
        _ => a.same(b),
    }
}

} // verus!
