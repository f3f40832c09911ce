//! What holds of the difference between two documents, whatever they are.

use vstd::prelude::*;
use crate::diff::{
    at_or_below, dotted, id_key, no_dot, patch_at, patch_children, removed_marker, set_fields,
    set_prefix, unset_fields, unset_prefix,
};
use crate::document::{
    distinct_keys, has_key, key_position, lemma_key_position, lemma_lookup_own_field, lookup, put,
    DocumentModel, FieldModel, ValueModel,
};

verus! {

/// A document has every name that one of its fields carries.
pub proof fn lemma_has_own_key(d: DocumentModel, i: int)
    requires
        0 <= i < d.len(),
    ensures
        has_key(d, d[i].key),
{
    lemma_key_position(d, d[i].key, 0);
}

/// Setting a name in the empty document gives the document of that one field.
pub proof fn lemma_put_in_empty(key: Seq<char>, v: ValueModel)
    ensures
        put(Seq::empty(), key, v) == seq![FieldModel { key, value: v }],
{
    assert(put(Seq::empty(), key, v) =~= seq![FieldModel { key, value: v }]);
}

proof fn lemma_set_prefix_of_equal(d: DocumentModel, n: nat)
    requires
        distinct_keys(d),
        n <= d.len(),
    ensures
        set_prefix(d, d, n) == Seq::<FieldModel>::empty(),
        unset_prefix(d, d, n) == Seq::<FieldModel>::empty(),
    decreases n,
{
    if n > 0 {
        lemma_set_prefix_of_equal(d, (n - 1) as nat);
        lemma_lookup_own_field(d, n - 1);
    }
}

/// A document does not differ from itself: nothing is assigned and nothing
/// is removed.
pub proof fn law_no_difference(d: DocumentModel)
    requires
        distinct_keys(d),
    ensures
        set_fields(d, d) == Seq::<FieldModel>::empty(),
        unset_fields(d, d) == Seq::<FieldModel>::empty(),
{
    lemma_set_prefix_of_equal(d, d.len());
}

/// `d` with the value of its field `i` replaced by `v`.
pub open spec fn with_value(d: DocumentModel, i: int, v: ValueModel) -> DocumentModel {
    d.update(i, FieldModel { key: d[i].key, value: v })
}

proof fn lemma_single_change(d: DocumentModel, i: int, v: ValueModel, n: nat)
    requires
        distinct_keys(d),
        0 <= i < d.len(),
        d[i].key != id_key(),
        v != d[i].value,
        !(v is Document && d[i].value is Document),
        n <= d.len(),
    ensures
        set_prefix(d, with_value(d, i, v), n) == if n <= i {
            Seq::<FieldModel>::empty()
        } else {
            seq![FieldModel { key: d[i].key, value: v }]
        },
        unset_prefix(d, with_value(d, i, v), n) == Seq::<FieldModel>::empty(),
    decreases n,
{
    if n > 0 {
        let e = with_value(d, i, v);
        lemma_single_change(d, i, v, (n - 1) as nat);
        lemma_lookup_own_field(d, n - 1);
        assert(e[n - 1].key == d[n - 1].key);
        lemma_has_own_key(e, n - 1);
        if n - 1 == i {
            lemma_put_in_empty(d[i].key, v);
        }
    }
}

/// Where one field other than the identifier gets another value, and the old
/// and the new value are not both documents, that field is assigned its new
/// value whole and nothing else is assigned or removed.
pub proof fn law_single_field_change(d: DocumentModel, i: int, v: ValueModel)
    requires
        distinct_keys(d),
        0 <= i < d.len(),
        d[i].key != id_key(),
        v != d[i].value,
        !(v is Document && d[i].value is Document),
    ensures
        set_fields(d, with_value(d, i, v)) == seq![FieldModel { key: d[i].key, value: v }],
        unset_fields(d, with_value(d, i, v)) == Seq::<FieldModel>::empty(),
{
    lemma_single_change(d, i, v, d.len());
}

/// Where an array field gets another array, the field is assigned the new
/// array whole, under its own name.
pub proof fn law_array_replaced_whole(
    d: DocumentModel,
    i: int,
    old_items: Seq<ValueModel>,
    new_items: Seq<ValueModel>,
)
    requires
        distinct_keys(d),
        0 <= i < d.len(),
        d[i].key != id_key(),
        d[i].value == ValueModel::Array(old_items),
        old_items != new_items,
    ensures
        set_fields(d, with_value(d, i, ValueModel::Array(new_items))) == seq![
            FieldModel { key: d[i].key, value: ValueModel::Array(new_items) },
        ],
        unset_fields(d, with_value(d, i, ValueModel::Array(new_items))) == Seq::<
            FieldModel,
        >::empty(),
{
    law_single_field_change(d, i, ValueModel::Array(new_items));
}

proof fn lemma_removed_field(d: DocumentModel, i: int, n: nat)
    requires
        distinct_keys(d),
        0 <= i < d.len(),
        d[i].key != id_key(),
    ensures
        n <= d.len() - 1 ==> set_prefix(d, d.remove(i), n) == Seq::<FieldModel>::empty(),
        n <= d.len() ==> unset_prefix(d, d.remove(i), n) == if n <= i {
            Seq::<FieldModel>::empty()
        } else {
            seq![FieldModel { key: d[i].key, value: removed_marker() }]
        },
    decreases n,
{
    let e = d.remove(i);
    if n > 0 {
        lemma_removed_field(d, i, (n - 1) as nat);
        if n <= d.len() - 1 {
            let j: int = if n - 1 < i {
                n - 1
            } else {
                n as int
            };
            assert(e[n - 1] == d[j]);
            lemma_lookup_own_field(d, j);
        }
        if n <= d.len() {
            if n - 1 == i {
                lemma_key_position(e, d[i].key, 0);
                let p = key_position(e, d[i].key, 0);
                if p < e.len() {
                    let q: int = if p < i {
                        p
                    } else {
                        p + 1
                    };
                    assert(e[p] == d[q]);
                    if q < i {
                        assert(d[q].key != d[i].key);
                    } else {
                        assert(d[i].key != d[q].key);
                    }
                }
                lemma_put_in_empty(d[i].key, removed_marker());
            } else {
                let j: int = if n - 1 < i {
                    n - 1
                } else {
                    n - 2
                };
                assert(e[j] == d[n - 1]);
                lemma_has_own_key(e, j);
            }
        }
    }
}

/// Where one field other than the identifier is taken out, that field is
/// removed, with the marker as its value, and nothing is assigned.
pub proof fn law_field_removed(d: DocumentModel, i: int)
    requires
        distinct_keys(d),
        0 <= i < d.len(),
        d[i].key != id_key(),
    ensures
        set_fields(d, d.remove(i)) == Seq::<FieldModel>::empty(),
        unset_fields(d, d.remove(i)) == seq![
            FieldModel { key: d[i].key, value: removed_marker() },
        ],
{
    lemma_removed_field(d, i, (d.len() - 1) as nat);
    lemma_removed_field(d, i, d.len());
}

proof fn lemma_children_with_one_added(
    path: Seq<char>,
    inner: DocumentModel,
    ck: Seq<char>,
    cv: ValueModel,
    n: nat,
)
    requires
        distinct_keys(inner),
        !has_key(inner, ck),
        n <= inner.len() + 1,
    ensures
        patch_children(
            path,
            inner,
            inner.push(FieldModel { key: ck, value: cv }),
            n,
            Seq::empty(),
        ) == if n <= inner.len() {
            Seq::<FieldModel>::empty()
        } else {
            seq![FieldModel { key: dotted(path, ck), value: cv }]
        },
    decreases n,
{
    if n > 0 {
        lemma_children_with_one_added(path, inner, ck, cv, (n - 1) as nat);
        let grown = inner.push(FieldModel { key: ck, value: cv });
        let before = patch_children(path, inner, grown, (n - 1) as nat, Seq::empty());
        let child = grown[n - 1];
        if n <= inner.len() {
            lemma_lookup_own_field(inner, n - 1);
            assert(patch_at(dotted(path, child.key), child.value, child.value, before) == before);
        } else {
            lemma_put_in_empty(dotted(path, ck), cv);
        }
    }
}

proof fn lemma_nested_added(
    d: DocumentModel,
    i: int,
    inner: DocumentModel,
    ck: Seq<char>,
    cv: ValueModel,
    n: nat,
)
    requires
        distinct_keys(d),
        0 <= i < d.len(),
        d[i].key != id_key(),
        d[i].value == ValueModel::Document(inner),
        distinct_keys(inner),
        !has_key(inner, ck),
        n <= d.len(),
    ensures
        set_prefix(
            d,
            with_value(
                d,
                i,
                ValueModel::Document(inner.push(FieldModel { key: ck, value: cv })),
            ),
            n,
        ) == if n <= i {
            Seq::<FieldModel>::empty()
        } else {
            seq![FieldModel { key: dotted(d[i].key, ck), value: cv }]
        },
        unset_prefix(
            d,
            with_value(
                d,
                i,
                ValueModel::Document(inner.push(FieldModel { key: ck, value: cv })),
            ),
            n,
        ) == Seq::<FieldModel>::empty(),
    decreases n,
{
    if n > 0 {
        let grown = inner.push(FieldModel { key: ck, value: cv });
        let e = with_value(d, i, ValueModel::Document(grown));
        lemma_nested_added(d, i, inner, ck, cv, (n - 1) as nat);
        lemma_lookup_own_field(d, n - 1);
        assert(e[n - 1].key == d[n - 1].key);
        lemma_has_own_key(e, n - 1);
        if n - 1 == i {
            assert(grown.len() != inner.len());
            lemma_children_with_one_added(d[i].key, inner, ck, cv, grown.len());
        }
    }
}

/// Where a nested document gains one field, that field alone is assigned, at
/// its dotted path below the name of the nested document; the nested document
/// is not assigned whole, and nothing is removed.
pub proof fn law_nested_field_added(
    d: DocumentModel,
    i: int,
    inner: DocumentModel,
    ck: Seq<char>,
    cv: ValueModel,
)
    requires
        distinct_keys(d),
        0 <= i < d.len(),
        d[i].key != id_key(),
        d[i].value == ValueModel::Document(inner),
        distinct_keys(inner),
        !has_key(inner, ck),
    ensures
        set_fields(
            d,
            with_value(
                d,
                i,
                ValueModel::Document(inner.push(FieldModel { key: ck, value: cv })),
            ),
        ) == seq![FieldModel { key: dotted(d[i].key, ck), value: cv }],
        unset_fields(
            d,
            with_value(
                d,
                i,
                ValueModel::Document(inner.push(FieldModel { key: ck, value: cv })),
            ),
        ) == Seq::<FieldModel>::empty(),
{
    lemma_nested_added(d, i, inner, ck, cv, d.len());
}

/// What setting a name does to the names and the values of a document.
pub proof fn lemma_put_lookup(d: DocumentModel, key: Seq<char>, v: ValueModel, x: Seq<char>)
    ensures
        lookup(put(d, key, v), x) == if x == key {
            Some(v)
        } else {
            lookup(d, x)
        },
{
    lemma_key_position(d, key, 0);
    lemma_key_position(d, x, 0);
    let r = put(d, key, v);
    lemma_key_position(r, x, 0);
    let p = key_position(d, key, 0);
    let q = key_position(d, x, 0);
    let qr = key_position(r, x, 0);
    if x == key {
        if qr < p {
            assert(d[qr].key == r[qr].key);
        }
        assert(qr == p);
    } else {
        if q < d.len() {
            assert(r[q].key == x);
            if qr < q {
                assert(d[qr].key == r[qr].key);
            }
            assert(qr == q);
        } else {
            if qr < r.len() {
                if qr < d.len() && qr != p {
                    assert(d[qr].key == x);
                }
            }
            assert(qr == r.len());
        }
    }
}

/// What is removed for the name `x` after the first `n` fields of `original`.
pub open spec fn removed(
    original: DocumentModel,
    edited: DocumentModel,
    n: nat,
    x: Seq<char>,
) -> bool {
    key_position(original, x, 0) < n && x != id_key() && !has_key(edited, x)
}

pub proof fn lemma_removed(original: DocumentModel, edited: DocumentModel, n: nat, x: Seq<char>)
    requires
        distinct_keys(original),
        n <= original.len(),
    ensures
        has_key(unset_prefix(original, edited, n), x) == removed(original, edited, n, x),
    decreases n,
{
    lemma_key_position(original, x, 0);
    if n > 0 {
        lemma_removed(original, edited, (n - 1) as nat, x);
        let before = unset_prefix(original, edited, (n - 1) as nat);
        let f = original[n - 1];
        lemma_lookup_own_field(original, n - 1);
        lemma_put_lookup(before, f.key, removed_marker(), x);
        lemma_key_position(before, x, 0);
        lemma_key_position(put(before, f.key, removed_marker()), x, 0);
    } else {
        lemma_key_position(Seq::<FieldModel>::empty(), x, 0);
    }
}

/// Whether the field path `e` is a top-level name of `edited` other than the
/// identifier's, or lies below one.
pub open spec fn rooted(e: Seq<char>, edited: DocumentModel) -> bool {
    exists|j: int|
        0 <= j < edited.len() && (#[trigger] edited[j]).key != id_key() && at_or_below(
            e,
            edited[j].key,
        )
}

/// Whether every field path of `d` is rooted in `edited`.
pub open spec fn all_rooted(d: DocumentModel, edited: DocumentModel) -> bool {
    forall|i: int| 0 <= i < d.len() ==> rooted((#[trigger] d[i]).key, edited)
}

/// Whether `k` is a name of `original`, other than the identifier's, that
/// `edited` lacks.
pub open spec fn lost(k: Seq<char>, original: DocumentModel, edited: DocumentModel) -> bool {
    has_key(original, k) && !has_key(edited, k) && k != id_key()
}

/// What lies one step below a path that is at or below `root` lies below
/// `root`.
pub proof fn lemma_dotted_stays_below(path: Seq<char>, c: Seq<char>, root: Seq<char>)
    requires
        at_or_below(path, root),
    ensures
        at_or_below(dotted(path, c), root),
{
    let e = dotted(path, c);
    assert(e.subrange(0, root.len() as int) =~= path.subrange(0, root.len() as int));
    if path == root {
        assert(path.subrange(0, root.len() as int) =~= root);
        assert(e[root.len() as int] == '.');
    } else {
        assert(e[root.len() as int] == path[root.len() as int]);
    }
}

proof fn lemma_put_keeps_rooted(d: DocumentModel, key: Seq<char>, v: ValueModel, edited: DocumentModel)
    requires
        all_rooted(d, edited),
        rooted(key, edited),
    ensures
        all_rooted(put(d, key, v), edited),
{
    lemma_key_position(d, key, 0);
    let r = put(d, key, v);
    assert forall|i: int| 0 <= i < r.len() implies rooted((#[trigger] r[i]).key, edited) by {
        if i < d.len() && i != key_position(d, key, 0) {
            assert(r[i] == d[i]);
        }
    }
}

proof fn lemma_child_is_rooted(path: Seq<char>, c: Seq<char>, edited: DocumentModel)
    requires
        rooted(path, edited),
    ensures
        rooted(dotted(path, c), edited),
{
    let j = choose|j: int|
        0 <= j < edited.len() && (#[trigger] edited[j]).key != id_key() && at_or_below(
            path,
            edited[j].key,
        );
    lemma_dotted_stays_below(path, c, edited[j].key);
}

proof fn lemma_patch_at_rooted(
    path: Seq<char>,
    old_v: ValueModel,
    new_v: ValueModel,
    acc: DocumentModel,
    edited: DocumentModel,
)
    requires
        all_rooted(acc, edited),
        rooted(path, edited),
    ensures
        all_rooted(patch_at(path, old_v, new_v, acc), edited),
    decreases new_v, 0nat,
{
    if old_v != new_v {
        lemma_put_keeps_rooted(acc, path, new_v, edited);
        match new_v {
            ValueModel::Document(nd) => match old_v {
                ValueModel::Document(od) => {
                    lemma_patch_children_rooted(path, od, nd, nd.len(), acc, edited);
                },
                _ => {},
            },
            _ => {},
        }
    }
}

proof fn lemma_patch_children_rooted(
    path: Seq<char>,
    od: DocumentModel,
    nd: DocumentModel,
    n: nat,
    acc: DocumentModel,
    edited: DocumentModel,
)
    requires
        all_rooted(acc, edited),
        rooted(path, edited),
    ensures
        all_rooted(patch_children(path, od, nd, n, acc), edited),
    decreases nd, n,
{
    if !(n == 0 || n > nd.len()) {
        lemma_patch_children_rooted(path, od, nd, (n - 1) as nat, acc, edited);
        let before = patch_children(path, od, nd, (n - 1) as nat, acc);
        let child = nd[n - 1];
        let here = dotted(path, child.key);
        lemma_child_is_rooted(path, child.key, edited);
        match lookup(od, child.key) {
            Some(ov) => {
                lemma_patch_at_rooted(here, ov, child.value, before, edited);
            },
            None => {
                lemma_put_keeps_rooted(before, here, child.value, edited);
            },
        }
    }
}

proof fn lemma_set_prefix_rooted(original: DocumentModel, edited: DocumentModel, n: nat)
    ensures
        all_rooted(set_prefix(original, edited, n), edited),
    decreases n,
{
    if !(n == 0 || n > edited.len()) {
        lemma_set_prefix_rooted(original, edited, (n - 1) as nat);
        let before = set_prefix(original, edited, (n - 1) as nat);
        let f = edited[n - 1];
        if f.key != id_key() {
            assert(rooted(f.key, edited)) by {
                assert(edited[n - 1].key != id_key() && at_or_below(f.key, edited[n - 1].key));
            }
            match lookup(original, f.key) {
                Some(ov) => {
                    lemma_patch_at_rooted(f.key, ov, f.value, before, edited);
                },
                None => {
                    lemma_put_keeps_rooted(before, f.key, f.value, edited);
                },
            }
        }
    }
}

proof fn lemma_unset_prefix_lost(original: DocumentModel, edited: DocumentModel, n: nat)
    ensures
        forall|i: int|
            0 <= i < unset_prefix(original, edited, n).len() ==> lost(
                (#[trigger] unset_prefix(original, edited, n)[i]).key,
                original,
                edited,
            ),
    decreases n,
{
    if !(n == 0 || n > original.len()) {
        lemma_unset_prefix_lost(original, edited, (n - 1) as nat);
        let before = unset_prefix(original, edited, (n - 1) as nat);
        let f = original[n - 1];
        if !(f.key == id_key() || has_key(edited, f.key)) {
            lemma_has_own_key(original, n - 1);
            lemma_key_position(before, f.key, 0);
            let r = put(before, f.key, removed_marker());
            assert forall|i: int| 0 <= i < r.len() implies lost(
                (#[trigger] r[i]).key,
                original,
                edited,
            ) by {
                if i < before.len() && i != key_position(before, f.key, 0) {
                    assert(r[i] == before[i]);
                }
            }
        }
    }
}

/// Every field path that is assigned is a top-level name of the edited
/// document, other than the identifier's, or lies below one, whatever the
/// two documents are.
pub proof fn law_assigned_paths_are_rooted(original: DocumentModel, edited: DocumentModel, i: int)
    requires
        0 <= i < set_fields(original, edited).len(),
    ensures
        rooted(set_fields(original, edited)[i].key, edited),
{
    lemma_set_prefix_rooted(original, edited, edited.len());
}

/// Every name that is removed is a top-level name of the original, other
/// than the identifier's, that the edited document lacks, whatever the two
/// documents are.
pub proof fn law_removed_names_are_lost(original: DocumentModel, edited: DocumentModel, i: int)
    requires
        0 <= i < unset_fields(original, edited).len(),
    ensures
        lost(unset_fields(original, edited)[i].key, original, edited),
{
    lemma_unset_prefix_lost(original, edited, original.len());
}

/// No field path is both assigned and removed, where no top-level name of the
/// original holds a dot.
pub proof fn law_assigned_and_removed_are_apart(
    original: DocumentModel,
    edited: DocumentModel,
    x: Seq<char>,
)
    requires
        forall|i: int| 0 <= i < original.len() ==> no_dot((#[trigger] original[i]).key),
    ensures
        !(has_key(set_fields(original, edited), x) && has_key(
            unset_fields(original, edited),
            x,
        )),
{
    let set = set_fields(original, edited);
    let unset = unset_fields(original, edited);
    if has_key(set, x) && has_key(unset, x) {
        lemma_key_position(set, x, 0);
        lemma_key_position(unset, x, 0);
        lemma_key_position(original, x, 0);
        let q = key_position(set, x, 0);
        let u = key_position(unset, x, 0);
        let p = key_position(original, x, 0);
        law_assigned_paths_are_rooted(original, edited, q);
        law_removed_names_are_lost(original, edited, u);
        assert(set[q].key == x && unset[u].key == x);
        let j = choose|j: int|
            0 <= j < edited.len() && (#[trigger] edited[j]).key != id_key() && at_or_below(
                x,
                edited[j].key,
            );
        if x == edited[j].key {
            lemma_has_own_key(edited, j);
        } else {
            assert(original[p].key == x);
            assert(no_dot(original[p].key));
        }
    }
}

} // verus!
