use mongodbtui::diff::{
    apply_edited_document, apply_edited_json, diff_docs_deep, diff_value, dotted_path,
    field_updates, EditError,
};
use mongodbtui::document::{Document, Field, ObjectId, Value};

fn doc(fields: Vec<(&str, Value)>) -> Document {
    let mut d = Document::new();
    for (k, v) in fields {
        d.insert(k.to_string(), v);
    }
    d
}

fn oid(n: u128) -> Value {
    Value::ObjectId(ObjectId { value: n })
}

fn text(s: &str) -> Value {
    Value::String(s.to_string())
}

fn sample() -> Document {
    doc(vec![
        ("_id", oid(1)),
        ("a", Value::Int32(1)),
        ("b", Value::Document(doc(vec![("c", Value::Int32(2))]))),
        ("tags", Value::Array(vec![text("x"), text("y")])),
    ])
}

#[test]
fn document_insert_replaces_in_place() {
    let mut d = doc(vec![("a", Value::Int32(1)), ("b", Value::Int32(2))]);
    d.insert("a".to_string(), Value::Int32(3));
    assert_eq!(d.len(), 2);
    assert_eq!(d.fields[0].key, "a");
    assert_eq!(d.get("a"), Some(&Value::Int32(3)));
    assert_eq!(d.get("b"), Some(&Value::Int32(2)));
    assert_eq!(d.get("c"), None);
    assert!(d.contains_key("b"));
    assert!(!d.contains_key("B"));
    assert_eq!(d.position("b"), 1);
    assert_eq!(d.position("zz"), 2);
    d.remove("a");
    assert_eq!(d, doc(vec![("b", Value::Int32(2))]));
    d.remove("nope");
    assert_eq!(d.len(), 1);
    assert!(!d.is_empty());
    assert!(Document::new().is_empty());
}

#[test]
fn values_are_equal_leaf_by_leaf() {
    assert!(Value::Null.same(&Value::Null));
    assert!(!Value::Null.same(&Value::Boolean(false)));
    assert!(!Value::Int32(1).same(&Value::Int64(1)));
    assert!(Value::Double(0x7ff8_0000_0000_0000).same(&Value::Double(0x7ff8_0000_0000_0000)));
    assert!(!Value::Double(0).same(&Value::Double(0x8000_0000_0000_0000)));
    assert!(text("a").same(&text("a")));
    assert!(!text("a").same(&text("b")));
    let r1 = Value::Regex { pattern: "^a".to_string(), options: "i".to_string() };
    let r2 = Value::Regex { pattern: "^a".to_string(), options: "".to_string() };
    assert!(r1.same(&r1.clone()));
    assert!(!r1.same(&r2));
    let a1 = Value::Array(vec![Value::Int32(1), text("x")]);
    let a2 = Value::Array(vec![text("x"), Value::Int32(1)]);
    assert!(a1.same(&a1.clone()));
    assert!(!a1.same(&a2));
    assert!(!a1.same(&Value::Array(vec![Value::Int32(1)])));
    let d1 = Value::Document(doc(vec![("a", Value::Int32(1)), ("b", Value::Int32(2))]));
    let d2 = Value::Document(doc(vec![("b", Value::Int32(2)), ("a", Value::Int32(1))]));
    assert!(d1.same(&d1.clone()));
    assert!(!d1.same(&d2));
    let o1 = Value::Other { kind: 5, bytes: vec![1, 2, 3] };
    assert!(o1.same(&o1.clone()));
    assert!(!o1.same(&Value::Other { kind: 5, bytes: vec![1, 2] }));
    assert!(!o1.same(&Value::Other { kind: 6, bytes: vec![1, 2, 3] }));
    assert!(Value::DateTime(5).same(&Value::DateTime(5)));
    assert!(!oid(1).same(&oid(2)));
    assert_eq!(sample().get_object_id("_id"), Some(ObjectId { value: 1 }));
    assert_eq!(sample().get_object_id("a"), None);
    assert_eq!(sample().get_object_id("zz"), None);
}

#[test]
fn a_document_does_not_differ_from_itself() {
    let d = sample();
    let (set, unset) = diff_docs_deep(&d, &d.clone());
    assert!(set.is_empty());
    assert!(unset.is_empty());
}

#[test]
fn one_changed_field_is_set_whole() {
    let d = sample();
    let mut e = sample();
    e.insert("a".to_string(), text("one"));
    let (set, unset) = diff_docs_deep(&d, &e);
    assert_eq!(set, doc(vec![("a", text("one"))]));
    assert!(unset.is_empty());
}

#[test]
fn a_removed_field_is_unset_with_the_marker() {
    let d = sample();
    let mut e = sample();
    e.remove("a");
    let (set, unset) = diff_docs_deep(&d, &e);
    assert!(set.is_empty());
    assert_eq!(unset, doc(vec![("a", text(""))]));
}

#[test]
fn a_nested_addition_is_set_at_its_dotted_path() {
    let d = sample();
    let mut e = sample();
    e.insert(
        "b".to_string(),
        Value::Document(doc(vec![("c", Value::Int32(2)), ("n", Value::Boolean(true))])),
    );
    let (set, unset) = diff_docs_deep(&d, &e);
    assert_eq!(set, doc(vec![("b.n", Value::Boolean(true))]));
    assert!(unset.is_empty());
}

#[test]
fn a_changed_array_is_set_whole() {
    let d = sample();
    let mut e = sample();
    e.insert("tags".to_string(), Value::Array(vec![text("x"), text("z")]));
    let (set, unset) = diff_docs_deep(&d, &e);
    assert_eq!(set, doc(vec![("tags", Value::Array(vec![text("x"), text("z")]))]));
    assert!(unset.is_empty());
}

#[test]
fn a_document_replaced_by_a_leaf_is_set_whole() {
    let d = sample();
    let mut e = sample();
    e.insert("b".to_string(), Value::Null);
    let (set, _) = diff_docs_deep(&d, &e);
    assert_eq!(set, doc(vec![("b", Value::Null)]));
}

#[test]
fn nested_removal_is_not_attempted() {
    let d = doc(vec![("_id", oid(1)), ("b", Value::Document(doc(vec![("c", Value::Int32(2)), ("d", Value::Int32(3))])))]);
    let e = doc(vec![("_id", oid(1)), ("b", Value::Document(doc(vec![("c", Value::Int32(2))])))]);
    let (set, unset) = diff_docs_deep(&d, &e);
    assert!(set.is_empty());
    assert!(unset.is_empty());
}

#[test]
fn the_identifier_is_never_diffed() {
    let d = doc(vec![("_id", oid(1)), ("a", Value::Int32(1))]);
    let e = doc(vec![("_id", oid(2)), ("a", Value::Int32(1))]);
    let (set, unset) = diff_docs_deep(&d, &e);
    assert!(set.is_empty());
    assert!(unset.is_empty());
    let e2 = doc(vec![("a", Value::Int32(1))]);
    let (set, unset) = diff_docs_deep(&d, &e2);
    assert!(set.is_empty());
    assert!(unset.is_empty());
}

#[test]
fn editing_scenario_sets_nested_and_new_fields() {
    let original = doc(vec![
        ("_id", oid(0xabc)),
        ("a", Value::Int32(1)),
        ("b", Value::Document(doc(vec![("c", Value::Int32(2))]))),
    ]);
    let edited = doc(vec![
        ("_id", oid(0xabc)),
        ("a", Value::Int32(1)),
        ("b", Value::Document(doc(vec![("c", Value::Int32(3))]))),
        ("d", Value::Int32(4)),
    ]);
    let (set, unset) = diff_docs_deep(&original, &edited);
    assert_eq!(set, doc(vec![("b.c", Value::Int32(3)), ("d", Value::Int32(4))]));
    assert_eq!(unset, Document::new());
    match apply_edited_document(&original, &edited) {
        Ok(Some(update)) => {
            assert_eq!(update.id, ObjectId { value: 0xabc });
            assert_eq!(update.set, doc(vec![("b.c", Value::Int32(3)), ("d", Value::Int32(4))]));
            assert!(update.unset.is_empty());
        }
        other => panic!("unexpected {:?}", other),
    }
}

#[test]
fn diff_value_builds_on_what_is_set_already() {
    let mut set = doc(vec![("x", Value::Int32(0))]);
    diff_value("", "k", &Value::Int32(1), &Value::Int32(1), &mut set);
    assert_eq!(set, doc(vec![("x", Value::Int32(0))]));
    diff_value("p", "k", &Value::Int32(1), &Value::Int32(2), &mut set);
    assert_eq!(set, doc(vec![("x", Value::Int32(0)), ("p.k", Value::Int32(2))]));
    diff_value("", "x", &Value::Int32(1), &Value::Int32(5), &mut set);
    assert_eq!(set, doc(vec![("x", Value::Int32(5)), ("p.k", Value::Int32(2))]));
    let old = Value::Document(doc(vec![("c", Value::Int32(1))]));
    let new = Value::Document(doc(vec![("c", Value::Int32(2)), ("d", Value::Null)]));
    let mut below = Document::new();
    diff_value("", "", &old, &new, &mut below);
    assert_eq!(below, doc(vec![(".c", Value::Int32(2)), (".d", Value::Null)]));
    let mut nested = Document::new();
    diff_value("a", "b", &old, &new, &mut nested);
    assert_eq!(nested, doc(vec![("a.b.c", Value::Int32(2)), ("a.b.d", Value::Null)]));
    assert_eq!(dotted_path("a.b", "c"), "a.b.c");
    assert_eq!(dotted_path("", "c"), ".c");
}

#[test]
fn deep_nesting_uses_the_whole_path() {
    let inner = |n: i32| Value::Document(doc(vec![("y", Value::Document(doc(vec![("z", Value::Int32(n))])))]));
    let d = doc(vec![("_id", oid(1)), ("x", inner(1))]);
    let e = doc(vec![("_id", oid(1)), ("x", inner(2))]);
    let (set, _) = diff_docs_deep(&d, &e);
    assert_eq!(set, doc(vec![("x.y.z", Value::Int32(2))]));
}

#[test]
fn an_edit_without_difference_sends_nothing() {
    let d = sample();
    assert!(matches!(apply_edited_document(&d, &d.clone()), Ok(None)));
}

#[test]
fn an_edit_is_refused_without_the_identifier() {
    let d = sample();
    let mut missing = sample();
    missing.remove("_id");
    assert!(matches!(apply_edited_document(&d, &missing), Err(EditError::MissingId)));
    let mut wrong_kind = sample();
    wrong_kind.insert("_id".to_string(), text("1"));
    assert!(matches!(apply_edited_document(&d, &wrong_kind), Err(EditError::IdNotObjectId)));
    let mut changed = sample();
    changed.insert("_id".to_string(), oid(2));
    assert!(matches!(apply_edited_document(&d, &changed), Err(EditError::IdChanged)));
    assert!(matches!(field_updates(&d, &changed), Err(EditError::IdChanged)));
    assert!(matches!(field_updates(&d, &missing), Err(EditError::MissingId)));
}

#[test]
fn edit_error_messages() {
    assert_eq!(EditError::MissingId.message(), "_id alanı yok");
    assert_eq!(EditError::IdNotObjectId.message(), "_id bir ObjectId olmalı");
    assert_eq!(EditError::IdChanged.message(), "_id değiştirilemez");
    assert_eq!(EditError::Parse("bad".to_string()).message(), "bad");
}

#[test]
fn an_edited_text_that_is_no_document_is_refused() {
    let d = sample();
    match apply_edited_json(&d, Err("expected value at line 1".to_string())) {
        Err(EditError::Parse(reason)) => assert_eq!(reason, "expected value at line 1"),
        other => panic!("unexpected {:?}", other),
    }
    let mut e = sample();
    e.insert("a".to_string(), Value::Int32(9));
    match apply_edited_json(&d, Ok(e)) {
        Ok(Some(update)) => assert_eq!(update.set, doc(vec![("a", Value::Int32(9))])),
        other => panic!("unexpected {:?}", other),
    }
}

#[test]
fn a_change_below_an_empty_name_stands_at_a_dotted_path() {
    let d = doc(vec![("_id", oid(1)), ("", Value::Document(doc(vec![("_id", Value::Int32(4))])))]);
    let e = doc(vec![("_id", oid(1)), ("", Value::Document(doc(vec![("_id", Value::Int32(5))])))]);
    let (set, unset) = diff_docs_deep(&d, &e);
    assert_eq!(set, doc(vec![("._id", Value::Int32(5))]));
    assert!(!set.contains_key("_id"));
    assert!(unset.is_empty());
    match apply_edited_document(&d, &e) {
        Ok(Some(update)) => assert_eq!(update.set, doc(vec![("._id", Value::Int32(5))])),
        other => panic!("unexpected {:?}", other),
    }
    let without_id = doc(vec![("", Value::Document(doc(vec![("_id", Value::Int32(1))])))]);
    let changed = doc(vec![("", Value::Document(doc(vec![("_id", Value::Int32(2))])))]);
    let (set, unset) = diff_docs_deep(&without_id, &changed);
    assert_eq!(set, doc(vec![("._id", Value::Int32(2))]));
    assert!(unset.is_empty());
}

#[test]
fn a_change_and_an_addition_below_an_empty_name_stand_side_by_side() {
    let d = doc(vec![("", Value::Document(doc(vec![("k", Value::Int32(1))]))), ("k", Value::Int32(5))]);
    let e = doc(vec![(
        "",
        Value::Document(doc(vec![("k", Value::Int32(2)), ("n", Value::Int32(3))])),
    )]);
    let (set, unset) = diff_docs_deep(&d, &e);
    assert_eq!(set, doc(vec![(".k", Value::Int32(2)), (".n", Value::Int32(3))]));
    assert_eq!(unset, doc(vec![("k", text(""))]));
    for f in &set.fields {
        assert!(!unset.contains_key(&f.key));
    }
    let deeper = |n: i32| {
        doc(vec![(
            "a",
            Value::Document(doc(vec![("", Value::Document(doc(vec![("c", Value::Int32(n))])))])),
        )])
    };
    let (set, _) = diff_docs_deep(&deeper(1), &deeper(2));
    assert_eq!(set, doc(vec![("a..c", Value::Int32(2))]));
}

#[test]
fn field_updates_list_each_changed_top_level_field() {
    let d = sample();
    let mut e = sample();
    e.insert("a".to_string(), Value::Int32(2));
    e.insert("b".to_string(), Value::Document(doc(vec![("c", Value::Int32(3))])));
    e.insert("new".to_string(), Value::Null);
    e.remove("tags");
    match field_updates(&d, &e) {
        Ok((id, fields)) => {
            assert_eq!(id, ObjectId { value: 1 });
            assert_eq!(fields.len(), 3);
            assert_eq!(fields[0].key, "a");
            assert_eq!(fields[0].value, Value::Int32(2));
            assert_eq!(fields[1].key, "b");
            assert_eq!(fields[1].value, Value::Document(doc(vec![("c", Value::Int32(3))])));
            assert_eq!(fields[2].key, "new");
            assert_eq!(fields[2].value, Value::Null);
        }
        Err(e) => panic!("unexpected {:?}", e),
    }
    match field_updates(&d, &d.clone()) {
        Ok((_, fields)) => assert!(fields.is_empty()),
        Err(e) => panic!("unexpected {:?}", e),
    }
    let f = Field { key: "k".to_string(), value: Value::Null };
    assert_eq!(f.clone().key, "k");
}
