use mongodbtui::diff::{apply_edited_document, diff_docs_deep};
use mongodbtui::document::{Document, ObjectId, Value};
use mongodbtui::patch::{apply_difference, apply_update, assign_path, same_fields};

fn doc(fields: Vec<(&str, Value)>) -> Document {
    let mut d = Document::new();
    for (k, v) in fields {
        d.insert(k.to_string(), v);
    }
    d
}

fn sub(fields: Vec<(&str, Value)>) -> Value {
    Value::Document(doc(fields))
}

fn oid(n: u128) -> Value {
    Value::ObjectId(ObjectId { value: n })
}

fn num(n: i32) -> Value {
    Value::Int32(n)
}

fn patched(original: &Document, edited: &Document) -> Document {
    let (set, unset) = diff_docs_deep(original, edited);
    apply_difference(original, &set, &unset)
}

fn alike(a: &Document, b: &Document) -> bool {
    same_fields(&Value::Document(a.clone()), &Value::Document(b.clone()))
}

#[test]
fn a_path_with_dots_names_a_nested_field() {
    let mut d = doc(vec![("a", num(1)), ("b", sub(vec![("c", num(2))]))]);
    assign_path(&mut d, "b.c", num(3));
    assert_eq!(d, doc(vec![("a", num(1)), ("b", sub(vec![("c", num(3))]))]));
    assign_path(&mut d, "b.d.e", num(4));
    assert_eq!(
        d,
        doc(vec![("a", num(1)), ("b", sub(vec![("c", num(3)), ("d", sub(vec![("e", num(4))]))]))])
    );
    assign_path(&mut d, "a.x", num(5));
    assert_eq!(d.get("a"), Some(&sub(vec![("x", num(5))])));
    assign_path(&mut d, "z", Value::Null);
    assert_eq!(d.get("z"), Some(&Value::Null));
    assert_eq!(d.len(), 3);
}

#[test]
fn values_are_alike_whatever_the_order_of_their_fields() {
    let a = sub(vec![("x", num(1)), ("y", sub(vec![("p", num(2)), ("q", num(3))]))]);
    let b = sub(vec![("y", sub(vec![("q", num(3)), ("p", num(2))])), ("x", num(1))]);
    assert!(same_fields(&a, &b));
    assert!(same_fields(&b, &a));
    assert!(!same_fields(&a, &sub(vec![("x", num(1))])));
    assert!(!same_fields(&sub(vec![("x", num(1))]), &a));
    assert!(!same_fields(&a, &sub(vec![("x", num(1)), ("y", sub(vec![("p", num(2)), ("q", num(4))]))])));
    assert!(!same_fields(&num(1), &a));
    assert!(!same_fields(&a, &num(1)));
    assert!(same_fields(&num(1), &num(1)));
    let l1 = Value::Array(vec![sub(vec![("x", num(1)), ("y", num(2))])]);
    let l2 = Value::Array(vec![sub(vec![("y", num(2)), ("x", num(1))])]);
    assert!(same_fields(&l1, &l1.clone()));
    assert!(!same_fields(&l1, &l2));
}

#[test]
fn the_difference_of_the_editing_scenario_gives_the_edited_document() {
    let original = doc(vec![("_id", oid(7)), ("a", num(1)), ("b", sub(vec![("c", num(2))]))]);
    let edited = doc(vec![
        ("_id", oid(7)),
        ("a", num(1)),
        ("b", sub(vec![("c", num(3))])),
        ("d", num(4)),
    ]);
    assert_eq!(patched(&original, &edited), edited);
    match apply_edited_document(&original, &edited) {
        Ok(Some(update)) => assert_eq!(apply_update(&original, &update), edited),
        other => panic!("unexpected {:?}", other),
    }
}

#[test]
fn the_difference_turns_the_original_into_the_edited_document() {
    let original = doc(vec![
        ("_id", oid(1)),
        ("name", Value::String("a".to_string())),
        ("gone", num(0)),
        ("tags", Value::Array(vec![num(1), num(2)])),
        ("deep", sub(vec![("x", num(1)), ("y", sub(vec![("z", num(2))])), ("w", Value::Null)])),
        ("kind", sub(vec![("a", num(1))])),
    ]);
    let edited = doc(vec![
        ("deep", sub(vec![
            ("w", Value::Null),
            ("y", sub(vec![("z", num(3)), ("new", sub(vec![("n", num(0))]))])),
            ("x", Value::Boolean(true)),
            ("v", num(9)),
        ])),
        ("_id", oid(1)),
        ("tags", Value::Array(vec![num(2)])),
        ("kind", num(5)),
        ("name", Value::String("a".to_string())),
        ("fresh", sub(vec![("k", num(1))])),
    ]);
    let (set, unset) = diff_docs_deep(&original, &edited);
    assert_eq!(
        set,
        doc(vec![
            ("deep.y.z", num(3)),
            ("deep.y.new", sub(vec![("n", num(0))])),
            ("deep.x", Value::Boolean(true)),
            ("deep.v", num(9)),
            ("tags", Value::Array(vec![num(2)])),
            ("kind", num(5)),
            ("fresh", sub(vec![("k", num(1))])),
        ])
    );
    assert_eq!(unset, doc(vec![("gone", Value::String(String::new()))]));
    let result = apply_difference(&original, &set, &unset);
    assert!(alike(&result, &edited));
    assert!(alike(&edited, &result));
    assert_eq!(result.len(), edited.len());
}

#[test]
fn a_name_lost_in_a_nested_document_stays() {
    let original = doc(vec![("_id", oid(1)), ("b", sub(vec![("c", num(2)), ("d", num(3))]))]);
    let edited = doc(vec![("_id", oid(1)), ("b", sub(vec![("c", num(2))]))]);
    let result = patched(&original, &edited);
    assert_eq!(result, original);
    assert!(!alike(&result, &edited));
}

#[test]
fn a_document_patched_with_no_difference_is_itself() {
    let d = doc(vec![("_id", oid(1)), ("b", sub(vec![("c", num(2))]))]);
    assert_eq!(patched(&d, &d.clone()), d);
}

#[test]
fn the_difference_below_an_empty_name_gives_the_edited_document() {
    let original = doc(vec![("_id", oid(1)), ("", sub(vec![("c", num(1))]))]);
    let edited = doc(vec![("_id", oid(1)), ("", sub(vec![("c", num(2)), ("d", sub(vec![("", num(3))]))]))]);
    let (set, unset) = diff_docs_deep(&original, &edited);
    assert_eq!(set, doc(vec![(".c", num(2)), (".d", sub(vec![("", num(3))]))]));
    assert!(unset.is_empty());
    let result = apply_difference(&original, &set, &unset);
    assert_eq!(result, edited);
    assert!(alike(&result, &edited));
    assert!(!result.contains_key("c"));
    let mut d = doc(vec![("", sub(vec![("c", num(1))]))]);
    assign_path(&mut d, ".c", num(2));
    assert_eq!(d, doc(vec![("", sub(vec![("c", num(2))]))]));
    assign_path(&mut d, "", num(7));
    assert_eq!(d, doc(vec![("", num(7))]));
}
