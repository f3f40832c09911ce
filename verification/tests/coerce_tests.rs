use mongodbtui::app::{AppMode, AppState, FocusArea, InputContext, Request};
use mongodbtui::coerce::{coerce_field_value, list_of, parse_object_id, parse_regex, Denoted};
use mongodbtui::document::{Document, ObjectId, Value};
use mongodbtui::events::handle_key_event;
use mongodbtui::intents::{Intent, Stage};
use mongodbtui::keys::{KeyCode, KeyEvent};

fn s(x: &str) -> String {
    x.to_string()
}

fn nothing() -> Denoted {
    Denoted { double: None, document: None }
}

fn text(x: &str) -> Value {
    Value::String(s(x))
}

#[test]
fn numbers_are_read_as_numbers() {
    assert_eq!(coerce_field_value(&Value::Int32(1), "42", nothing()), Value::Int32(42));
    assert_eq!(coerce_field_value(&Value::Int32(1), "-7", nothing()), Value::Int32(-7));
    assert_eq!(coerce_field_value(&Value::Int32(1), "+7", nothing()), Value::Int32(7));
    assert_eq!(coerce_field_value(&Value::Int32(1), "2147483648", nothing()), text("2147483648"));
    assert_eq!(coerce_field_value(&Value::Int32(1), " 4", nothing()), text(" 4"));
    assert_eq!(coerce_field_value(&Value::Int32(1), "4.5", nothing()), text("4.5"));
    assert_eq!(coerce_field_value(&Value::Int32(1), "", nothing()), text(""));
    assert_eq!(coerce_field_value(&Value::Int64(1), "2147483648", nothing()), Value::Int64(2147483648));
    assert_eq!(
        coerce_field_value(&Value::Int64(1), "-9223372036854775808", nothing()),
        Value::Int64(i64::MIN)
    );
    assert_eq!(
        coerce_field_value(&Value::Int64(1), "9223372036854775808", nothing()),
        text("9223372036854775808")
    );
    assert_eq!(coerce_field_value(&Value::Int64(1), "-", nothing()), text("-"));
}

#[test]
fn a_double_is_what_the_text_denotes() {
    let bits = 2.5f64.to_bits();
    assert_eq!(
        coerce_field_value(&Value::Double(0), "2.5", Denoted { double: Some(bits), document: None }),
        Value::Double(bits)
    );
    assert_eq!(coerce_field_value(&Value::Double(0), "two", nothing()), text("two"));
}

#[test]
fn truth_values_and_nothing_are_read_by_name() {
    assert_eq!(coerce_field_value(&Value::Boolean(false), "true", nothing()), Value::Boolean(true));
    assert_eq!(coerce_field_value(&Value::Boolean(true), "false", nothing()), Value::Boolean(false));
    assert_eq!(coerce_field_value(&Value::Boolean(true), "True", nothing()), text("True"));
    assert_eq!(coerce_field_value(&Value::Null, "null", nothing()), Value::Null);
    assert_eq!(coerce_field_value(&Value::Null, "x", nothing()), text("x"));
}

#[test]
fn identifiers_are_read_from_24_hexadecimal_digits() {
    assert_eq!(
        parse_object_id("0123456789abcdefABCDEF00"),
        Some(ObjectId { value: 0x0123456789abcdefABCDEF00 })
    );
    assert_eq!(
        parse_object_id("ffffffffffffffffffffffff"),
        Some(ObjectId { value: 0xffff_ffff_ffff_ffff_ffff_ffff })
    );
    assert_eq!(parse_object_id("000000000000000000000000"), Some(ObjectId { value: 0 }));
    assert_eq!(parse_object_id("0123456789abcdefABCDEF0"), None);
    assert_eq!(parse_object_id("0123456789abcdefABCDEF000"), None);
    assert_eq!(parse_object_id("0123456789abcdefABCDEFg0"), None);
    assert_eq!(parse_object_id(""), None);
    let old = Value::ObjectId(ObjectId { value: 1 });
    assert_eq!(
        coerce_field_value(&old, "00000000000000000000000a", nothing()),
        Value::ObjectId(ObjectId { value: 10 })
    );
    assert_eq!(coerce_field_value(&old, "nope", nothing()), text("nope"));
}

#[test]
fn a_list_is_cut_at_its_commas() {
    assert_eq!(list_of("a, b ,c"), vec![text("a"), text("b"), text("c")]);
    assert_eq!(list_of(""), vec![text("")]);
    assert_eq!(list_of("a,,"), vec![text("a"), text(""), text("")]);
    assert_eq!(
        coerce_field_value(&Value::Array(vec![Value::Int32(1)]), "x, y", nothing()),
        Value::Array(vec![text("x"), text("y")])
    );
}

#[test]
fn a_document_is_what_the_text_denotes() {
    let mut d = Document::new();
    d.insert(s("a"), Value::Int32(1));
    let old = Value::Document(Document::new());
    assert_eq!(
        coerce_field_value(&old, "{\"a\": 1}", Denoted { double: None, document: Some(d.clone()) }),
        Value::Document(d)
    );
    assert_eq!(coerce_field_value(&old, "{", nothing()), text("{"));
}

#[test]
fn a_regular_expression_is_read_between_slashes() {
    assert_eq!(parse_regex("/^a.*b$/i"), Some((s("^a.*b$"), s("i"))));
    assert_eq!(parse_regex("/a/b/gi"), Some((s("a/b"), s("gi"))));
    assert_eq!(parse_regex("//"), Some((s(""), s(""))));
    assert_eq!(parse_regex("/a"), None);
    assert_eq!(parse_regex("a/b/"), None);
    assert_eq!(parse_regex("/"), None);
    assert_eq!(parse_regex(""), None);
    let old = Value::Regex { pattern: s("x"), options: s("") };
    assert_eq!(
        coerce_field_value(&old, "/y/m", nothing()),
        Value::Regex { pattern: s("y"), options: s("m") }
    );
    assert_eq!(coerce_field_value(&old, "y", nothing()), text("y"));
}

#[test]
fn other_kinds_take_the_text_as_it_is() {
    assert_eq!(coerce_field_value(&text("old"), "12", nothing()), text("12"));
    assert_eq!(coerce_field_value(&Value::DateTime(5), "12", nothing()), text("12"));
    assert_eq!(
        coerce_field_value(&Value::Other { kind: 5, bytes: vec![1] }, "true", nothing()),
        text("true")
    );
}

#[test]
fn a_field_is_edited_in_the_one_line_text() {
    let mut state = AppState::default();
    state.has_client = true;
    state.focus = FocusArea::Documents;
    state.selected_collection = Some((s("u"), s("shop"), s("users")));
    let mut d = Document::new();
    d.insert(s("_id"), Value::ObjectId(ObjectId { value: 5 }));
    d.insert(s("age"), Value::Int32(30));
    state.current_documents = vec![d];
    handle_key_event(KeyEvent::plain(KeyCode::Char('r')), &mut state);
    assert!(matches!(state.request, Request::Idle));
    state.edit_field(s("x"));
    assert_eq!(state.mode, AppMode::Normal);
    state.selected_field_index = 1;
    handle_key_event(KeyEvent::plain(KeyCode::Char('r')), &mut state);
    assert!(matches!(state.request, Request::EditField));
    state.edit_field(s("30"));
    assert!(matches!(state.request, Request::Idle));
    assert_eq!(state.mode, AppMode::Insert);
    assert_eq!(state.input_context, InputContext::FieldEditEditor);
    assert_eq!((state.input_text.as_str(), state.cursor_position), ("30", 2));
    handle_key_event(KeyEvent::plain(KeyCode::Char('1')), &mut state);
    handle_key_event(KeyEvent::plain(KeyCode::Enter), &mut state);
    assert!(matches!(state.request, Request::ReadFieldText));
    assert_eq!(state.mode, AppMode::Insert);
    state.finish_field_text(nothing());
    match &state.request {
        Request::UpdateFields { db, collection, id, fields } => {
            assert_eq!((db.as_str(), collection.as_str(), id.value), ("shop", "users", 5));
            assert_eq!(fields.len(), 1);
            assert_eq!((fields[0].key.as_str(), &fields[0].value), ("age", &Value::Int32(301)));
        }
        other => panic!("unexpected {:?}", other),
    }
    state.finish_mutation(Ok(()));
    assert_eq!(state.mode, AppMode::Normal);
    assert_eq!(state.input_context, InputContext::Unset);
    assert_eq!(state.input_text, "");
    assert!(matches!(state.request, Request::Reload));
    state.request = Request::Idle;
    state.edit_field(s("30"));
    state.has_client = false;
    handle_key_event(KeyEvent::plain(KeyCode::Enter), &mut state);
    state.finish_field_text(nothing());
    assert_eq!(state.popup_message, Some(s("❌ MongoDB bağlantısı yok.")));
    assert_eq!(state.mode, AppMode::Insert);
    handle_key_event(KeyEvent::plain(KeyCode::Esc), &mut state);
    assert_eq!(state.mode, AppMode::Normal);
}

#[test]
fn a_turn_serves_connection_listing_and_page_in_order() {
    let mut state = AppState::default();
    assert_eq!(state.next_intent(Stage::Start), (Intent::Idle, Stage::Fetched));
    state.fetch_collection_data = Some((s("u"), s("d"), s("c")));
    state.collection_to_load = Some((s("u"), s("d")));
    state.connect_to = Some(s("u"));
    assert_eq!(state.next_intent(Stage::Start), (Intent::Connect { uri: s("u") }, Stage::Connected));
    assert_eq!(
        state.next_intent(Stage::Connected),
        (Intent::ListCollections { uri: s("u"), db: s("d") }, Stage::Listed)
    );
    assert_eq!(
        state.next_intent(Stage::Listed),
        (Intent::FetchPage { uri: s("u"), db: s("d"), name: s("c") }, Stage::Fetched)
    );
    assert_eq!(state.next_intent(Stage::Fetched), (Intent::Idle, Stage::Fetched));
    state.collection_to_load = None;
    assert_eq!(
        state.next_intent(Stage::Connected),
        (Intent::FetchPage { uri: s("u"), db: s("d"), name: s("c") }, Stage::Fetched)
    );
}
