use mongodbtui::app::{
    ActiveInputField, AppMode, AppState, FileEntry, FilePickerMode, FilePickerState, FocusArea,
    InputContext, Request, SelectableItem,
};
use mongodbtui::display::{cursor_column, editor_cursor, item_label, text_cursor_column};
use mongodbtui::document::{Document, ObjectId, Value};
use mongodbtui::editor::handle_editor;
use mongodbtui::events::handle_key_event;
use mongodbtui::filepicker::{extension_of, handle_filepicker_key};
use mongodbtui::keys::{KeyCode, KeyEvent};
use mongodbtui::requests::{chomp, export_file_name};

fn s(x: &str) -> String {
    x.to_string()
}

fn key(c: char) -> KeyEvent {
    KeyEvent::plain(KeyCode::Char(c))
}

fn code(c: KeyCode) -> KeyEvent {
    KeyEvent::plain(c)
}

fn doc(fields: Vec<(&str, Value)>) -> Document {
    let mut d = Document::new();
    for (k, v) in fields {
        d.insert(k.to_string(), v);
    }
    d
}

fn oid(n: u128) -> Value {
    Value::ObjectId(ObjectId { value: n })
}

fn editing() -> AppState {
    let mut state = AppState::default();
    state.has_client = true;
    state.focus = FocusArea::Documents;
    state.selected_collection = Some((s("u"), s("shop"), s("users")));
    state.current_documents = vec![
        doc(vec![("_id", oid(1)), ("a", Value::Int32(1))]),
        doc(vec![("_id", oid(2)), ("a", Value::Int32(2)), ("b", Value::Null)]),
    ];
    state.selected_doc_index = 1;
    state
}

fn entry(path: &str, name: &str, is_dir: bool) -> FileEntry {
    FileEntry::Real { path: s(path), name: s(name), is_dir }
}

fn picker(mode: FilePickerMode) -> FilePickerState {
    FilePickerState::new(
        mode,
        s("/home/me"),
        vec![
            FileEntry::Parent(s("/home")),
            entry("/home/me/dump", "dump", true),
            entry("/home/me/a.json", "a.json", false),
            entry("/home/me/run.sh", "run.sh", false),
        ],
    )
}

#[test]
fn one_line_feed_at_the_end_is_dropped() {
    assert_eq!(chomp("abc\n"), "abc");
    assert_eq!(chomp("abc\n\n"), "abc\n");
    assert_eq!(chomp("abc"), "abc");
    assert_eq!(chomp("\n"), "");
    assert_eq!(chomp(""), "");
    assert_eq!(export_file_name("shop", "users"), "shop_users.json");
}

#[test]
fn a_paste_in_insert_mode_goes_in_at_the_cursor() {
    let mut state = AppState::default();
    handle_key_event(key('o'), &mut state);
    for c in "ab".chars() {
        handle_key_event(key(c), &mut state);
    }
    handle_key_event(code(KeyCode::Left), &mut state);
    handle_key_event(KeyEvent::control('v'), &mut state);
    assert!(matches!(state.request, Request::ReadClipboard));
    assert_eq!(state.input_text, "ab");
    state.finish_paste(Ok(s("XéY\n")));
    assert_eq!((state.input_text.as_str(), state.cursor_position), ("aXéYb", 4));
    assert!(matches!(state.request, Request::Idle));
    handle_key_event(KeyEvent::control('v'), &mut state);
    state.finish_paste(Err(s("no clipboard")));
    assert_eq!(state.popup_message, Some(s("❌ Pano okunamadı (Ctrl+V)")));
    assert_eq!(state.input_text, "aXéYb");
}

#[test]
fn a_paste_in_normal_mode_is_appended_to_the_query_text() {
    let mut state = AppState::default();
    state.focus = FocusArea::FilterSortInputs;
    state.filter_text = s("{");
    handle_key_event(key('p'), &mut state);
    assert!(matches!(state.request, Request::ReadClipboard));
    state.finish_paste(Ok(s("\"a\":1}\n")));
    assert_eq!((state.filter_text.as_str(), state.cursor_position), ("{\"a\":1}", 7));
    state.active_input = Some(ActiveInputField::Sort);
    handle_key_event(key('p'), &mut state);
    state.finish_paste(Ok(s("{}")));
    assert_eq!((state.sort_text.as_str(), state.cursor_position), ("{}", 2));
    handle_key_event(key('p'), &mut state);
    state.finish_paste(Err(s("locked")));
    assert_eq!(state.popup_message, Some(s("❌ Yapıştırma başarısız: locked")));
    let mut elsewhere = AppState::default();
    handle_key_event(key('p'), &mut elsewhere);
    assert!(matches!(elsewhere.request, Request::Idle));
    elsewhere.finish_paste(Ok(s("ignored")));
    assert_eq!(elsewhere.filter_text, "");
}

#[test]
fn an_export_is_reported() {
    let mut state = AppState::default();
    state.request = Request::ExportCollection { db: s("d"), name: s("c") };
    state.finish_export(Ok(s("/data/d_c.json")));
    assert_eq!(state.popup_message_success, Some(s("✅ Exported collection: /data/d_c.json")));
    state.request = Request::ExportDatabase { name: s("d") };
    state.finish_export(Ok(s("/data/d")));
    assert_eq!(state.popup_message_success, Some(s("✅ Exported database to: /data/d")));
    state.request = Request::ExportDatabase { name: s("d") };
    state.finish_export(Err(s("read-only")));
    assert_eq!(state.popup_message, Some(s("❌ Export failed: read-only")));
    assert!(matches!(state.request, Request::Idle));
}

#[test]
fn a_request_can_be_given_up() {
    let mut state = AppState::default();
    state.request = Request::EditExternally;
    state.fail_request("Dış editör açılamadı: x");
    assert_eq!(state.popup_message, Some(s("❌ Dış editör açılamadı: x")));
    assert!(matches!(state.request, Request::Idle));
}

#[test]
fn the_external_editor_needs_a_collection_and_a_client() {
    let mut state = editing();
    handle_key_event(key('e'), &mut state);
    assert!(matches!(state.request, Request::EditExternally));
    let mut offline = editing();
    offline.has_client = false;
    handle_key_event(key('e'), &mut offline);
    assert_eq!(offline.popup_message, Some(s("❌ MongoDB bağlantısı yok.")));
    let mut nowhere = editing();
    nowhere.selected_collection = None;
    handle_key_event(key('e'), &mut nowhere);
    assert_eq!(nowhere.popup_message, Some(s("❌ Herhangi bir koleksiyon seçili değil.")));
    let mut empty = editing();
    empty.current_documents.clear();
    handle_key_event(key('e'), &mut empty);
    assert!(matches!(empty.request, Request::Idle));
    assert_eq!(empty.popup_message, None);
}

#[test]
fn an_unchanged_text_changes_nothing() {
    let mut state = editing();
    state.request = Request::EditExternally;
    state.finish_external_edit("{\n  \"a\": 2\n}", "  {\n  \"a\": 2\n}\n", Err(s("never read")));
    assert_eq!(state.popup_message_success, Some(s("Kaydedildi (değişiklik yok).")));
    assert!(state.redraw);
    assert!(matches!(state.request, Request::Idle));
    assert_eq!(state.popup_message, None);
}

#[test]
fn an_edited_document_is_sent_as_one_update() {
    let mut state = editing();
    state.request = Request::EditExternally;
    let edited = doc(vec![("_id", oid(2)), ("a", Value::Int32(3)), ("c", Value::Boolean(true))]);
    state.finish_external_edit("old", "new", Ok(edited.clone()));
    match &state.request {
        Request::ApplyUpdate { db, collection, update } => {
            assert_eq!((db.as_str(), collection.as_str()), ("shop", "users"));
            assert_eq!(update.id, ObjectId { value: 2 });
            assert_eq!(update.set, doc(vec![("a", Value::Int32(3)), ("c", Value::Boolean(true))]));
            assert_eq!(update.unset, doc(vec![("b", Value::String(s("")))]));
        }
        other => panic!("unexpected {:?}", other),
    }
    assert_eq!(state.current_documents[1].len(), 3);
    state.finish_mutation(Ok(()));
    assert_eq!(state.current_documents[1], edited);
    assert_eq!(
        state.popup_message_success,
        Some(s("Dış editör değişiklikleri kaydedildi ve DB güncellendi ✅"))
    );
    assert!(state.editing.is_none());
    assert!(matches!(state.request, Request::Idle));
}

#[test]
fn a_failed_update_leaves_the_document() {
    let mut state = editing();
    state.request = Request::EditExternally;
    let edited = doc(vec![("_id", oid(2)), ("a", Value::Int32(3)), ("b", Value::Null)]);
    state.finish_external_edit("old", "new", Ok(edited));
    state.finish_mutation(Err(s("write conflict")));
    assert_eq!(state.popup_message, Some(s("❌ write conflict")));
    assert_eq!(state.current_documents[1].get("a"), Some(&Value::Int32(2)));
    assert!(state.editing.is_none());
}

#[test]
fn an_edited_text_is_refused_when_it_is_no_document_or_has_another_identifier() {
    let mut state = editing();
    state.request = Request::EditExternally;
    state.finish_external_edit("old", "new", Err(s("expected `,`")));
    assert_eq!(state.popup_message, Some(s("❌ expected `,`")));
    assert!(matches!(state.request, Request::Idle));
    state.request = Request::EditExternally;
    state.finish_external_edit("old", "new", Ok(doc(vec![("_id", oid(9)), ("a", Value::Int32(2))])));
    assert_eq!(state.popup_message, Some(s("❌ _id değiştirilemez")));
    state.request = Request::EditExternally;
    state.finish_external_edit("old", "new", Ok(doc(vec![("a", Value::Int32(2))])));
    assert_eq!(state.popup_message, Some(s("❌ _id alanı yok")));
    state.request = Request::EditExternally;
    state.finish_external_edit("old", "new", Ok(doc(vec![("_id", Value::Int32(2))])));
    assert_eq!(state.popup_message, Some(s("❌ _id bir ObjectId olmalı")));
    assert_eq!(state.current_documents[1].len(), 3);
}

#[test]
fn a_reordered_document_takes_the_place_of_the_original_at_once() {
    let mut state = editing();
    state.request = Request::EditExternally;
    let reordered = doc(vec![("a", Value::Int32(2)), ("b", Value::Null), ("_id", oid(2))]);
    state.finish_external_edit("old", "new", Ok(reordered.clone()));
    assert!(matches!(state.request, Request::Idle));
    assert_eq!(state.current_documents[1], reordered);
}

#[test]
fn the_document_editor_submits_one_update_for_each_changed_field() {
    let mut state = editing();
    handle_key_event(key('E'), &mut state);
    assert!(matches!(state.request, Request::OpenEditor));
    assert_eq!(state.mode, AppMode::Normal);
    state.open_editor(s("{}"));
    assert!(matches!(state.request, Request::Idle));
    assert_eq!(state.mode, AppMode::Editor);
    assert_eq!(state.input_text, "{}");
    assert!(state.editing.is_some());
    assert!(!handle_key_event(code(KeyCode::Right), &mut state));
    handle_key_event(key('x'), &mut state);
    assert_eq!((state.input_text.as_str(), state.cursor_position), ("{x}", 2));
    handle_key_event(code(KeyCode::Backspace), &mut state);
    assert_eq!(state.input_text, "{}");
    handle_key_event(code(KeyCode::Left), &mut state);
    assert_eq!(state.cursor_position, 0);
    assert!(!handle_key_event(key('q'), &mut state));
    assert_eq!(state.input_text, "q{}");
    handle_key_event(code(KeyCode::Enter), &mut state);
    assert!(matches!(state.request, Request::ReadEditorText));
    state.finish_editor_text(Err(s("expected value")));
    assert_eq!(state.popup_message, Some(s("expected value")));
    assert_eq!(state.mode, AppMode::Editor);
    assert_eq!(state.input_text, "q{}");
    handle_editor(code(KeyCode::Enter), &mut state);
    state.finish_editor_text(Ok(doc(vec![("_id", oid(3)), ("a", Value::Int32(2))])));
    assert_eq!(state.popup_message, Some(s("_id değiştirilemez")));
    assert_eq!(state.mode, AppMode::Editor);
    handle_editor(code(KeyCode::Enter), &mut state);
    state.finish_editor_text(Ok(doc(vec![
        ("_id", oid(2)),
        ("a", Value::Int32(5)),
        ("b", Value::Null),
        ("c", Value::Int32(6)),
    ])));
    match &state.request {
        Request::UpdateFields { db, collection, id, fields } => {
            assert_eq!((db.as_str(), collection.as_str(), id.value), ("shop", "users", 2));
            assert_eq!(fields.len(), 2);
            assert_eq!((fields[0].key.as_str(), &fields[0].value), ("a", &Value::Int32(5)));
            assert_eq!((fields[1].key.as_str(), &fields[1].value), ("c", &Value::Int32(6)));
        }
        other => panic!("unexpected {:?}", other),
    }
    assert_eq!(state.mode, AppMode::Editor);
    state.finish_mutation(Ok(()));
    assert_eq!(state.mode, AppMode::Normal);
    assert_eq!(state.input_text, "");
    assert!(state.editing.is_none());
    assert!(matches!(state.request, Request::Reload));
    assert_eq!(state.popup_message_success, Some(s("✅ Document updated")));
}

#[test]
fn the_document_editor_is_left_on_escape_or_without_changes() {
    let mut state = editing();
    state.open_editor(s("text"));
    handle_key_event(code(KeyCode::Esc), &mut state);
    assert_eq!(state.mode, AppMode::Normal);
    assert_eq!(state.input_text, "");
    assert!(state.editing.is_none());
    state.open_editor(s("text"));
    handle_key_event(code(KeyCode::Enter), &mut state);
    state.finish_editor_text(Ok(doc(vec![("_id", oid(2)), ("a", Value::Int32(2)), ("b", Value::Null)])));
    assert_eq!(state.mode, AppMode::Normal);
    assert!(matches!(state.request, Request::Idle));
    let mut update_fails = editing();
    update_fails.open_editor(s("text"));
    handle_key_event(code(KeyCode::Enter), &mut update_fails);
    update_fails.finish_editor_text(Ok(doc(vec![("_id", oid(2)), ("a", Value::Int32(7))])));
    update_fails.finish_mutation(Err(s("denied")));
    assert_eq!(update_fails.popup_message, Some(s("❌ Update failed: denied")));
    assert_eq!(update_fails.mode, AppMode::Editor);
    let mut nothing = AppState::default();
    nothing.open_editor(s("text"));
    assert_eq!(nothing.mode, AppMode::Normal);
}

#[test]
fn extensions_follow_the_last_dot() {
    assert_eq!(extension_of("run.sh"), Some(s("sh")));
    assert_eq!(extension_of("a.b.json"), Some(s("json")));
    assert_eq!(extension_of("name."), Some(s("")));
    assert_eq!(extension_of("Makefile"), None);
    assert_eq!(extension_of(".bashrc"), None);
    assert_eq!(extension_of(".."), None);
    assert_eq!(extension_of(""), None);
    assert_eq!(extension_of(".a.sh"), Some(s("sh")));
}

#[test]
fn the_file_picker_walks_and_chooses() {
    let mut p = picker(FilePickerMode::ImportCollection);
    assert_eq!(p.selected_entry(), Some(&FileEntry::Parent(s("/home"))));
    p.previous();
    assert_eq!(p.selected_index, 0);
    p.toggle_selection();
    assert!(p.selected_files.is_empty());
    p.next();
    p.next();
    p.toggle_selection();
    assert_eq!(p.selected_files, vec![s("/home/me/a.json")]);
    p.next();
    p.toggle_selection();
    p.next();
    assert_eq!(p.selected_index, 3);
    p.previous();
    p.toggle_selection();
    assert_eq!(p.selected_files, vec![s("/home/me/run.sh")]);
    p.enter_directory(s("/x"), None);
    assert_eq!(p.current_path, "/home/me");
    p.enter_directory(s("/x"), Some(vec![entry("/x/y", "y", false)]));
    assert_eq!((p.current_path.as_str(), p.selected_index, p.entries.len()), ("/x", 0, 1));
    p.selected_index = 7;
    assert_eq!(p.selected_entry(), None);
    p.toggle_selection();
    assert_eq!(p.selected_files.len(), 1);
}

#[test]
fn a_file_picker_is_opened_on_request() {
    let mut state = AppState::default();
    state.current_documents = vec![Document::new()];
    state.request = Request::OpenFilePicker { mode: FilePickerMode::RunScript };
    state.finish_file_picker(Ok((s("/w"), vec![entry("/w/a", "a", false)])));
    assert!(state.file_picker.is_some());
    assert_eq!(state.current_documents.len(), 1);
    state.file_picker = None;
    state.request = Request::OpenFilePicker { mode: FilePickerMode::ImportCollection };
    state.finish_file_picker(Ok((s("/w"), Vec::new())));
    assert!(state.current_documents.is_empty());
    assert!(matches!(state.file_picker, Some(ref p) if p.mode == FilePickerMode::ImportCollection && p.current_path == "/w"));
    state.file_picker = None;
    state.request = Request::OpenFilePicker { mode: FilePickerMode::ImportDatabase };
    state.finish_file_picker(Err(s("gone")));
    assert_eq!(state.popup_message, Some(s("❌ Failed to open file picker: gone")));
    assert!(state.file_picker.is_none());
}

#[test]
fn keys_go_to_the_open_file_picker() {
    let mut state = AppState::default();
    state.file_picker = Some(picker(FilePickerMode::ImportCollection));
    assert!(!handle_key_event(key('q'), &mut state));
    assert!(!handle_key_event(key('j'), &mut state));
    assert!(!handle_key_event(code(KeyCode::Down), &mut state));
    assert!(!handle_key_event(key(' '), &mut state));
    assert!(matches!(state.file_picker, Some(ref p) if p.selected_index == 2 && p.selected_files == vec![s("/home/me/a.json")]));
    handle_key_event(key('k'), &mut state);
    handle_key_event(code(KeyCode::Enter), &mut state);
    assert!(matches!(state.request, Request::ReadDirectory { ref path } if path == "/home/me/dump"));
    state.finish_directory(Some(vec![FileEntry::Parent(s("/home/me"))]));
    assert!(matches!(state.file_picker, Some(ref p) if p.current_path == "/home/me/dump" && p.entries.len() == 1));
    handle_key_event(code(KeyCode::Enter), &mut state);
    assert!(matches!(state.request, Request::ReadDirectory { ref path } if path == "/home/me"));
    state.finish_directory(None);
    assert!(matches!(state.file_picker, Some(ref p) if p.current_path == "/home/me/dump"));
    assert!(handle_filepicker_key(code(KeyCode::Esc), &mut state));
    assert!(state.file_picker.is_none());
    assert_eq!(state.mode, AppMode::Normal);
    assert_eq!(state.input_context, InputContext::Unset);
}

#[test]
fn a_file_is_not_entered() {
    let mut state = AppState::default();
    let mut p = picker(FilePickerMode::RunScript);
    p.selected_index = 2;
    state.file_picker = Some(p);
    handle_key_event(code(KeyCode::Enter), &mut state);
    assert!(matches!(state.request, Request::Idle));
}

#[test]
fn confirming_an_import_of_files() {
    let mut state = AppState::default();
    state.file_picker = Some(picker(FilePickerMode::ImportCollection));
    handle_key_event(key('c'), &mut state);
    assert_eq!(state.popup_message, Some(s("❗ Not connected to MongoDB.")));
    assert!(state.file_picker.is_some());
    state.has_client = true;
    handle_key_event(key('c'), &mut state);
    assert_eq!(state.popup_message, Some(s("❗ No database selected.")));
    state.tree_items = vec![SelectableItem::Database { uri: s("u"), name: s("shop") }];
    handle_key_event(key('j'), &mut state);
    handle_key_event(key('j'), &mut state);
    handle_key_event(key(' '), &mut state);
    handle_key_event(key('c'), &mut state);
    match &state.request {
        Request::ImportFiles { uri, db, files } => {
            assert_eq!((uri.as_str(), db.as_str()), ("u", "shop"));
            assert_eq!(files, &vec![s("/home/me/a.json")]);
        }
        other => panic!("unexpected {:?}", other),
    }
    assert!(state.file_picker.is_none());
    state.finish_import(1, 2);
    assert_eq!(state.popup_message_success, Some(s("📥 Imported: 1 ✅ | ❌ Failed: 2")));
    assert_eq!(state.collection_to_load, Some((s("u"), s("shop"))));
    assert!(matches!(state.request, Request::Idle));
}

#[test]
fn confirming_an_import_of_a_folder() {
    let mut state = AppState::default();
    state.has_client = true;
    state.tree_items = vec![SelectableItem::Uri { uri: s("u"), name: s("U"), connected: true }];
    state.file_picker = Some(picker(FilePickerMode::ImportDatabase));
    handle_key_event(key('c'), &mut state);
    assert_eq!(state.popup_message, Some(s("❗ Please select a folder.")));
    handle_key_event(key('j'), &mut state);
    handle_key_event(key('j'), &mut state);
    handle_key_event(key('c'), &mut state);
    assert_eq!(state.popup_message, Some(s("❗ Please select a folder.")));
    assert!(state.file_picker.is_some());
    handle_key_event(key('k'), &mut state);
    handle_key_event(key('c'), &mut state);
    match &state.request {
        Request::ImportFolder { uri, db, path } => {
            assert_eq!((uri.as_str(), db.as_str(), path.as_str()), ("u", "dump", "/home/me/dump"));
        }
        other => panic!("unexpected {:?}", other),
    }
    assert!(state.file_picker.is_none());
    state.finish_mutation(Ok(()));
    assert_eq!(state.popup_message_success, Some(s("✅ Imported folder as database 'dump'")));
    assert_eq!(state.collection_to_load, Some((s("u"), s("dump"))));
    let mut wrong_line = AppState::default();
    wrong_line.has_client = true;
    let mut p = picker(FilePickerMode::ImportDatabase);
    p.selected_index = 1;
    wrong_line.file_picker = Some(p);
    handle_key_event(key('c'), &mut wrong_line);
    assert_eq!(wrong_line.popup_message, Some(s("❗ No connection selected.")));
    wrong_line.request = Request::ImportFolder { uri: s("u"), db: s("d"), path: s("/p") };
    wrong_line.finish_mutation(Err(s("bad file")));
    assert_eq!(wrong_line.popup_message, Some(s("❌ Import failed: bad file")));
}

#[test]
fn confirming_a_script() {
    let mut state = AppState::default();
    state.has_client = true;
    state.file_picker = Some(picker(FilePickerMode::RunScript));
    handle_key_event(key('c'), &mut state);
    assert_eq!(state.popup_message, Some(s("❗ Please select a .sh script file.")));
    handle_key_event(key('j'), &mut state);
    handle_key_event(key('j'), &mut state);
    handle_key_event(key('c'), &mut state);
    assert_eq!(state.popup_message, Some(s("❗ Only .sh files are allowed.")));
    handle_key_event(key('j'), &mut state);
    handle_key_event(key('c'), &mut state);
    assert!(matches!(state.request, Request::RunScript { ref path } if path == "/home/me/run.sh"));
    assert!(state.file_picker.is_none());
    state.finish_script(Ok(None));
    assert_eq!(state.popup_message_success, Some(s("✅ Script executed successfully.")));
    state.request = Request::RunScript { path: s("p") };
    state.finish_script(Ok(Some(s("exit 1"))));
    assert_eq!(state.popup_message, Some(s("❌ Script failed: exit 1")));
    state.request = Request::RunScript { path: s("p") };
    state.finish_script(Err(s("no sh")));
    assert_eq!(state.popup_message, Some(s("❌ Failed to run script: no sh")));
}

#[test]
fn an_outcome_without_its_request_only_drops_the_request() {
    let mut state = AppState::default();
    state.request = Request::ReadClipboard;
    state.finish_mutation(Ok(()));
    assert!(matches!(state.request, Request::Idle));
    assert_eq!(state.popup_message_success, None);
    state.request = Request::Reload;
    state.finish_export(Ok(s("p")));
    state.finish_import(1, 1);
    state.finish_script(Ok(None));
    state.finish_directory(None);
    state.finish_file_picker(Err(s("e")));
    state.finish_connections(Err(s("e")));
    state.finish_editor_text(Err(s("e")));
    state.finish_external_edit("a", "b", Err(s("e")));
    assert_eq!(state.popup_message, None);
    assert_eq!(state.popup_message_success, None);
    assert!(matches!(state.request, Request::Idle));
}

#[test]
fn grapheme_clusters_and_columns() {
    let mut state = AppState::default();
    state.input_text = s("e\u{301}x日");
    state.update_graphemes();
    assert_eq!(state.input_graphemes, vec![s("e\u{301}"), s("x"), s("日")]);
    assert_eq!(cursor_column(&state.input_graphemes, 0), 0);
    assert_eq!(cursor_column(&state.input_graphemes, 1), 1);
    assert_eq!(cursor_column(&state.input_graphemes, 2), 2);
    assert_eq!(cursor_column(&state.input_graphemes, 3), 4);
    assert_eq!(cursor_column(&state.input_graphemes, 9), 4);
    assert_eq!(text_cursor_column("日本語", 2), 4);
    assert_eq!(text_cursor_column("", 2), 0);
}

#[test]
fn the_editor_cursor_has_a_line_and_a_column() {
    assert_eq!(editor_cursor("", 0), (0, 0));
    assert_eq!(editor_cursor("ab\ncd", 1), (0, 1));
    assert_eq!(editor_cursor("ab\ncd", 3), (1, 0));
    assert_eq!(editor_cursor("ab\ncd", 5), (1, 2));
    assert_eq!(editor_cursor("ab\ncd", 50), (1, 2));
    assert_eq!(editor_cursor("é\n\n日", 4), (2, 1));
}

#[test]
fn labels_and_the_status_line() {
    assert_eq!(item_label(&SelectableItem::Uri { uri: s("u"), name: s("Home"), connected: true }), "✔ Home");
    assert_eq!(item_label(&SelectableItem::Uri { uri: s("u"), name: s("Home"), connected: false }), "Home");
    assert_eq!(item_label(&SelectableItem::Database { uri: s("u"), name: s("shop") }), "  └ shop");
    assert_eq!(
        item_label(&SelectableItem::Collection { uri: s("u"), db: s("d"), name: s("users") }),
        "      • users"
    );
    let mut state = AppState::default();
    assert_eq!(state.status_line(), "[NORMAL]");
    state.selected_collection = Some((s("u"), s("shop"), s("users")));
    assert_eq!(state.status_line(), "[NORMAL]");
    state.document_counts.insert((s("u"), s("shop"), s("users")), 1500);
    state.mode = AppMode::Insert;
    assert_eq!(state.status_line(), "[INSERT] | shop.users (1500 docs)");
    state.mode = AppMode::Editor;
    state.document_counts.insert((s("u"), s("shop"), s("users")), 0);
    assert_eq!(state.status_line(), "[EDITOR] | shop.users (0 docs)");
}
