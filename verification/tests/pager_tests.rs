use mongodbtui::app::{AppState, Connection, FocusArea, Request, SelectableItem};
use mongodbtui::document::{Document, ObjectId, Value};
use mongodbtui::events::handle_key_event;
use mongodbtui::handler::{handle_collection_listing, handle_connection, ConnectionOutcome};
use mongodbtui::keys::{KeyCode, KeyEvent};
use mongodbtui::pager::{apply_filter_sort, fetch_and_update_documents, query_or_default};

fn s(x: &str) -> String {
    x.to_string()
}

fn numbered(n: u128) -> Document {
    let mut d = Document::new();
    d.insert(s("_id"), Value::ObjectId(ObjectId { value: n }));
    d.insert(s("n"), Value::Int64(n as i64));
    d
}

fn store(total: u128) -> Vec<Document> {
    (1..=total).map(numbered).collect()
}

fn page(all: &Vec<Document>, skip: usize, limit: usize) -> Vec<Document> {
    all.iter().skip(skip).take(limit).cloned().collect()
}

fn key(c: char) -> KeyEvent {
    KeyEvent::plain(KeyCode::Char(c))
}

fn selected(state: &mut AppState) {
    state.has_client = true;
    state.selected_collection = Some((s("u"), s("d"), s("users")));
}

#[test]
fn a_text_that_denotes_no_document_stands_for_the_empty_query() {
    assert_eq!(apply_filter_sort("{\"a\": 1}", "{\"a\": -1}"), (s("{\"a\": 1}"), s("{\"a\": -1}")));
    assert_eq!(apply_filter_sort("", "   "), (s("{}"), s("{}")));
    assert_eq!(apply_filter_sort("{\"a\": ", "[1, 2]"), (s("{}"), s("{}")));
    assert_eq!(apply_filter_sort("not json", "{}"), (s("{}"), s("{}")));
    assert_eq!(apply_filter_sort(" {\"a\": {\"$gt\": 5}} ", "7"), (s(" {\"a\": {\"$gt\": 5}} "), s("{}")));
}

#[test]
fn the_query_sent_follows_whether_the_text_denotes_a_document() {
    assert_eq!(query_or_default("{\"a\": 1}", true), "{\"a\": 1}");
    assert_eq!(query_or_default("{\"a\": 1}", false), "{}");
    assert_eq!(query_or_default("  ", true), "{}");
    assert_eq!(query_or_default("", false), "{}");
}

#[test]
fn the_next_page_starts_behind_the_documents_fetched() {
    let mut state = AppState::default();
    selected(&mut state);
    state.filter_text = s("{\"n\": {\"$gt\": 0}}");
    state.sort_text = s("oops");
    let first = state.next_page_request();
    assert_eq!((first.skip, first.limit), (0, 100));
    assert_eq!(first.filter, "{\"n\": {\"$gt\": 0}}");
    assert_eq!(first.sort, "{}");
    state.current_documents = store(30);
    state.document_limit = 10;
    let next = state.next_page_request();
    assert_eq!((next.skip, next.limit), (30, 10));
    let again = state.first_page_request();
    assert_eq!((again.skip, again.limit), (0, 10));
}

#[test]
fn pages_append_without_repeating_or_skipping() {
    let all = store(25);
    let mut state = AppState::default();
    selected(&mut state);
    state.document_limit = 10;
    for round in 0..5 {
        let request = state.next_page_request();
        let docs = page(&all, request.skip, request.limit);
        fetch_and_update_documents(&mut state, "u", "d", "users", Ok(25), Ok(docs));
        let expected = std::cmp::min(25, 10 * (round + 1));
        assert_eq!(state.current_documents.len(), expected);
        assert_eq!(state.current_documents, page(&all, 0, expected));
        assert!(state.current_documents.len() <= state.document_skip);
    }
    assert_eq!(state.document_skip, 30);
    assert!(state.all_fetched());
}

#[test]
fn an_empty_page_changes_neither_documents_nor_offset() {
    let mut state = AppState::default();
    selected(&mut state);
    state.current_documents = store(3);
    state.document_skip = 100;
    state.fetch_collection_data = Some((s("u"), s("d"), s("users")));
    fetch_and_update_documents(&mut state, "u", "d", "users", Ok(3), Ok(Vec::new()));
    assert_eq!(state.current_documents, store(3));
    assert_eq!(state.document_skip, 100);
    assert_eq!(state.fetch_collection_data, None);
    assert_eq!(state.document_counts.get(&(s("u"), s("d"), s("users"))), Some(&3));
}

#[test]
fn a_failed_count_is_reported_and_the_page_is_left_for_another_try() {
    let mut state = AppState::default();
    selected(&mut state);
    state.fetch_collection_data = Some((s("u"), s("d"), s("users")));
    fetch_and_update_documents(&mut state, "u", "d", "users", Err(s("boom")), Ok(store(2)));
    assert_eq!(state.popup_message, Some(s("⚠️ Could not count documents: boom")));
    assert!(state.current_documents.is_empty());
    assert_eq!(state.fetch_collection_data, Some((s("u"), s("d"), s("users"))));
}

#[test]
fn a_failed_fetch_is_reported_and_leaves_the_page() {
    let mut state = AppState::default();
    selected(&mut state);
    state.current_documents = store(2);
    state.document_skip = 2;
    state.fetch_collection_data = Some((s("u"), s("d"), s("users")));
    fetch_and_update_documents(&mut state, "u", "d", "users", Ok(9), Err(s("bad sort")));
    assert_eq!(state.popup_message, Some(s("Failed to fetch documents for d.users: bad sort")));
    assert_eq!(state.current_documents, store(2));
    assert_eq!(state.document_skip, 2);
    assert_eq!(state.fetch_collection_data, None);
    assert_eq!(state.document_counts.get(&(s("u"), s("d"), s("users"))), Some(&9));
}

#[test]
fn without_a_client_a_fetch_is_dropped() {
    let mut state = AppState::default();
    state.fetch_collection_data = Some((s("u"), s("d"), s("users")));
    fetch_and_update_documents(&mut state, "u", "d", "users", Ok(2), Ok(store(2)));
    assert_eq!(state.fetch_collection_data, None);
    assert!(state.current_documents.is_empty());
    assert_eq!(state.selected_collection, None);
}

#[test]
fn a_page_under_a_filter_rewinds_the_cursor() {
    let mut state = AppState::default();
    selected(&mut state);
    state.filter_text = s("{\"n\": 1}");
    state.selected_doc_index = 3;
    state.doc_scroll_offset = 3;
    fetch_and_update_documents(&mut state, "u", "d", "users", Ok(1), Ok(store(1)));
    assert_eq!((state.selected_doc_index, state.doc_scroll_offset), (0, 0));
    let mut unfiltered = AppState::default();
    selected(&mut unfiltered);
    unfiltered.selected_doc_index = 3;
    fetch_and_update_documents(&mut unfiltered, "u", "d", "users", Ok(1), Ok(store(1)));
    assert_eq!(unfiltered.selected_doc_index, 3);
}

#[test]
fn the_offset_stops_at_the_greatest_number() {
    let mut state = AppState::default();
    selected(&mut state);
    state.document_skip = usize::MAX - 5;
    state.document_limit = 10;
    fetch_and_update_documents(&mut state, "u", "d", "users", Ok(1), Ok(store(1)));
    assert_eq!(state.document_skip, usize::MAX);
}

#[test]
fn reloading_replaces_the_documents() {
    let mut state = AppState::default();
    selected(&mut state);
    state.current_documents = store(5);
    state.document_skip = 100;
    state.request = Request::Reload;
    state.reload_documents_for_selected_collection(Ok(2), Ok(store(2)));
    assert_eq!(state.current_documents, store(2));
    assert_eq!(state.document_skip, 2);
    assert!(matches!(state.request, Request::Idle));
    assert_eq!(state.document_counts.get(&(s("u"), s("d"), s("users"))), Some(&2));
    state.request = Request::Reload;
    state.reload_documents_for_selected_collection(Ok(2), Err(s("x")));
    assert_eq!(state.popup_message, Some(s("❌ Failed to fetch documents for d.users: x")));
    assert_eq!(state.current_documents, store(2));
    state.popup_message = None;
    state.reload_documents_for_selected_collection(Err(s("y")), Ok(store(9)));
    assert_eq!(state.popup_message, Some(s("⚠️ Could not count documents: y")));
    assert_eq!(state.current_documents, store(2));
}

#[test]
fn resetting_the_page_asks_for_the_first_page() {
    let mut state = AppState::default();
    selected(&mut state);
    state.current_documents = store(5);
    state.document_skip = 100;
    state.reset_page();
    assert!(state.current_documents.is_empty());
    assert_eq!(state.document_skip, 0);
    assert_eq!(state.fetch_collection_data, Some((s("u"), s("d"), s("users"))));
    let mut none = AppState::default();
    none.current_documents = store(1);
    none.reset_page();
    assert_eq!(none.current_documents.len(), 1);
    assert_eq!(none.fetch_collection_data, None);
}

#[test]
fn browsing_a_collection_of_150_documents_in_pages_of_100() {
    let all = store(150);
    let mut state = AppState::default();
    state.connections = vec![Connection { id: 1, uri: s("mongodb://x"), name: s("X") }];
    state.rebuild_tree_items();
    let enter = KeyEvent::plain(KeyCode::Enter);

    assert!(!handle_key_event(enter, &mut state));
    assert_eq!(state.connect_to, Some(s("mongodb://x")));
    handle_connection(
        &mut state,
        "mongodb://x",
        ConnectionOutcome::Up { databases: Some(vec![s("app")]), collections: None },
    );
    handle_key_event(key('j'), &mut state);
    handle_key_event(enter, &mut state);
    assert_eq!(state.collection_to_load, Some((s("mongodb://x"), s("app"))));
    handle_collection_listing(&mut state, "mongodb://x", "app", Ok(vec![s("users")]));
    handle_key_event(key('j'), &mut state);
    assert!(matches!(
        state.selected_item(),
        Some(SelectableItem::Collection { ref name, .. }) if name == "users"
    ));

    handle_key_event(enter, &mut state);
    assert_eq!(state.focus, FocusArea::Documents);
    assert_eq!(state.fetch_collection_data, Some((s("mongodb://x"), s("app"), s("users"))));
    let first = state.next_page_request();
    assert_eq!((first.skip, first.limit), (0, 100));
    assert_eq!((first.filter.as_str(), first.sort.as_str()), ("{}", "{}"));
    fetch_and_update_documents(
        &mut state,
        "mongodb://x",
        "app",
        "users",
        Ok(150),
        Ok(page(&all, first.skip, first.limit)),
    );
    assert_eq!(state.current_documents, page(&all, 0, 100));
    assert_eq!(state.document_counts.get(&(s("mongodb://x"), s("app"), s("users"))), Some(&150));
    assert_eq!(state.fetch_collection_data, None);

    for _ in 0..99 {
        handle_key_event(key('j'), &mut state);
        assert_eq!(state.fetch_collection_data, None);
    }
    assert_eq!(state.selected_doc_index, 99);
    handle_key_event(key('j'), &mut state);
    assert_eq!(state.fetch_collection_data, Some((s("mongodb://x"), s("app"), s("users"))));
    let second = state.next_page_request();
    assert_eq!((second.skip, second.limit), (100, 100));
    fetch_and_update_documents(
        &mut state,
        "mongodb://x",
        "app",
        "users",
        Ok(150),
        Ok(page(&all, second.skip, second.limit)),
    );
    assert_eq!(state.current_documents, all);

    assert_eq!(state.selected_doc_index, 0);
    for _ in 0..149 {
        handle_key_event(key('j'), &mut state);
        assert_eq!(state.fetch_collection_data, None);
    }
    assert_eq!(state.selected_doc_index, 149);
    assert_eq!(state.fetch_collection_data, None);
    handle_key_event(key('j'), &mut state);
    assert_eq!(state.fetch_collection_data, None);
    assert_eq!(state.current_documents.len(), 150);
}
