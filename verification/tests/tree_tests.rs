use mongodbtui::app::{AppState, Connection, FocusArea, SelectableItem};
use mongodbtui::collections::{KeyMap, KeySet};
use mongodbtui::handler::{handle_collection_listing, handle_connection, ConnectionOutcome};
use mongodbtui::tree::goto_collection;

fn s(x: &str) -> String {
    x.to_string()
}

fn uri_item(uri: &str, name: &str, connected: bool) -> SelectableItem {
    SelectableItem::Uri { uri: s(uri), name: s(name), connected }
}

fn db_item(uri: &str, name: &str) -> SelectableItem {
    SelectableItem::Database { uri: s(uri), name: s(name) }
}

fn coll_item(uri: &str, db: &str, name: &str) -> SelectableItem {
    SelectableItem::Collection { uri: s(uri), db: s(db), name: s(name) }
}

fn two_connections() -> AppState {
    let mut state = AppState::default();
    state.connections = vec![
        Connection { id: 1, uri: s("mongodb://a"), name: s("A") },
        Connection { id: 2, uri: s("mongodb://b"), name: s("B") },
    ];
    state.connected_uri = Some(s("mongodb://a"));
    state.has_client = true;
    state.database_map.insert(s("mongodb://a"), vec![s("shop"), s("logs")]);
    state.collection_map.insert((s("mongodb://a"), s("shop")), vec![s("orders"), s("users")]);
    state.collection_map.insert((s("mongodb://a"), s("logs")), vec![s("2024")]);
    state
}

#[test]
fn key_set_and_map_behave_like_sets_and_maps() {
    let mut set: KeySet<String> = KeySet::new();
    assert!(!set.contains(&s("a")));
    set.insert(s("a"));
    set.insert(s("a"));
    set.insert(s("b"));
    assert!(set.contains(&s("a")));
    set.remove(&s("a"));
    assert!(!set.contains(&s("a")));
    assert!(set.contains(&s("b")));
    let mut pairs: KeySet<(String, String)> = KeySet::new();
    pairs.insert((s("u"), s("x")));
    pairs.insert((s("u"), s("y")));
    pairs.insert((s("v"), s("x")));
    pairs.remove_root("u");
    assert!(!pairs.contains(&(s("u"), s("x"))));
    assert!(!pairs.contains(&(s("u"), s("y"))));
    assert!(pairs.contains(&(s("v"), s("x"))));
    let mut map: KeyMap<(String, String, String), u64> = KeyMap::new();
    let key = (s("u"), s("d"), s("c"));
    assert_eq!(map.get(&key), None);
    map.insert((s("u"), s("d"), s("c")), 5);
    map.insert((s("u"), s("d"), s("c")), 7);
    map.insert((s("w"), s("d"), s("c")), 9);
    assert_eq!(map.get(&key), Some(&7));
    assert!(map.contains_key(&key));
    map.remove(&key);
    assert_eq!(map.get(&key), None);
    assert_eq!(map.get(&(s("w"), s("d"), s("c"))), Some(&9));
    map.remove_root("w");
    assert!(!map.contains_key(&(s("w"), s("d"), s("c"))));
}

#[test]
fn nothing_is_shown_below_a_connection_that_is_not_expanded() {
    let mut state = two_connections();
    state.rebuild_tree_items();
    assert_eq!(
        state.tree_items,
        vec![uri_item("mongodb://a", "A", true), uri_item("mongodb://b", "B", false)]
    );
}

#[test]
fn expanded_nodes_show_their_children_in_order() {
    let mut state = two_connections();
    state.expanded_uris.insert(s("mongodb://a"));
    state.expanded_uris.insert(s("mongodb://b"));
    state.expanded_dbs.insert((s("mongodb://a"), s("shop")));
    state.expanded_dbs.insert((s("mongodb://a"), s("missing")));
    state.rebuild_tree_items();
    assert_eq!(
        state.tree_items,
        vec![
            uri_item("mongodb://a", "A", true),
            db_item("mongodb://a", "shop"),
            coll_item("mongodb://a", "shop", "orders"),
            coll_item("mongodb://a", "shop", "users"),
            db_item("mongodb://a", "logs"),
            uri_item("mongodb://b", "B", false),
        ]
    );
    state.rebuild_tree_items();
    assert_eq!(state.tree_items.len(), 6);
    assert_eq!(state.flatten(), state.tree_items);
    state.expanded_uris.remove(&s("mongodb://a"));
    assert_eq!(state.flatten().len(), 2);
    assert_eq!(state.tree_items.len(), 6);
}

#[test]
fn toggling_twice_gives_the_same_list() {
    let mut state = two_connections();
    state.expanded_uris.insert(s("mongodb://a"));
    state.rebuild_tree_items();
    let before = state.tree_items.clone();
    let node = db_item("mongodb://a", "shop");
    state.toggle_expand(&node);
    state.rebuild_tree_items();
    assert_eq!(state.tree_items.len(), before.len() + 2);
    assert_eq!(state.collection_to_load, None);
    state.toggle_expand(&node);
    state.rebuild_tree_items();
    assert_eq!(state.tree_items, before);
    let conn = uri_item("mongodb://a", "A", true);
    state.toggle_expand(&conn);
    state.rebuild_tree_items();
    assert_eq!(state.tree_items.len(), 2);
    state.toggle_expand(&conn);
    state.rebuild_tree_items();
    assert_eq!(state.tree_items, before);
    assert_eq!(state.connect_to, None);
}

#[test]
fn toggling_asks_for_children_that_are_not_known() {
    let mut state = two_connections();
    state.toggle_expand(&db_item("mongodb://a", "new"));
    assert_eq!(state.collection_to_load, Some((s("mongodb://a"), s("new"))));
    assert!(state.expanded_dbs.contains(&(s("mongodb://a"), s("new"))));
    state.toggle_expand(&uri_item("mongodb://b", "B", false));
    assert_eq!(state.connect_to, Some(s("mongodb://b")));
    assert!(state.expanded_uris.contains(&s("mongodb://b")));
    let before = state.tree_items.len();
    state.toggle_expand(&coll_item("mongodb://a", "shop", "orders"));
    assert_eq!(state.tree_items.len(), before);
}

#[test]
fn invalidating_a_connection_drops_all_that_lies_under_it() {
    let mut state = two_connections();
    state.database_map.insert(s("mongodb://b"), vec![s("other")]);
    state.collection_map.insert((s("mongodb://b"), s("other")), vec![s("c")]);
    state.expanded_uris.insert(s("mongodb://a"));
    state.expanded_uris.insert(s("mongodb://b"));
    state.expanded_dbs.insert((s("mongodb://a"), s("shop")));
    state.expanded_dbs.insert((s("mongodb://b"), s("other")));
    state.invalidate_connection("mongodb://a");
    assert!(!state.database_map.contains_key(&s("mongodb://a")));
    assert!(!state.expanded_uris.contains(&s("mongodb://a")));
    assert!(!state.expanded_dbs.contains(&(s("mongodb://a"), s("shop"))));
    assert!(!state.collection_map.contains_key(&(s("mongodb://a"), s("shop"))));
    assert!(!state.collection_map.contains_key(&(s("mongodb://a"), s("logs"))));
    assert!(state.database_map.contains_key(&s("mongodb://b")));
    assert!(state.expanded_uris.contains(&s("mongodb://b")));
    assert!(state.expanded_dbs.contains(&(s("mongodb://b"), s("other"))));
    assert!(state.collection_map.contains_key(&(s("mongodb://b"), s("other"))));
}

#[test]
fn goto_collection_puts_the_cursor_on_the_line() {
    let mut state = two_connections();
    state.expanded_uris.insert(s("mongodb://a"));
    state.expanded_dbs.insert((s("mongodb://a"), s("shop")));
    state.rebuild_tree_items();
    state.focus = FocusArea::Documents;
    goto_collection(&mut state, "mongodb://a", "shop", "users");
    assert_eq!(state.selected_index, 3);
    assert_eq!(state.focus, FocusArea::Connections);
    state.focus = FocusArea::Documents;
    goto_collection(&mut state, "mongodb://a", "logs", "2024");
    assert_eq!(state.selected_index, 3);
    assert_eq!(state.focus, FocusArea::Documents);
    assert!(state.expanded_dbs.contains(&(s("mongodb://a"), s("logs"))));
}

#[test]
fn a_connection_that_is_up_is_expanded() {
    let mut state = AppState::default();
    state.connections = vec![Connection { id: 1, uri: s("mongodb://a"), name: s("A") }];
    state.connect_to = Some(s("mongodb://a"));
    state.db_to_expand = Some((s("mongodb://a"), s("shop")));
    assert_eq!(state.database_to_list("mongodb://a"), Some(s("shop")));
    assert_eq!(state.database_to_list("mongodb://b"), None);
    handle_connection(
        &mut state,
        "mongodb://a",
        ConnectionOutcome::Up {
            databases: Some(vec![s("shop"), s("logs")]),
            collections: Some(vec![s("orders")]),
        },
    );
    assert!(state.has_client);
    assert_eq!(state.connected_uri, Some(s("mongodb://a")));
    assert_eq!(state.connect_to, None);
    assert_eq!(state.db_to_expand, None);
    assert_eq!(
        state.tree_items,
        vec![
            uri_item("mongodb://a", "A", true),
            db_item("mongodb://a", "shop"),
            coll_item("mongodb://a", "shop", "orders"),
            db_item("mongodb://a", "logs"),
        ]
    );
}

#[test]
fn a_connection_without_listing_is_up_but_not_expanded() {
    let mut state = AppState::default();
    state.connections = vec![Connection { id: 1, uri: s("mongodb://a"), name: s("A") }];
    handle_connection(
        &mut state,
        "mongodb://a",
        ConnectionOutcome::Up { databases: None, collections: Some(vec![s("x")]) },
    );
    assert!(state.has_client);
    assert!(!state.expanded_uris.contains(&s("mongodb://a")));
    assert!(state.tree_items.is_empty());
    assert_eq!(state.popup_message, None);
}

#[test]
fn a_failed_connection_clears_what_was_known_of_it() {
    let mut state = two_connections();
    state.expanded_uris.insert(s("mongodb://a"));
    state.selected_collection = Some((s("mongodb://a"), s("shop"), s("orders")));
    state.selected_doc_index = 4;
    state.doc_scroll_offset = 4;
    state.db_to_expand = Some((s("mongodb://a"), s("shop")));
    handle_connection(&mut state, "mongodb://a", ConnectionOutcome::Failed(s("timed out")));
    assert!(!state.has_client);
    assert_eq!(state.connected_uri, None);
    assert_eq!(state.selected_collection, None);
    assert_eq!(state.selected_doc_index, 0);
    assert_eq!(state.doc_scroll_offset, 0);
    assert_eq!(state.db_to_expand, None);
    assert!(state.current_documents.is_empty());
    assert_eq!(
        state.popup_message,
        Some(s("❌ Connection failed to mongodb://a: timed out"))
    );
    assert_eq!(
        state.tree_items,
        vec![uri_item("mongodb://a", "A", false), uri_item("mongodb://b", "B", false)]
    );
}

#[test]
fn listed_collections_expand_their_database() {
    let mut state = two_connections();
    state.expanded_uris.insert(s("mongodb://a"));
    state.collection_to_load = Some((s("mongodb://a"), s("logs")));
    handle_collection_listing(&mut state, "mongodb://a", "logs", Ok(vec![s("2025")]));
    assert_eq!(state.collection_to_load, None);
    assert!(state.expanded_dbs.contains(&(s("mongodb://a"), s("logs"))));
    assert_eq!(
        state.tree_items,
        vec![
            uri_item("mongodb://a", "A", true),
            db_item("mongodb://a", "shop"),
            db_item("mongodb://a", "logs"),
            coll_item("mongodb://a", "logs", "2025"),
            uri_item("mongodb://b", "B", false),
        ]
    );
}

#[test]
fn a_failed_listing_is_reported() {
    let mut state = two_connections();
    state.collection_to_load = Some((s("mongodb://a"), s("logs")));
    handle_collection_listing(&mut state, "mongodb://a", "logs", Err(s("denied")));
    assert_eq!(state.collection_to_load, None);
    assert_eq!(
        state.popup_message,
        Some(s("Failed to list collections for mongodb://a.logs: denied"))
    );
    assert!(!state.expanded_dbs.contains(&(s("mongodb://a"), s("logs"))));
    let mut offline = AppState::default();
    offline.collection_to_load = Some((s("u"), s("d")));
    handle_collection_listing(&mut offline, "u", "d", Ok(vec![s("c")]));
    assert_eq!(offline.collection_to_load, None);
    assert!(!offline.collection_map.contains_key(&(s("u"), s("d"))));
}
