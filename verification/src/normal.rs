//! Normal mode: every key is a command.
//!
//! A deletion takes two presses of the delete key, one after the other: the
//! first arms it, the second carries it out. Any other key in between
//! disarms it.

use vstd::prelude::*;
use vstd::string::*;
use crate::app::{
    field_count, next_index, ActiveInputField, AppMode, AppState, ConnectionModel, FilePickerMode,
    FocusArea, InputContext, ItemModel, Request, RequestModel, SelectableItem, StateModel,
};
use crate::connections::{connection_line, connection_line_of};
use crate::diff::id_key;
use crate::document::{lookup, DocumentModel, ObjectId, ValueModel};
use crate::handler::rebuilt;
use crate::help::{help_scroll_limit, scroll_limit};
use crate::keys::{KeyCode, KeyEvent, KeyModifiers};
use crate::pager::{all_fetched, apply_filter_sort, denotes_document, query_for, reset_step};
use crate::text::{inner_end, inner_end_pos, same_text};
use crate::tree::{goto_collection, goto_step, invalidate_step, toggle_step};

verus! {

/// The line of the navigation list that the cursor is on.
pub open spec fn selected_item(s: StateModel) -> Option<ItemModel> {
    if s.selected_index < s.tree_items.len() {
        Some(s.tree_items[s.selected_index as int])
    } else {
        None
    }
}

/// The document that the cursor is on.
pub open spec fn selected_document(s: StateModel) -> Option<DocumentModel> {
    if s.selected_doc_index < s.current_documents.len() {
        Some(s.current_documents[s.selected_doc_index as int])
    } else {
        None
    }
}

/// The delete key, pressed alone.
pub open spec fn is_delete_key(key: KeyEvent) -> bool {
    key.code == KeyCode::Char('d') && !key.modifiers.control
}

/// Whether a deletion is armed: the key pressed last was the delete key.
pub open spec fn armed(s: StateModel) -> bool {
    s.last_key matches Some(k) && k.code == KeyCode::Char('d')
}

/// The session with no deletion armed.
pub open spec fn disarmed(s: StateModel) -> StateModel {
    StateModel { last_key: None, ..s }
}

/// The session after the deletion that its focus stands for is asked for: of
/// the collection or the database that the cursor is on, of the document
/// that the cursor is on, or of all documents that the filter matches. Where
/// there is nothing to delete, or no client, nothing is asked for.
pub open spec fn delete_step(s: StateModel) -> StateModel {
    if !s.has_client {
        s
    } else {
        match s.focus {
            FocusArea::Connections => match selected_item(s) {
                Some(ItemModel::Collection { db, name, .. }) => StateModel {
                    request: RequestModel::DropCollection { db, name },
                    ..s
                },
                Some(ItemModel::Database { uri, name }) => StateModel {
                    request: RequestModel::DropDatabase { uri, name },
                    ..s
                },
                _ => s,
            },
            FocusArea::Documents => match selected_document(s) {
                Some(doc) => match lookup(doc, id_key()) {
                    Some(ValueModel::ObjectId(id)) => match s.selected_collection {
                        Some(key) => StateModel {
                            request: RequestModel::DeleteDocument {
                                db: key.1,
                                collection: key.2,
                                id,
                            },
                            ..s
                        },
                        None => s,
                    },
                    _ => s,
                },
                None => s,
            },
            FocusArea::FilterSortInputs => match s.selected_collection {
                Some(key) => StateModel {
                    request: RequestModel::DeleteMatching {
                        db: key.1,
                        collection: key.2,
                        filter: query_for(s.filter_text, denotes_document(s.filter_text)),
                    },
                    ..s
                },
                None => s,
            },
        }
    }
}

/// The session after the field that the cursor is on is asked to be deleted.
/// The identifier field is never deleted.
pub open spec fn delete_field_step(s: StateModel) -> StateModel {
    if s.focus != FocusArea::Documents {
        s
    } else {
        match selected_document(s) {
            None => s,
            Some(doc) => if s.selected_field_index >= doc.len() {
                s
            } else {
                let field = doc[s.selected_field_index as int].key;
                if field == id_key() {
                    StateModel { popup_message: Some("❌ Cannot delete _id field."@), ..s }
                } else {
                    match lookup(doc, id_key()) {
                        Some(ValueModel::ObjectId(id)) => match s.selected_collection {
                            Some(key) => if s.has_client {
                                StateModel {
                                    request: RequestModel::DeleteField {
                                        db: key.1,
                                        collection: key.2,
                                        id,
                                        field,
                                    },
                                    ..s
                                }
                            } else {
                                s
                            },
                            None => s,
                        },
                        _ => s,
                    }
                }
            },
        }
    }
}

/// The session after the focus is moved by a control key.
pub open spec fn focus_step(s: StateModel, c: char) -> StateModel {
    if c == 'l' && s.focus == FocusArea::Connections {
        StateModel { focus: FocusArea::FilterSortInputs, ..s }
    } else if c == 'j' && s.focus == FocusArea::FilterSortInputs {
        StateModel { focus: FocusArea::Documents, ..s }
    } else if c == 'k' && s.focus == FocusArea::Documents {
        StateModel { focus: FocusArea::FilterSortInputs, ..s }
    } else if c == 'h' && (s.focus == FocusArea::Documents || s.focus
        == FocusArea::FilterSortInputs) {
        StateModel { focus: FocusArea::Connections, ..s }
    } else {
        s
    }
}

/// The session in insert mode, with `text` in the one-line text and the
/// cursor at its end.
pub open spec fn enter_insert(s: StateModel, context: InputContext, text: Seq<char>) -> StateModel {
    StateModel {
        mode: AppMode::Insert,
        input_context: context,
        input_text: text,
        cursor_position: text.len() as usize,
        ..s
    }
}

/// The other of the two query texts; the filter where none is in line.
pub open spec fn other_input(active: Option<ActiveInputField>) -> ActiveInputField {
    match active {
        Some(ActiveInputField::Filter) => ActiveInputField::Sort,
        Some(ActiveInputField::Sort) => ActiveInputField::Filter,
        None => ActiveInputField::Filter,
    }
}

pub open spec fn query_text(s: StateModel, which: ActiveInputField) -> Seq<char> {
    match which {
        ActiveInputField::Filter => s.filter_text,
        ActiveInputField::Sort => s.sort_text,
    }
}

/// The session after Tab: among the query texts, the other one is in line
/// for editing, with the cursor at the end of what can be edited in it.
pub open spec fn tab_step(s: StateModel) -> StateModel {
    if s.focus == FocusArea::FilterSortInputs {
        let which = other_input(s.active_input);
        StateModel {
            active_input: Some(which),
            cursor_position: inner_end(query_text(s, which)) as usize,
            ..s
        }
    } else {
        s
    }
}

/// The query text in line for editing, the filter where none is.
pub open spec fn current_input(s: StateModel) -> ActiveInputField {
    match s.active_input {
        Some(which) => which,
        None => ActiveInputField::Filter,
    }
}

/// The session after the command to edit a query text.
pub open spec fn edit_query_step(s: StateModel) -> StateModel {
    if s.focus == FocusArea::FilterSortInputs {
        let which = current_input(s);
        StateModel {
            active_input: Some(which),
            ..enter_insert(s, InputContext::Unset, query_text(s, which))
        }
    } else {
        s
    }
}

/// The session after Esc: messages dismissed, the one-line text and the
/// search forgotten.
pub open spec fn escape_step(s: StateModel) -> StateModel {
    StateModel {
        popup_message: None,
        popup_message_success: None,
        last_key: None,
        input_text: Seq::empty(),
        cursor_position: 0,
        collection_search_hits: Seq::empty(),
        collection_search_idx: 0,
        ..s
    }
}

/// The session after a jump to the collection found at position `idx` of the
/// last search, where there is one.
pub open spec fn goto_hit(s: StateModel, idx: usize) -> StateModel {
    let at = StateModel { collection_search_idx: idx, ..s };
    if idx < s.collection_search_hits.len() {
        let hit = s.collection_search_hits[idx as int];
        goto_step(at, hit.0, hit.1, hit.2)
    } else {
        at
    }
}

/// The session after the command for the next field or the next match.
pub open spec fn next_step(s: StateModel) -> StateModel {
    if s.focus == FocusArea::Documents {
        StateModel {
            selected_field_index: next_index(s.selected_field_index, field_count(s)),
            ..s
        }
    } else if s.focus == FocusArea::Connections && s.collection_search_hits.len() > 0 {
        goto_hit(s, next_index(s.collection_search_idx, s.collection_search_hits.len()))
    } else {
        s
    }
}

/// The session after the command for the previous field or the previous
/// match.
pub open spec fn previous_step(s: StateModel) -> StateModel {
    if s.focus == FocusArea::Documents {
        StateModel {
            selected_field_index: if s.selected_field_index > 0 {
                (s.selected_field_index - 1) as usize
            } else {
                0
            },
            ..s
        }
    } else if s.focus == FocusArea::Connections && s.collection_search_hits.len() > 0 {
        goto_hit(
            s,
            if s.collection_search_idx == 0 {
                (s.collection_search_hits.len() - 1) as usize
            } else {
                (s.collection_search_idx - 1) as usize
            },
        )
    } else {
        s
    }
}

/// The first position at or after `from` of a connection to `uri`, or the
/// length of `conns` where there is none.
pub open spec fn connection_position(conns: Seq<ConnectionModel>, uri: Seq<char>, from: int) -> int
    decreases conns.len() - from,
{
    if 0 <= from < conns.len() && conns[from].uri != uri {
        connection_position(conns, uri, from + 1)
    } else {
        from
    }
}

/// The session after the command to edit what the cursor is on: the selected
/// document in an editor outside, a stored connection or the name of a
/// collection in the one-line text.
pub open spec fn edit_step(s: StateModel) -> StateModel {
    if s.focus == FocusArea::Documents {
        match selected_document(s) {
            Some(_) => if s.selected_collection is None {
                StateModel {
                    popup_message: Some("❌ Herhangi bir koleksiyon seçili değil."@),
                    ..s
                }
            } else if !s.has_client {
                StateModel { popup_message: Some("❌ MongoDB bağlantısı yok."@), ..s }
            } else {
                StateModel { request: RequestModel::EditExternally, ..s }
            },
            None => s,
        }
    } else {
        match selected_item(s) {
            Some(ItemModel::Uri { uri, .. }) => {
                let i = connection_position(s.connections, uri, 0);
                if 0 <= i < s.connections.len() {
                    enter_insert(
                        s,
                        InputContext::ConnectionName,
                        connection_line_of(s.connections[i]),
                    )
                } else {
                    s
                }
            },
            Some(ItemModel::Collection { uri, db, name }) => StateModel {
                selected_collection: Some((uri, db, name)),
                ..enter_insert(s, InputContext::CollectionName, name)
            },
            _ => s,
        }
    }
}

/// The session after the command to export what the cursor is on.
pub open spec fn export_step(s: StateModel) -> StateModel {
    if !s.has_client {
        s
    } else {
        match selected_item(s) {
            Some(ItemModel::Collection { db, name, .. }) => StateModel {
                request: RequestModel::ExportCollection { db, name },
                ..s
            },
            Some(ItemModel::Database { name, .. }) => StateModel {
                request: RequestModel::ExportDatabase { name },
                ..s
            },
            Some(ItemModel::Uri { .. }) => StateModel {
                popup_message: Some("⚠️ Only collections or databases can be exported."@),
                ..s
            },
            None => s,
        }
    }
}

/// The session after the command to import files as collections.
pub open spec fn import_collection_step(s: StateModel) -> StateModel {
    match selected_item(s) {
        Some(ItemModel::Database { .. }) => StateModel {
            request: RequestModel::OpenFilePicker { mode: FilePickerMode::ImportCollection },
            ..s
        },
        _ => StateModel {
            popup_message: Some("❗ You must select a database to import into."@),
            ..s
        },
    }
}

/// The session after the command to import a folder as a database.
pub open spec fn import_database_step(s: StateModel) -> StateModel {
    match selected_item(s) {
        Some(ItemModel::Uri { .. }) => StateModel {
            request: RequestModel::OpenFilePicker { mode: FilePickerMode::ImportDatabase },
            ..s
        },
        _ => StateModel {
            popup_message: Some("❗ You must select a connection to import a database."@),
            ..s
        },
    }
}

/// The session after the cursor is moved down: in the help text, in the
/// navigation list or among the documents. Below the last document fetched,
/// the next page is asked for, unless all documents are known to be fetched.
pub open spec fn down_step(s: StateModel) -> StateModel {
    if s.show_help {
        if s.help_scroll + 1 < help_scroll_limit() {
            StateModel { help_scroll: (s.help_scroll + 1) as usize, ..s }
        } else {
            s
        }
    } else {
        match s.focus {
            FocusArea::Connections => if s.selected_index + 1 < s.tree_items.len() {
                StateModel { selected_index: (s.selected_index + 1) as usize, ..s }
            } else {
                s
            },
            FocusArea::Documents => if s.selected_doc_index + 1 < s.current_documents.len() {
                StateModel {
                    selected_doc_index: (s.selected_doc_index + 1) as usize,
                    doc_scroll_offset: if s.selected_doc_index >= s.doc_scroll_offset {
                        (s.doc_scroll_offset + 1) as usize
                    } else {
                        s.doc_scroll_offset
                    },
                    ..s
                }
            } else {
                match s.selected_collection {
                    Some(key) => if all_fetched(s) {
                        s
                    } else {
                        StateModel { fetch_collection_data: Some(key), ..s }
                    },
                    None => s,
                }
            },
            FocusArea::FilterSortInputs => s,
        }
    }
}

/// The session after the cursor is moved up.
pub open spec fn up_step(s: StateModel) -> StateModel {
    if s.show_help && s.help_scroll > 0 {
        StateModel { help_scroll: (s.help_scroll - 1) as usize, ..s }
    } else {
        match s.focus {
            FocusArea::Connections => if s.selected_index > 0 {
                StateModel { selected_index: (s.selected_index - 1) as usize, ..s }
            } else {
                s
            },
            FocusArea::Documents => if s.selected_doc_index > 0 {
                StateModel {
                    selected_doc_index: (s.selected_doc_index - 1) as usize,
                    doc_scroll_offset: if s.selected_doc_index - 1 < s.doc_scroll_offset {
                        (s.doc_scroll_offset - 1) as usize
                    } else {
                        s.doc_scroll_offset
                    },
                    ..s
                }
            } else {
                s
            },
            FocusArea::FilterSortInputs => s,
        }
    }
}

/// The session after the collection `name` is opened: its first page is
/// asked for, and the documents get the focus.
pub open spec fn open_collection_step(
    s: StateModel,
    uri: Seq<char>,
    db: Seq<char>,
    name: Seq<char>,
) -> StateModel {
    StateModel {
        current_documents: Seq::empty(),
        document_skip: 0,
        selected_collection: Some((uri, db, name)),
        fetch_collection_data: Some((uri, db, name)),
        focus: FocusArea::Documents,
        selected_doc_index: 0,
        doc_scroll_offset: 0,
        filter_text: "{}"@,
        sort_text: "{}"@,
        cursor_position: 1,
        selected_field_index: 0,
        ..s
    }
}

/// The session after a connection to `uri` is asked for. A connection to
/// another address that is in use is given up, with all that was known of it.
pub open spec fn connect_step(s: StateModel, uri: Seq<char>) -> StateModel {
    let switched = match s.connected_uri {
        Some(current) => if current != uri {
            invalidate_step(StateModel { has_client: false, connected_uri: None, ..s }, current)
        } else {
            s
        },
        None => s,
    };
    StateModel { connect_to: Some(uri), ..switched }
}

/// The session after Enter: the page is reset under the query texts, or what
/// the cursor is on in the navigation list is opened.
pub open spec fn enter_step(s: StateModel) -> StateModel {
    match s.focus {
        FocusArea::FilterSortInputs => reset_step(s),
        FocusArea::Connections => match selected_item(s) {
            Some(ItemModel::Uri { uri, .. }) => connect_step(s, uri),
            Some(ItemModel::Database { uri, name }) => rebuilt(
                toggle_step(s, ItemModel::Database { uri, name }),
            ),
            Some(ItemModel::Collection { uri, db, name }) => open_collection_step(s, uri, db, name),
            None => s,
        },
        FocusArea::Documents => s,
    }
}

/// The session after the command to edit the selected document as a whole:
/// its text is asked for, to open the document editor on it.
pub open spec fn ask_editor_step(s: StateModel) -> StateModel {
    if s.focus == FocusArea::Documents && selected_document(s) is Some {
        StateModel { request: RequestModel::OpenEditor, ..s }
    } else {
        s
    }
}

/// The session after the command to edit the selected field: the text of its
/// value is asked for, to open the one-line text on it. The identifier field
/// is not edited.
pub open spec fn ask_field_step(s: StateModel) -> StateModel {
    if s.focus != FocusArea::Documents {
        s
    } else {
        match selected_document(s) {
            Some(doc) => if s.selected_field_index < doc.len()
                && doc[s.selected_field_index as int].key != id_key() {
                StateModel { request: RequestModel::EditField, ..s }
            } else {
                s
            },
            None => s,
        }
    }
}

/// The session after the character `c` is pressed in normal mode, with no
/// deletion armed any more; `was_armed` says whether one was.
pub open spec fn command_step(s: StateModel, c: char, control: bool, was_armed: bool) -> StateModel {
    if c == 'q' {
        s
    } else if c == 'o' {
        enter_insert(s, InputContext::Uri, Seq::empty())
    } else if c == '?' {
        StateModel {
            show_help: !s.show_help,
            help_scroll: 0,
            current_documents: Seq::empty(),
            ..s
        }
    } else if control {
        focus_step(s, c)
    } else if c == '/' {
        if s.focus == FocusArea::Connections {
            enter_insert(s, InputContext::SearchCollections, Seq::empty())
        } else {
            s
        }
    } else if c == 'i' {
        import_collection_step(s)
    } else if c == 'f' {
        StateModel {
            request: RequestModel::OpenFilePicker { mode: FilePickerMode::RunScript },
            ..s
        }
    } else if c == 'I' {
        import_database_step(s)
    } else if c == 'd' {
        if was_armed {
            delete_step(s)
        } else {
            StateModel {
                last_key: Some(
                    KeyEvent {
                        code: KeyCode::Char('d'),
                        modifiers: KeyModifiers { control: false, shift: false, alt: false },
                    },
                ),
                ..s
            }
        }
    } else if c == 'D' {
        delete_field_step(s)
    } else if c == 'n' {
        next_step(s)
    } else if c == 'N' {
        previous_step(s)
    } else if c == 'e' {
        edit_step(s)
    } else if c == 'a' {
        edit_query_step(s)
    } else if c == 'x' {
        export_step(s)
    } else if c == 'j' {
        down_step(s)
    } else if c == 'k' {
        up_step(s)
    } else if c == 'p' {
        if s.focus == FocusArea::FilterSortInputs {
            StateModel { request: RequestModel::ReadClipboard, ..s }
        } else {
            s
        }
    } else if c == 'E' {
        ask_editor_step(s)
    } else if c == 'r' {
        ask_field_step(s)
    } else {
        s
    }
}

/// The session after a key is pressed in normal mode. Whatever the key, no
/// deletion stays armed, unless the key is the delete key and arms one.
pub open spec fn normal_step(s: StateModel, key: KeyEvent) -> StateModel {
    let was_armed = armed(s);
    let d = disarmed(s);
    match key.code {
        KeyCode::Char(c) => command_step(d, c, key.modifiers.control, was_armed),
        KeyCode::Tab => tab_step(d),
        KeyCode::Esc => escape_step(d),
        KeyCode::Down => down_step(d),
        KeyCode::Up => up_step(d),
        KeyCode::Enter => enter_step(d),
        _ => d,
    }
}

/// Whether a key pressed in normal mode ends the session.
pub open spec fn quits(key: KeyEvent) -> bool {
    key.code == KeyCode::Char('q')
}

impl AppState {
    /// The line of the navigation list that the cursor is on.
    pub fn selected_item(&self) -> (r: Option<SelectableItem>)
        ensures
            r.deep_view() == selected_item(self@),
    {
        if self.selected_index < self.tree_items.len() {
            Some(self.tree_items[self.selected_index].clone())
        } else {
            None
        }
    }

    /// The identifier of the document that the cursor is on, where it has
    /// one.
    pub fn selected_document_id(&self) -> (r: Option<ObjectId>)
        ensures
            r == match selected_document(self@) {
                Some(doc) => match lookup(doc, id_key()) {
                    Some(ValueModel::ObjectId(id)) => Some(id),
                    _ => None,
                },
                None => None,
            },
    {
        if self.selected_doc_index < self.current_documents.len() {
            self.current_documents[self.selected_doc_index].get_object_id("_id")
        } else {
            None
        }
    }

    fn enter_insert(&mut self, context: InputContext, text: String)
        ensures
            final(self)@ == enter_insert(old(self)@, context, text@),
    {
        self.mode = AppMode::Insert;
        self.input_context = context;
        self.cursor_position = text.as_str().unicode_len();
        self.input_text = text;
    }

    fn ask_delete(&mut self)
        ensures
            final(self)@ == delete_step(old(self)@),
    {
        if !self.has_client {
            return ;
        }
        match self.focus {
            FocusArea::Connections => match self.selected_item() {
                Some(SelectableItem::Collection { uri, db, name }) => {
                    self.request = Request::DropCollection { db, name };
                },
                Some(SelectableItem::Database { uri, name }) => {
                    self.request = Request::DropDatabase { uri, name };
                },
                _ => {},
            },
            FocusArea::Documents => {
                let id = match self.selected_document_id() {
                    Some(id) => id,
                    None => {
                        return ;
                    },
                };
                let key = match &self.selected_collection {
                    Some(key) => (key.1.clone(), key.2.clone()),
                    None => {
                        return ;
                    },
                };
                self.request = Request::DeleteDocument { db: key.0, collection: key.1, id };
            },
            FocusArea::FilterSortInputs => {
                let key = match &self.selected_collection {
                    Some(key) => (key.1.clone(), key.2.clone()),
                    None => {
                        return ;
                    },
                };
                let (filter, _sort) = apply_filter_sort(self.filter_text.as_str(), "");
                self.request = Request::DeleteMatching { db: key.0, collection: key.1, filter };
            },
        }
    }

    fn ask_delete_field(&mut self)
        ensures
            final(self)@ == delete_field_step(old(self)@),
    {
        if self.focus != FocusArea::Documents {
            return ;
        }
        if self.selected_doc_index >= self.current_documents.len() {
            return ;
        }
        let doc = &self.current_documents[self.selected_doc_index];
        if self.selected_field_index >= doc.fields.len() {
            return ;
        }
        let field = doc.fields[self.selected_field_index].key.clone();
        proof {
            assert(doc@[self.selected_field_index as int].key == field@);
        }
        if same_text(field.as_str(), "_id") {
            self.popup_message = Some("❌ Cannot delete _id field.".to_owned());
            return ;
        }
        let id = match doc.get_object_id("_id") {
            Some(id) => id,
            None => {
                return ;
            },
        };
        let key = match &self.selected_collection {
            Some(key) => (key.1.clone(), key.2.clone()),
            None => {
                return ;
            },
        };
        if self.has_client {
            self.request = Request::DeleteField { db: key.0, collection: key.1, id, field };
        }
    }

    fn move_focus(&mut self, c: char)
        ensures
            final(self)@ == focus_step(old(self)@, c),
    {
        if c == 'l' && self.focus == FocusArea::Connections {
            self.focus = FocusArea::FilterSortInputs;
        } else if c == 'j' && self.focus == FocusArea::FilterSortInputs {
            self.focus = FocusArea::Documents;
        } else if c == 'k' && self.focus == FocusArea::Documents {
            self.focus = FocusArea::FilterSortInputs;
        } else if c == 'h' && (self.focus == FocusArea::Documents || self.focus
            == FocusArea::FilterSortInputs) {
            self.focus = FocusArea::Connections;
        }
    }

    fn switch_input(&mut self)
        ensures
            final(self)@ == tab_step(old(self)@),
    {
        if self.focus == FocusArea::FilterSortInputs {
            let which = match self.active_input {
                Some(ActiveInputField::Filter) => ActiveInputField::Sort,
                Some(ActiveInputField::Sort) => ActiveInputField::Filter,
                None => ActiveInputField::Filter,
            };
            self.active_input = Some(which);
            self.cursor_position = match which {
                ActiveInputField::Filter => inner_end_pos(self.filter_text.as_str()),
                ActiveInputField::Sort => inner_end_pos(self.sort_text.as_str()),
            };
        }
    }

    fn edit_query(&mut self)
        ensures
            final(self)@ == edit_query_step(old(self)@),
    {
        if self.focus == FocusArea::FilterSortInputs {
            let which = match self.active_input {
                Some(which) => which,
                None => ActiveInputField::Filter,
            };
            let text = match which {
                ActiveInputField::Filter => self.filter_text.clone(),
                ActiveInputField::Sort => self.sort_text.clone(),
            };
            self.enter_insert(InputContext::Unset, text);
            self.active_input = Some(which);
        }
    }

    fn escape(&mut self)
        ensures
            final(self)@ == escape_step(old(self)@),
    {
        self.popup_message = None;
        self.popup_message_success = None;
        self.last_key = None;
        self.input_text = String::new();
        self.cursor_position = 0;
        self.collection_search_hits = Vec::new();
        self.collection_search_idx = 0;
        proof {
            assert(self@.collection_search_hits =~= Seq::empty());
        }
    }

    fn goto_hit(&mut self, idx: usize)
        ensures
            final(self)@ == goto_hit(old(self)@, idx),
    {
        self.collection_search_idx = idx;
        if idx < self.collection_search_hits.len() {
            let hit = (
                self.collection_search_hits[idx].0.clone(),
                self.collection_search_hits[idx].1.clone(),
                self.collection_search_hits[idx].2.clone(),
            );
            proof {
                assert(self@.collection_search_hits[idx as int] == (hit.0@, hit.1@, hit.2@));
            }
            goto_collection(self, hit.0.as_str(), hit.1.as_str(), hit.2.as_str());
        }
    }

    fn go_next(&mut self)
        ensures
            final(self)@ == next_step(old(self)@),
    {
        if self.focus == FocusArea::Documents {
            self.next_field();
        } else if self.focus == FocusArea::Connections && self.collection_search_hits.len() > 0 {
            let len = self.collection_search_hits.len();
            let idx = if self.collection_search_idx < usize::MAX {
                (self.collection_search_idx + 1) % len
            } else {
                0
            };
            self.goto_hit(idx);
        }
    }

    fn go_previous(&mut self)
        ensures
            final(self)@ == previous_step(old(self)@),
    {
        if self.focus == FocusArea::Documents {
            self.previous_field();
        } else if self.focus == FocusArea::Connections && self.collection_search_hits.len() > 0 {
            let idx = if self.collection_search_idx == 0 {
                self.collection_search_hits.len() - 1
            } else {
                self.collection_search_idx - 1
            };
            self.goto_hit(idx);
        }
    }

    fn find_connection(&self, uri: &str) -> (i: usize)
        ensures
            i == connection_position(self@.connections, uri@, 0),
            i <= self.connections.len(),
    {
        let mut i: usize = 0;
        while i < self.connections.len() && !same_text(self.connections[i].uri.as_str(), uri)
            invariant
                0 <= i <= self.connections.len(),
                connection_position(self@.connections, uri@, i as int) == connection_position(
                    self@.connections,
                    uri@,
                    0,
                ),
            decreases self.connections.len() - i,
        {
            i += 1;
        }
        i
    }

    fn edit_selected(&mut self)
        ensures
            final(self)@ == edit_step(old(self)@),
    {
        if self.focus == FocusArea::Documents {
            if self.selected_doc_index < self.current_documents.len() {
                if self.selected_collection.is_none() {
                    self.popup_message = Some(
                        "❌ Herhangi bir koleksiyon seçili değil.".to_owned(),
                    );
                } else if !self.has_client {
                    self.popup_message = Some("❌ MongoDB bağlantısı yok.".to_owned());
                } else {
                    self.request = Request::EditExternally;
                }
            }
        } else {
            match self.selected_item() {
                Some(SelectableItem::Uri { uri, name, connected }) => {
                    let i = self.find_connection(uri.as_str());
                    if i < self.connections.len() {
                        let line = connection_line(&self.connections[i]);
                        self.enter_insert(InputContext::ConnectionName, line);
                    }
                },
                Some(SelectableItem::Collection { uri, db, name }) => {
                    self.enter_insert(InputContext::CollectionName, name.clone());
                    self.selected_collection = Some((uri, db, name));
                },
                _ => {},
            }
        }
    }

    fn ask_export(&mut self)
        ensures
            final(self)@ == export_step(old(self)@),
    {
        if !self.has_client {
            return ;
        }
        match self.selected_item() {
            Some(SelectableItem::Collection { uri, db, name }) => {
                self.request = Request::ExportCollection { db, name };
            },
            Some(SelectableItem::Database { uri, name }) => {
                self.request = Request::ExportDatabase { name };
            },
            Some(SelectableItem::Uri { .. }) => {
                self.popup_message = Some(
                    "⚠️ Only collections or databases can be exported.".to_owned(),
                );
            },
            None => {},
        }
    }

    fn ask_import_collection(&mut self)
        ensures
            final(self)@ == import_collection_step(old(self)@),
    {
        match self.selected_item() {
            Some(SelectableItem::Database { .. }) => {
                self.request = Request::OpenFilePicker { mode: FilePickerMode::ImportCollection };
            },
            _ => {
                self.popup_message = Some(
                    "❗ You must select a database to import into.".to_owned(),
                );
            },
        }
    }

    fn ask_import_database(&mut self)
        ensures
            final(self)@ == import_database_step(old(self)@),
    {
        match self.selected_item() {
            Some(SelectableItem::Uri { .. }) => {
                self.request = Request::OpenFilePicker { mode: FilePickerMode::ImportDatabase };
            },
            _ => {
                self.popup_message = Some(
                    "❗ You must select a connection to import a database.".to_owned(),
                );
            },
        }
    }

    fn move_down(&mut self)
        ensures
            final(self)@ == down_step(old(self)@),
    {
        if self.show_help {
            let limit = scroll_limit();
            if limit > 0 && self.help_scroll < limit - 1 {
                self.help_scroll += 1;
            }
        } else {
            match self.focus {
                FocusArea::Connections => {
                    let len = self.tree_items.len();
                    if len > 0 && self.selected_index < len - 1 {
                        self.selected_index += 1;
                    }
                },
                FocusArea::Documents => {
                    let len = self.current_documents.len();
                    if len > 0 && self.selected_doc_index < len - 1 {
                        if self.selected_doc_index >= self.doc_scroll_offset {
                            self.doc_scroll_offset += 1;
                        }
                        self.selected_doc_index += 1;
                    } else {
                        let key = match &self.selected_collection {
                            Some(key) => (key.0.clone(), key.1.clone(), key.2.clone()),
                            None => {
                                return ;
                            },
                        };
                        if !self.all_fetched() {
                            self.fetch_collection_data = Some(key);
                        }
                    }
                },
                FocusArea::FilterSortInputs => {},
            }
        }
    }

    fn move_up(&mut self)
        ensures
            final(self)@ == up_step(old(self)@),
    {
        if self.show_help && self.help_scroll > 0 {
            self.help_scroll -= 1;
        } else {
            match self.focus {
                FocusArea::Connections => {
                    if self.selected_index > 0 {
                        self.selected_index -= 1;
                    }
                },
                FocusArea::Documents => {
                    if self.selected_doc_index > 0 {
                        self.selected_doc_index -= 1;
                        if self.selected_doc_index < self.doc_scroll_offset {
                            self.doc_scroll_offset -= 1;
                        }
                    }
                },
                FocusArea::FilterSortInputs => {},
            }
        }
    }

    fn open_collection(&mut self, uri: String, db: String, name: String)
        ensures
            final(self)@ == open_collection_step(old(self)@, uri@, db@, name@),
    {
        self.current_documents = Vec::new();
        self.document_skip = 0;
        self.selected_collection = Some((uri.clone(), db.clone(), name.clone()));
        self.fetch_collection_data = Some((uri, db, name));
        self.focus = FocusArea::Documents;
        self.filter_text = "{}".to_owned();
        self.sort_text = "{}".to_owned();
        self.cursor_position = 1;
        self.reset_field_index();
        proof {
            assert(self@.current_documents =~= Seq::empty());
        }
    }

    fn ask_connect(&mut self, uri: String)
        ensures
            final(self)@ == connect_step(old(self)@, uri@),
    {
        let current = self.connected_uri.clone();
        match current {
            Some(current) => {
                if !(current == uri) {
                    self.has_client = false;
                    self.connected_uri = None;
                    self.invalidate_connection(current.as_str());
                }
            },
            None => {},
        }
        self.connect_to = Some(uri);
    }

    fn open_selected(&mut self)
        ensures
            final(self)@ == enter_step(old(self)@),
    {
        match self.focus {
            FocusArea::FilterSortInputs => {
                self.reset_page();
            },
            FocusArea::Connections => match self.selected_item() {
                Some(SelectableItem::Uri { uri, name, connected }) => {
                    self.ask_connect(uri);
                },
                Some(SelectableItem::Database { uri, name }) => {
                    let node = SelectableItem::Database { uri, name };
                    self.toggle_expand(&node);
                    self.rebuild_tree_items();
                },
                Some(SelectableItem::Collection { uri, db, name }) => {
                    self.open_collection(uri, db, name);
                },
                None => {},
            },
            FocusArea::Documents => {},
        }
    }

    fn ask_editor(&mut self)
        ensures
            final(self)@ == ask_editor_step(old(self)@),
    {
        if self.focus == FocusArea::Documents && self.selected_doc_index
            < self.current_documents.len() {
            self.request = Request::OpenEditor;
        }
    }

    fn ask_field(&mut self)
        ensures
            final(self)@ == ask_field_step(old(self)@),
    {
        if self.focus != FocusArea::Documents {
            return ;
        }
        if self.selected_doc_index >= self.current_documents.len() {
            return ;
        }
        let doc = &self.current_documents[self.selected_doc_index];
        if self.selected_field_index >= doc.fields.len() {
            return ;
        }
        proof {
            assert(doc@[self.selected_field_index as int]
                == doc.fields@[self.selected_field_index as int]@);
        }
        if !same_text(doc.fields[self.selected_field_index].key.as_str(), "_id") {
            self.request = Request::EditField;
        }
    }

    fn command(&mut self, c: char, control: bool, was_armed: bool)
        ensures
            final(self)@ == command_step(old(self)@, c, control, was_armed),
    {
        if c == 'q' {
        } else if c == 'o' {
            self.enter_insert(InputContext::Uri, String::new());
        } else if c == '?' {
            self.show_help = !self.show_help;
            self.help_scroll = 0;
            self.current_documents = Vec::new();
            proof {
                assert(self@.current_documents =~= Seq::empty());
            }
        } else if control {
            self.move_focus(c);
        } else if c == '/' {
            if self.focus == FocusArea::Connections {
                self.enter_insert(InputContext::SearchCollections, String::new());
            }
        } else if c == 'i' {
            self.ask_import_collection();
        } else if c == 'f' {
            self.request = Request::OpenFilePicker { mode: FilePickerMode::RunScript };
        } else if c == 'I' {
            self.ask_import_database();
        } else if c == 'd' {
            if was_armed {
                self.ask_delete();
            } else {
                self.last_key = Some(KeyEvent::plain(KeyCode::Char('d')));
            }
        } else if c == 'D' {
            self.ask_delete_field();
        } else if c == 'n' {
            self.go_next();
        } else if c == 'N' {
            self.go_previous();
        } else if c == 'e' {
            self.edit_selected();
        } else if c == 'a' {
            self.edit_query();
        } else if c == 'x' {
            self.ask_export();
        } else if c == 'j' {
            self.move_down();
        } else if c == 'k' {
            self.move_up();
        } else if c == 'p' {
            if self.focus == FocusArea::FilterSortInputs {
                self.request = Request::ReadClipboard;
            }
        } else if c == 'E' {
            self.ask_editor();
        } else if c == 'r' {
            self.ask_field();
        }
    }
}

/// Acts on a key pressed in normal mode, and says whether the session ends.
pub fn handle_normal(key: KeyEvent, state: &mut AppState) -> (exit: bool)
    ensures
        exit == quits(key),
        final(state)@ == normal_step(old(state)@, key),
{
    let was_armed = match state.last_key {
        Some(k) => k.code == KeyCode::Char('d'),
        None => false,
    };
    state.last_key = None;
    match key.code {
        KeyCode::Char(c) => {
            state.command(c, key.modifiers.control, was_armed);
            c == 'q'
        },
        KeyCode::Tab => {
            state.switch_input();
            false
        },
        KeyCode::Esc => {
            state.escape();
            false
        },
        KeyCode::Down => {
            state.move_down();
            false
        },
        KeyCode::Up => {
            state.move_up();
            false
        },
        KeyCode::Enter => {
            state.open_selected();
            false
        },
        _ => false,
    }
}

} // verus!
