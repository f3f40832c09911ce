//! The session: everything the browser knows between two key presses.
//!
//! [`AppState`] is the one value that every handler works on. Its view,
//! [`StateModel`], holds the same fields over mathematical values; the
//! contracts of the handlers say how the view after a call follows from the
//! view before it.

use vstd::prelude::*;
use crate::collections::{KeyMap, KeySet};
use crate::diff::{Update, field_models};
use crate::document::{Document, DocumentModel, Field, FieldModel, ObjectId};
use crate::keys::KeyEvent;

verus! {

/// How key presses are read.
#[derive(Clone, Copy, Debug, PartialEq, Eq, Structural)]
pub enum AppMode {
    /// Keys are commands.
    Normal,
    /// Keys edit a one-line text.
    Insert,
    /// Keys edit the text of a whole document.
    Editor,
}

/// The pane that commands act on.
#[derive(Clone, Copy, Debug, PartialEq, Eq, Structural)]
pub enum FocusArea {
    Connections,
    Documents,
    FilterSortInputs,
}

/// Which of the two query texts is edited.
#[derive(Clone, Copy, Debug, PartialEq, Eq, Structural)]
pub enum ActiveInputField {
    Filter,
    Sort,
}

/// What the one-line text stands for while it is edited.
#[derive(Clone, Copy, Debug, PartialEq, Eq, Structural)]
pub enum InputContext {
    /// A new connection, written `address;name`.
    Uri,
    /// A stored connection, written `id;address;name`.
    ConnectionName,
    /// The new name of the selected collection.
    CollectionName,
    FieldEditEditor,
    /// A search among the collections shown.
    SearchCollections,
    /// Nothing of its own: the keys go to the filter or the sort text.
    Unset,
}

impl Default for FocusArea {
    fn default() -> (r: FocusArea)
        ensures
            r == FocusArea::Connections,
    {
        FocusArea::Connections
    }
}

impl Default for AppMode {
    fn default() -> (r: AppMode)
        ensures
            r == AppMode::Normal,
    {
        AppMode::Normal
    }
}

impl Default for InputContext {
    fn default() -> (r: InputContext)
        ensures
            r == InputContext::Unset,
    {
        InputContext::Unset
    }
}

/// One line of the navigation list.
#[derive(Debug, PartialEq, Eq)]
pub enum SelectableItem {
    Uri { uri: String, name: String, connected: bool },
    Database { uri: String, name: String },
    Collection { uri: String, db: String, name: String },
}

/// The view of a [`SelectableItem`].
pub enum ItemModel {
    Uri { uri: Seq<char>, name: Seq<char>, connected: bool },
    Database { uri: Seq<char>, name: Seq<char> },
    Collection { uri: Seq<char>, db: Seq<char>, name: Seq<char> },
}

impl DeepView for SelectableItem {
    type V = ItemModel;

    open spec fn deep_view(&self) -> ItemModel {
        match self {
            SelectableItem::Uri { uri, name, connected } => ItemModel::Uri {
                uri: uri@,
                name: name@,
                connected: *connected,
            },
            SelectableItem::Database { uri, name } => ItemModel::Database {
                uri: uri@,
                name: name@,
            },
            SelectableItem::Collection { uri, db, name } => ItemModel::Collection {
                uri: uri@,
                db: db@,
                name: name@,
            },
        }
    }
}

impl Clone for SelectableItem {
    fn clone(&self) -> (r: SelectableItem)
        ensures
            r.deep_view() == self.deep_view(),
    {
        match self {
            SelectableItem::Uri { uri, name, connected } => SelectableItem::Uri {
                uri: uri.clone(),
                name: name.clone(),
                connected: *connected,
            },
            SelectableItem::Database { uri, name } => SelectableItem::Database {
                uri: uri.clone(),
                name: name.clone(),
            },
            SelectableItem::Collection { uri, db, name } => SelectableItem::Collection {
                uri: uri.clone(),
                db: db.clone(),
                name: name.clone(),
            },
        }
    }
}

/// A stored connection.
#[derive(Debug, PartialEq, Eq)]
pub struct Connection {
    pub id: usize,
    pub uri: String,
    pub name: String,
}

/// The view of a [`Connection`].
pub struct ConnectionModel {
    pub id: usize,
    pub uri: Seq<char>,
    pub name: Seq<char>,
}

impl DeepView for Connection {
    type V = ConnectionModel;

    open spec fn deep_view(&self) -> ConnectionModel {
        ConnectionModel { id: self.id, uri: self.uri@, name: self.name@ }
    }
}

impl Clone for Connection {
    fn clone(&self) -> (r: Connection)
        ensures
            r.deep_view() == self.deep_view(),
    {
        Connection { id: self.id, uri: self.uri.clone(), name: self.name.clone() }
    }
}

impl DeepView for Document {
    type V = DocumentModel;

    open spec fn deep_view(&self) -> DocumentModel {
        self@
    }
}

/// What a file picker is opened for.
#[derive(Clone, Copy, Debug, PartialEq, Eq, Structural)]
pub enum FilePickerMode {
    ImportCollection,
    ImportDatabase,
    RunScript,
}

/// One line of a file picker.
#[derive(Debug, PartialEq, Eq)]
pub enum FileEntry {
    /// An entry of the directory shown.
    Real { path: String, name: String, is_dir: bool },
    /// The way up, to the directory at the path held.
    Parent(String),
}

/// The view of a [`FileEntry`].
pub enum FileEntryModel {
    Real { path: Seq<char>, name: Seq<char>, is_dir: bool },
    Parent(Seq<char>),
}

impl DeepView for FileEntry {
    type V = FileEntryModel;

    open spec fn deep_view(&self) -> FileEntryModel {
        match self {
            FileEntry::Real { path, name, is_dir } => FileEntryModel::Real {
                path: path@,
                name: name@,
                is_dir: *is_dir,
            },
            FileEntry::Parent(path) => FileEntryModel::Parent(path@),
        }
    }
}

/// A file picker: one directory, its entries, the line the cursor is on and
/// the files chosen so far.
#[derive(Debug)]
pub struct FilePickerState {
    pub mode: FilePickerMode,
    pub current_path: String,
    pub entries: Vec<FileEntry>,
    pub selected_index: usize,
    pub selected_files: Vec<String>,
}

/// The view of a [`FilePickerState`].
pub struct FilePickerModel {
    pub mode: FilePickerMode,
    pub current_path: Seq<char>,
    pub entries: Seq<FileEntryModel>,
    pub selected_index: usize,
    pub selected_files: Seq<Seq<char>>,
}

impl DeepView for FilePickerState {
    type V = FilePickerModel;

    open spec fn deep_view(&self) -> FilePickerModel {
        FilePickerModel {
            mode: self.mode,
            current_path: self.current_path@,
            entries: self.entries.deep_view(),
            selected_index: self.selected_index,
            selected_files: self.selected_files.deep_view(),
        }
    }
}

/// What the driving loop is asked to do next against the outside world. A
/// request stays in the session until its outcome is handed back.
#[derive(Debug)]
pub enum Request {
    /// Nothing is asked for.
    Idle,
    /// Store a new connection, then hand back the stored list.
    SaveConnection { uri: String, name: String },
    /// Store this list of connections, then hand back the stored list.
    StoreConnections { connections: Vec<Connection> },
    RenameCollection { db: String, old_name: String, new_name: String },
    /// Read the clipboard for a paste.
    ReadClipboard,
    /// Read the working directory and open a file picker on it.
    OpenFilePicker { mode: FilePickerMode },
    /// Read the directory at `path` for the open file picker.
    ReadDirectory { path: String },
    /// Import each chosen file as a collection of the database `db`.
    ImportFiles { uri: String, db: String, files: Vec<String> },
    /// Import the folder at `path` as the database `db`.
    ImportFolder { uri: String, db: String, path: String },
    RunScript { path: String },
    DropCollection { db: String, name: String },
    DropDatabase { uri: String, name: String },
    DeleteDocument { db: String, collection: String, id: ObjectId },
    /// Delete every document that the filter text matches.
    DeleteMatching { db: String, collection: String, filter: String },
    DeleteField { db: String, collection: String, id: ObjectId, field: String },
    /// Count and fetch the selected collection again, from its first document.
    Reload,
    /// Let the user edit the selected document in an editor of their own.
    EditExternally,
    /// Send one update of the document that was edited.
    ApplyUpdate { db: String, collection: String, update: Update },
    /// Write the selected document as a text and open the document editor on
    /// it.
    OpenEditor,
    /// Write the value of the selected field as a text and open the one-line
    /// text on it.
    EditField,
    /// Read the text of the document editor as a document.
    ReadEditorText,
    /// Read the one-line text as the new value of the field being edited.
    ReadFieldText,
    /// Send one update for each field, in order.
    UpdateFields { db: String, collection: String, id: ObjectId, fields: Vec<Field> },
    ExportCollection { db: String, name: String },
    ExportDatabase { name: String },
}

/// The view of a [`Request`].
pub enum RequestModel {
    Idle,
    SaveConnection { uri: Seq<char>, name: Seq<char> },
    StoreConnections { connections: Seq<ConnectionModel> },
    RenameCollection { db: Seq<char>, old_name: Seq<char>, new_name: Seq<char> },
    ReadClipboard,
    OpenFilePicker { mode: FilePickerMode },
    ReadDirectory { path: Seq<char> },
    ImportFiles { uri: Seq<char>, db: Seq<char>, files: Seq<Seq<char>> },
    ImportFolder { uri: Seq<char>, db: Seq<char>, path: Seq<char> },
    RunScript { path: Seq<char> },
    DropCollection { db: Seq<char>, name: Seq<char> },
    DropDatabase { uri: Seq<char>, name: Seq<char> },
    DeleteDocument { db: Seq<char>, collection: Seq<char>, id: ObjectId },
    DeleteMatching { db: Seq<char>, collection: Seq<char>, filter: Seq<char> },
    DeleteField { db: Seq<char>, collection: Seq<char>, id: ObjectId, field: Seq<char> },
    Reload,
    EditExternally,
    ApplyUpdate {
        db: Seq<char>,
        collection: Seq<char>,
        id: ObjectId,
        set: DocumentModel,
        unset: DocumentModel,
    },
    OpenEditor,
    EditField,
    ReadEditorText,
    ReadFieldText,
    UpdateFields {
        db: Seq<char>,
        collection: Seq<char>,
        id: ObjectId,
        fields: Seq<FieldModel>,
    },
    ExportCollection { db: Seq<char>, name: Seq<char> },
    ExportDatabase { name: Seq<char> },
}

impl DeepView for Request {
    type V = RequestModel;

    open spec fn deep_view(&self) -> RequestModel {
        match self {
            Request::Idle => RequestModel::Idle,
            Request::SaveConnection { uri, name } => RequestModel::SaveConnection {
                uri: uri@,
                name: name@,
            },
            Request::StoreConnections { connections } => RequestModel::StoreConnections {
                connections: connections.deep_view(),
            },
            Request::RenameCollection { db, old_name, new_name } => RequestModel::RenameCollection {
                db: db@,
                old_name: old_name@,
                new_name: new_name@,
            },
            Request::ReadClipboard => RequestModel::ReadClipboard,
            Request::OpenFilePicker { mode } => RequestModel::OpenFilePicker { mode: *mode },
            Request::ReadDirectory { path } => RequestModel::ReadDirectory { path: path@ },
            Request::ImportFiles { uri, db, files } => RequestModel::ImportFiles {
                uri: uri@,
                db: db@,
                files: files.deep_view(),
            },
            Request::ImportFolder { uri, db, path } => RequestModel::ImportFolder {
                uri: uri@,
                db: db@,
                path: path@,
            },
            Request::RunScript { path } => RequestModel::RunScript { path: path@ },
            Request::DropCollection { db, name } => RequestModel::DropCollection {
                db: db@,
                name: name@,
            },
            Request::DropDatabase { uri, name } => RequestModel::DropDatabase {
                uri: uri@,
                name: name@,
            },
            Request::DeleteDocument { db, collection, id } => RequestModel::DeleteDocument {
                db: db@,
                collection: collection@,
                id: *id,
            },
            Request::DeleteMatching { db, collection, filter } => RequestModel::DeleteMatching {
                db: db@,
                collection: collection@,
                filter: filter@,
            },
            Request::DeleteField { db, collection, id, field } => RequestModel::DeleteField {
                db: db@,
                collection: collection@,
                id: *id,
                field: field@,
            },
            Request::Reload => RequestModel::Reload,
            Request::EditExternally => RequestModel::EditExternally,
            Request::ApplyUpdate { db, collection, update } => RequestModel::ApplyUpdate {
                db: db@,
                collection: collection@,
                id: update.id,
                set: update.set@,
                unset: update.unset@,
            },
            Request::OpenEditor => RequestModel::OpenEditor,
            Request::EditField => RequestModel::EditField,
            Request::ReadEditorText => RequestModel::ReadEditorText,
            Request::ReadFieldText => RequestModel::ReadFieldText,
            Request::UpdateFields { db, collection, id, fields } => RequestModel::UpdateFields {
                db: db@,
                collection: collection@,
                id: *id,
                fields: field_models(fields@),
            },
            Request::ExportCollection { db, name } => RequestModel::ExportCollection {
                db: db@,
                name: name@,
            },
            Request::ExportDatabase { name } => RequestModel::ExportDatabase { name: name@ },
        }
    }
}

/// The map of the name lists' views.
pub open spec fn names_map<K>(m: Map<K, Vec<String>>) -> Map<K, Seq<Seq<char>>> {
    Map::new(|k: K| m.dom().contains(k), |k: K| m[k].deep_view())
}

/// The session.
pub struct AppState {
    /// The stored connections, in the order in which they are shown.
    pub connections: Vec<Connection>,
    /// The one-line text, or the text of the document editor.
    pub input_text: String,
    pub mode: AppMode,
    pub input_context: InputContext,
    /// The error message on show.
    pub popup_message: Option<String>,
    /// The success message on show.
    pub popup_message_success: Option<String>,
    /// The address of the connection in use.
    pub connected_uri: Option<String>,
    /// Asked for: connect to this address.
    pub connect_to: Option<String>,
    /// Whether the driving loop holds a client for the connection in use.
    pub has_client: bool,
    pub expanded_uris: KeySet<String>,
    /// The navigation list, rebuilt from the fields it is derived from.
    pub tree_items: Vec<SelectableItem>,
    pub selected_index: usize,
    pub expanded_dbs: KeySet<(String, String)>,
    /// The database names known of each connection.
    pub database_map: KeyMap<String, Vec<String>>,
    /// The collection names known of each database.
    pub collection_map: KeyMap<(String, String), Vec<String>>,
    /// Asked for: list the collections of this database.
    pub collection_to_load: Option<(String, String)>,
    /// The database to list once its connection is up.
    pub db_to_expand: Option<(String, String)>,
    /// The documents fetched so far of the selected collection.
    pub current_documents: Vec<Document>,
    pub selected_collection: Option<(String, String, String)>,
    /// Asked for: fetch the next page of this collection.
    pub fetch_collection_data: Option<(String, String, String)>,
    pub focus: FocusArea,
    pub selected_doc_index: usize,
    pub doc_scroll_offset: usize,
    /// The offset kept for the next page.
    pub document_skip: usize,
    /// The size of a page.
    pub document_limit: usize,
    pub filter_text: String,
    pub sort_text: String,
    pub active_input: Option<ActiveInputField>,
    /// The number of documents last counted in each collection.
    pub document_counts: KeyMap<(String, String, String), u64>,
    pub selected_field_index: usize,
    pub cursor_position: usize,
    pub input_graphemes: Vec<String>,
    /// The key that armed a deletion, while it is armed.
    pub last_key: Option<KeyEvent>,
    pub file_picker: Option<FilePickerState>,
    pub show_help: bool,
    pub help_scroll: usize,
    /// The collections that the last search found.
    pub collection_search_hits: Vec<(String, String, String)>,
    pub collection_search_idx: usize,
    /// Whether the screen is to be cleared before it is drawn again.
    pub redraw: bool,
    /// What the driving loop is asked to do next.
    pub request: Request,
    /// The document being edited, as it was when the edit began.
    pub editing: Option<Document>,
}

/// The view of an [`AppState`].
pub struct StateModel {
    pub connections: Seq<ConnectionModel>,
    pub input_text: Seq<char>,
    pub mode: AppMode,
    pub input_context: InputContext,
    pub popup_message: Option<Seq<char>>,
    pub popup_message_success: Option<Seq<char>>,
    pub connected_uri: Option<Seq<char>>,
    pub connect_to: Option<Seq<char>>,
    pub has_client: bool,
    pub expanded_uris: Set<Seq<char>>,
    pub tree_items: Seq<ItemModel>,
    pub selected_index: usize,
    pub expanded_dbs: Set<(Seq<char>, Seq<char>)>,
    pub database_map: Map<Seq<char>, Seq<Seq<char>>>,
    pub collection_map: Map<(Seq<char>, Seq<char>), Seq<Seq<char>>>,
    pub collection_to_load: Option<(Seq<char>, Seq<char>)>,
    pub db_to_expand: Option<(Seq<char>, Seq<char>)>,
    pub current_documents: Seq<DocumentModel>,
    pub selected_collection: Option<(Seq<char>, Seq<char>, Seq<char>)>,
    pub fetch_collection_data: Option<(Seq<char>, Seq<char>, Seq<char>)>,
    pub focus: FocusArea,
    pub selected_doc_index: usize,
    pub doc_scroll_offset: usize,
    pub document_skip: usize,
    pub document_limit: usize,
    pub filter_text: Seq<char>,
    pub sort_text: Seq<char>,
    pub active_input: Option<ActiveInputField>,
    pub document_counts: Map<(Seq<char>, Seq<char>, Seq<char>), u64>,
    pub selected_field_index: usize,
    pub cursor_position: usize,
    pub input_graphemes: Seq<Seq<char>>,
    pub last_key: Option<KeyEvent>,
    pub file_picker: Option<FilePickerModel>,
    pub show_help: bool,
    pub help_scroll: usize,
    pub collection_search_hits: Seq<(Seq<char>, Seq<char>, Seq<char>)>,
    pub collection_search_idx: usize,
    pub redraw: bool,
    pub request: RequestModel,
    pub editing: Option<DocumentModel>,
}

impl View for AppState {
    type V = StateModel;

    open spec fn view(&self) -> StateModel {
        StateModel {
            connections: self.connections.deep_view(),
            input_text: self.input_text@,
            mode: self.mode,
            input_context: self.input_context,
            popup_message: self.popup_message.deep_view(),
            popup_message_success: self.popup_message_success.deep_view(),
            connected_uri: self.connected_uri.deep_view(),
            connect_to: self.connect_to.deep_view(),
            has_client: self.has_client,
            expanded_uris: self.expanded_uris@,
            tree_items: self.tree_items.deep_view(),
            selected_index: self.selected_index,
            expanded_dbs: self.expanded_dbs@,
            database_map: names_map(self.database_map@),
            collection_map: names_map(self.collection_map@),
            collection_to_load: self.collection_to_load.deep_view(),
            db_to_expand: self.db_to_expand.deep_view(),
            current_documents: self.current_documents.deep_view(),
            selected_collection: self.selected_collection.deep_view(),
            fetch_collection_data: self.fetch_collection_data.deep_view(),
            focus: self.focus,
            selected_doc_index: self.selected_doc_index,
            doc_scroll_offset: self.doc_scroll_offset,
            document_skip: self.document_skip,
            document_limit: self.document_limit,
            filter_text: self.filter_text@,
            sort_text: self.sort_text@,
            active_input: self.active_input,
            document_counts: self.document_counts@,
            selected_field_index: self.selected_field_index,
            cursor_position: self.cursor_position,
            input_graphemes: self.input_graphemes.deep_view(),
            last_key: self.last_key,
            file_picker: self.file_picker.deep_view(),
            show_help: self.show_help,
            help_scroll: self.help_scroll,
            collection_search_hits: self.collection_search_hits.deep_view(),
            collection_search_idx: self.collection_search_idx,
            redraw: self.redraw,
            request: self.request.deep_view(),
            editing: self.editing.deep_view(),
        }
    }
}

/// The session at its start: no connection, nothing expanded, nothing
/// fetched, pages of 100 documents, the filter text in line for editing.
pub open spec fn initial_state() -> StateModel {
    StateModel {
        connections: Seq::empty(),
        input_text: Seq::empty(),
        mode: AppMode::Normal,
        input_context: InputContext::Unset,
        popup_message: None,
        popup_message_success: None,
        connected_uri: None,
        connect_to: None,
        has_client: false,
        expanded_uris: Set::empty(),
        tree_items: Seq::empty(),
        selected_index: 0,
        expanded_dbs: Set::empty(),
        database_map: Map::empty(),
        collection_map: Map::empty(),
        collection_to_load: None,
        db_to_expand: None,
        current_documents: Seq::empty(),
        selected_collection: None,
        fetch_collection_data: None,
        focus: FocusArea::Connections,
        selected_doc_index: 0,
        doc_scroll_offset: 0,
        document_skip: 0,
        document_limit: 100,
        filter_text: Seq::empty(),
        sort_text: Seq::empty(),
        active_input: Some(ActiveInputField::Filter),
        document_counts: Map::empty(),
        selected_field_index: 0,
        cursor_position: 0,
        input_graphemes: Seq::empty(),
        last_key: None,
        file_picker: None,
        show_help: false,
        help_scroll: 0,
        collection_search_hits: Seq::empty(),
        collection_search_idx: 0,
        redraw: false,
        request: RequestModel::Idle,
        editing: None,
    }
}

impl Default for AppState {
    fn default() -> (r: AppState)
        ensures
            r@ == initial_state(),
    {
        let r = AppState {
            connections: Vec::new(),
            input_text: String::new(),
            mode: AppMode::Normal,
            input_context: InputContext::Unset,
            popup_message: None,
            popup_message_success: None,
            connected_uri: None,
            connect_to: None,
            has_client: false,
            expanded_uris: KeySet::new(),
            tree_items: Vec::new(),
            selected_index: 0,
            expanded_dbs: KeySet::new(),
            database_map: KeyMap::new(),
            collection_map: KeyMap::new(),
            collection_to_load: None,
            db_to_expand: None,
            current_documents: Vec::new(),
            selected_collection: None,
            fetch_collection_data: None,
            focus: FocusArea::Connections,
            selected_doc_index: 0,
            doc_scroll_offset: 0,
            document_skip: 0,
            document_limit: 100,
            filter_text: String::new(),
            sort_text: String::new(),
            active_input: Some(ActiveInputField::Filter),
            document_counts: KeyMap::new(),
            selected_field_index: 0,
            cursor_position: 0,
            input_graphemes: Vec::new(),
            last_key: None,
            file_picker: None,
            show_help: false,
            help_scroll: 0,
            collection_search_hits: Vec::new(),
            collection_search_idx: 0,
            redraw: false,
            request: Request::Idle,
            editing: None,
        };
        proof {
            assert(r@.connections =~= Seq::empty());
            assert(r@.tree_items =~= Seq::empty());
            assert(r@.current_documents =~= Seq::empty());
            assert(r@.input_graphemes =~= Seq::empty());
            assert(r@.collection_search_hits =~= Seq::empty());
            assert(r@.database_map =~= Map::empty());
            assert(r@.collection_map =~= Map::empty());
        }
        r
    }
}

/// The number of fields of the selected document, 0 where none is selected.
pub open spec fn field_count(s: StateModel) -> nat {
    if s.selected_doc_index < s.current_documents.len() {
        s.current_documents[s.selected_doc_index as int].len()
    } else {
        0
    }
}

/// The field after `index` among `count` fields, the first after the last.
pub open spec fn next_index(index: usize, count: nat) -> usize {
    if count == 0 {
        index
    } else if index < usize::MAX {
        ((index + 1) % (count as int)) as usize
    } else {
        0
    }
}

impl AppState {
    /// The number of fields of the selected document, 0 where none is
    /// selected.
    pub fn field_count(&self) -> (n: usize)
        ensures
            n == field_count(self@),
    {
        if self.selected_doc_index < self.current_documents.len() {
            self.current_documents[self.selected_doc_index].len()
        } else {
            0
        }
    }

    /// Moves the field cursor to the next field of the selected document, and
    /// from the last field to the first.
    pub fn next_field(&mut self)
        ensures
            final(self)@ == (StateModel {
                selected_field_index: next_index(
                    old(self)@.selected_field_index,
                    field_count(old(self)@),
                ),
                ..old(self)@
            }),
    {
        let count = self.field_count();
        if count == 0 {
            return ;
        }
        if self.selected_field_index < usize::MAX {
            self.selected_field_index = (self.selected_field_index + 1) % count;
        } else {
            self.selected_field_index = 0;
        }
    }

    /// Moves the field cursor one field up, unless it is on the first.
    pub fn previous_field(&mut self)
        ensures
            final(self)@ == (StateModel {
                selected_field_index: if old(self)@.selected_field_index > 0 {
                    (old(self)@.selected_field_index - 1) as usize
                } else {
                    0
                },
                ..old(self)@
            }),
    {
        if self.selected_field_index > 0 {
            self.selected_field_index -= 1;
        }
    }

    /// Puts the document cursor, the field cursor and the scroll offset back
    /// to the start.
    pub fn reset_field_index(&mut self)
        ensures
            final(self)@ == (StateModel {
                selected_field_index: 0,
                selected_doc_index: 0,
                doc_scroll_offset: 0,
                ..old(self)@
            }),
    {
        self.selected_field_index = 0;
        self.selected_doc_index = 0;
        self.doc_scroll_offset = 0;
    }
}

} // verus!
