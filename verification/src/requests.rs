//! Folding in the outcome of what the session asked the driving loop to do.
//!
//! A request stays in the session while the driving loop works on it. Each
//! function here takes the outcome of one kind of request, reports it, and
//! says what is to be done next.

use vstd::prelude::*;
use vstd::string::*;
use crate::app::{
    ActiveInputField, AppMode, AppState, Connection, ConnectionModel, FileEntry, FileEntryModel,
    FilePickerMode, FilePickerModel, FilePickerState, Request, RequestModel, StateModel,
};
use crate::diff::{apply_edited_document, error_text, kept_id, set_fields, unset_fields};
use crate::document::{Document, DocumentModel};
use crate::filepicker::picker_enter;
use crate::handler::rebuilt;
use crate::insert::{
    clamped, edit_target, leave_insert, target_text, with_target_text, EditTarget,
};
use crate::normal::{current_input, query_text, selected_document};
use crate::pager::capped_sum;
use crate::text::{clamp_cursor, decimal, decimal_text, join, same_text, trim, trimmed};

verus! {

/// The outcome of a request that hands nothing back, over mathematical
/// values.
pub open spec fn done_model(r: Result<(), String>) -> Result<(), Seq<char>> {
    match r {
        Ok(_) => Ok(()),
        Err(e) => Err(e@),
    }
}

/// The outcome of a request that hands a text back, over mathematical values.
pub open spec fn text_model(r: Result<String, String>) -> Result<Seq<char>, Seq<char>> {
    match r {
        Ok(t) => Ok(t@),
        Err(e) => Err(e@),
    }
}

pub open spec fn connections_model(r: Result<Vec<Connection>, String>) -> Result<
    Seq<ConnectionModel>,
    Seq<char>,
> {
    match r {
        Ok(list) => Ok(list.deep_view()),
        Err(e) => Err(e@),
    }
}

pub open spec fn document_model(r: Result<Document, String>) -> Result<DocumentModel, Seq<char>> {
    match r {
        Ok(d) => Ok(d@),
        Err(e) => Err(e@),
    }
}

pub open spec fn listing_model(r: Result<(String, Vec<FileEntry>), String>) -> Result<
    (Seq<char>, Seq<FileEntryModel>),
    Seq<char>,
> {
    match r {
        Ok(l) => Ok((l.0@, l.1.deep_view())),
        Err(e) => Err(e@),
    }
}

/// The session with the request dropped.
pub open spec fn idle(s: StateModel) -> StateModel {
    StateModel { request: RequestModel::Idle, ..s }
}

/// The session with a success on show.
pub open spec fn succeeded(s: StateModel, message: Seq<char>) -> StateModel {
    StateModel { popup_message_success: Some(message), ..s }
}

/// The session with a failure on show.
pub open spec fn failed(s: StateModel, message: Seq<char>) -> StateModel {
    StateModel { popup_message: Some(message), ..s }
}

/// The session back in normal mode after the document editor is left.
pub open spec fn leave_editor(s: StateModel) -> StateModel {
    StateModel {
        mode: AppMode::Normal,
        input_text: Seq::empty(),
        cursor_position: 0,
        editing: None,
        ..s
    }
}

pub open spec fn saved_externally() -> Seq<char> {
    "Dış editör değişiklikleri kaydedildi ve DB güncellendi ✅"@
}

/// The documents with the one that the cursor is on replaced by `doc`.
pub open spec fn with_selected_document(s: StateModel, doc: DocumentModel) -> StateModel {
    if s.selected_doc_index < s.current_documents.len() {
        StateModel {
            current_documents: s.current_documents.update(s.selected_doc_index as int, doc),
            ..s
        }
    } else {
        s
    }
}

/// The session after a collection is dropped, or not.
pub open spec fn collection_dropped(
    done: StateModel,
    db: Seq<char>,
    name: Seq<char>,
    result: Result<(), Seq<char>>,
) -> StateModel {
    match result {
        Ok(_) => StateModel {
            collection_to_load: match done.connected_uri {
                Some(uri) => Some((uri, db)),
                None => done.collection_to_load,
            },
            ..succeeded(done, "✅ Deleted collection: "@ + name)
        },
        Err(e) => failed(done, "❌ Failed to delete collection: "@ + e),
    }
}

/// The session after a database is dropped, or not.
pub open spec fn database_dropped(
    done: StateModel,
    uri: Seq<char>,
    name: Seq<char>,
    result: Result<(), Seq<char>>,
) -> StateModel {
    match result {
        Ok(_) => StateModel {
            db_to_expand: Some((uri, name)),
            ..succeeded(done, "✅ Deleted database: "@ + name)
        },
        Err(e) => failed(done, "❌ Failed to delete database: "@ + e),
    }
}

/// The session after documents or a field are deleted, or not: after a
/// success the documents are asked to be loaded anew.
pub open spec fn documents_deleted(
    done: StateModel,
    success: Seq<char>,
    failure: Seq<char>,
    result: Result<(), Seq<char>>,
) -> StateModel {
    match result {
        Ok(_) => StateModel { request: RequestModel::Reload, ..succeeded(done, success) },
        Err(e) => failed(done, failure + e),
    }
}

/// The session after the selected collection is renamed, or not.
pub open spec fn collection_renamed(done: StateModel, result: Result<(), Seq<char>>) -> StateModel {
    match result {
        Ok(_) => leave_insert(
            StateModel {
                collection_to_load: match done.selected_collection {
                    Some(key) => Some((key.0, key.1)),
                    None => done.collection_to_load,
                },
                ..done
            },
        ),
        Err(e) => leave_insert(failed(done, "❌ Rename failed: "@ + e)),
    }
}

/// The session after a folder is imported as a database, or not.
pub open spec fn folder_imported(
    done: StateModel,
    uri: Seq<char>,
    db: Seq<char>,
    result: Result<(), Seq<char>>,
) -> StateModel {
    match result {
        Ok(_) => StateModel {
            collection_to_load: Some((uri, db)),
            ..succeeded(done, "✅ Imported folder as database '"@ + db + "'"@)
        },
        Err(e) => failed(done, "❌ Import failed: "@ + e),
    }
}

/// The session after the update of an edited document is sent, or not: after
/// a success the edited document takes the place of the original.
pub open spec fn update_applied(done: StateModel, result: Result<(), Seq<char>>) -> StateModel {
    let closed = StateModel { redraw: true, editing: None, ..done };
    match result {
        Ok(_) => match done.editing {
            Some(doc) => succeeded(with_selected_document(closed, doc), saved_externally()),
            None => succeeded(closed, saved_externally()),
        },
        Err(e) => failed(closed, "❌ "@ + e),
    }
}

/// The session after the field updates of an edit are sent, or not: after a
/// success the edit is over, normal mode is back and the documents are asked
/// to be loaded anew.
pub open spec fn fields_updated(done: StateModel, result: Result<(), Seq<char>>) -> StateModel {
    match result {
        Ok(_) => StateModel {
            request: RequestModel::Reload,
            ..leave_insert(leave_editor(succeeded(done, "✅ Document updated"@)))
        },
        Err(e) => failed(done, "❌ Update failed: "@ + e),
    }
}

/// The session after the outcome of a change to the store is folded in.
///
/// A success is reported and followed by what keeps the session in step with
/// the store: the collections of the database are listed again after a
/// collection is dropped, renamed or imported, and the documents are loaded
/// anew after documents or fields are deleted or updated. A failure is
/// reported and changes nothing else.
pub open spec fn mutation_step(s: StateModel, result: Result<(), Seq<char>>) -> StateModel {
    let done = idle(s);
    match s.request {
        RequestModel::DropCollection { db, name } => collection_dropped(done, db, name, result),
        RequestModel::DropDatabase { uri, name } => database_dropped(done, uri, name, result),
        RequestModel::DeleteDocument { .. } => documents_deleted(
            done,
            "✅ Document deleted"@,
            "❌ Failed to delete document: "@,
            result,
        ),
        RequestModel::DeleteMatching { .. } => documents_deleted(
            done,
            "✅ Filtered documents deleted"@,
            "❌ Failed to delete filtered documents: "@,
            result,
        ),
        RequestModel::DeleteField { field, .. } => documents_deleted(
            done,
            "✅ Deleted field: "@ + field,
            "❌ Failed to delete field: "@,
            result,
        ),
        RequestModel::RenameCollection { .. } => collection_renamed(done, result),
        RequestModel::ImportFolder { uri, db, .. } => folder_imported(done, uri, db, result),
        RequestModel::ApplyUpdate { .. } => update_applied(done, result),
        RequestModel::UpdateFields { .. } => fields_updated(done, result),
        _ => done,
    }
}

/// The session after the outcome of storing connections is folded in: the
/// stored list takes the place of the connections and insert mode is left.
/// A new connection that could not be stored is dropped without a word; a
/// list that could not be stored is reported and the text stays.
pub open spec fn connections_step(
    s: StateModel,
    stored: Result<Seq<ConnectionModel>, Seq<char>>,
) -> StateModel {
    let done = idle(s);
    match s.request {
        RequestModel::SaveConnection { .. } => match stored {
            Ok(list) => leave_insert(
                rebuilt(
                    StateModel {
                        connections: list,
                        popup_message: None,
                        popup_message_success: None,
                        ..done
                    },
                ),
            ),
            Err(_) => leave_insert(done),
        },
        RequestModel::StoreConnections { .. } => match stored {
            Ok(list) => leave_insert(rebuilt(StateModel { connections: list, ..done })),
            Err(e) => failed(done, e),
        },
        _ => done,
    }
}

/// `text` without the line feed at its end, where it ends with one.
pub open spec fn chomped(text: Seq<char>) -> Seq<char> {
    if text.len() > 0 && text.last() == '\n' {
        text.drop_last()
    } else {
        text
    }
}

/// The session after the clipboard is read for a paste.
///
/// In insert mode the text is put in at the cursor, which moves behind it;
/// in normal mode it is appended to the query text in line, and the cursor
/// is put at the end. One line feed at the end of the clipboard is dropped.
/// A clipboard that cannot be read is reported.
pub open spec fn paste_step(s: StateModel, clip: Result<Seq<char>, Seq<char>>) -> StateModel {
    let done = idle(s);
    if s.request != RequestModel::ReadClipboard {
        done
    } else if s.mode == AppMode::Insert {
        match clip {
            Ok(raw) => {
                let text = chomped(raw);
                let t = edit_target(s);
                if t == EditTarget::Nothing {
                    done
                } else {
                    let old_text = target_text(s, t);
                    let pos = clamped(s.cursor_position, old_text.len());
                    StateModel {
                        cursor_position: capped_sum(pos, text.len() as usize),
                        ..with_target_text(
                            done,
                            t,
                            old_text.subrange(0, pos as int) + text + old_text.subrange(
                                pos as int,
                                old_text.len() as int,
                            ),
                        )
                    }
                }
            },
            Err(_) => failed(done, "❌ Pano okunamadı (Ctrl+V)"@),
        }
    } else {
        match clip {
            Ok(raw) => {
                let which = current_input(s);
                let text = query_text(s, which) + chomped(raw);
                let pasted = match which {
                    ActiveInputField::Filter => StateModel { filter_text: text, ..done },
                    ActiveInputField::Sort => StateModel { sort_text: text, ..done },
                };
                StateModel { cursor_position: text.len() as usize, ..pasted }
            },
            Err(e) => failed(done, "❌ Yapıştırma başarısız: "@ + e),
        }
    }
}

/// The session after an export is folded in: the place it went to is
/// reported, or the failure.
pub open spec fn export_step(s: StateModel, result: Result<Seq<char>, Seq<char>>) -> StateModel {
    let done = idle(s);
    match s.request {
        RequestModel::ExportCollection { .. } => match result {
            Ok(path) => succeeded(done, "✅ Exported collection: "@ + path),
            Err(e) => failed(done, "❌ Export failed: "@ + e),
        },
        RequestModel::ExportDatabase { .. } => match result {
            Ok(path) => succeeded(done, "✅ Exported database to: "@ + path),
            Err(e) => failed(done, "❌ Export failed: "@ + e),
        },
        _ => done,
    }
}

/// The name of the file that a collection is exported to.
pub open spec fn export_name(db: Seq<char>, name: Seq<char>) -> Seq<char> {
    db + "_"@ + name + ".json"@
}

/// The session after the working directory is read for a file picker: the
/// picker is opened on it, and for an import the documents on show are
/// dropped. A directory that cannot be read is reported.
pub open spec fn picker_opened_step(
    s: StateModel,
    opened: Result<(Seq<char>, Seq<FileEntryModel>), Seq<char>>,
) -> StateModel {
    let done = idle(s);
    match s.request {
        RequestModel::OpenFilePicker { mode } => match opened {
            Ok(listing) => {
                let open = StateModel {
                    file_picker: Some(
                        FilePickerModel {
                            mode,
                            current_path: listing.0,
                            entries: listing.1,
                            selected_index: 0,
                            selected_files: Seq::empty(),
                        },
                    ),
                    ..done
                };
                if mode == FilePickerMode::RunScript {
                    open
                } else {
                    StateModel { current_documents: Seq::empty(), ..open }
                }
            },
            Err(e) => failed(done, "❌ Failed to open file picker: "@ + e),
        },
        _ => done,
    }
}

/// The session after a directory is read for the open file picker: the picker
/// enters it. A directory that cannot be read leaves the picker where it is.
pub open spec fn directory_step(
    s: StateModel,
    entries: Option<Seq<FileEntryModel>>,
) -> StateModel {
    let done = idle(s);
    match s.request {
        RequestModel::ReadDirectory { path } => match s.file_picker {
            Some(p) => StateModel { file_picker: Some(picker_enter(p, path, entries)), ..done },
            None => done,
        },
        _ => done,
    }
}

pub open spec fn imported(success: usize, failed: usize) -> Seq<char> {
    "📥 Imported: "@ + decimal(success as nat) + " ✅ | ❌ Failed: "@ + decimal(failed as nat)
}

/// The session after files are imported as collections: the numbers are
/// reported and the collections of the database are listed again.
pub open spec fn import_step(s: StateModel, success: usize, failed: usize) -> StateModel {
    let done = idle(s);
    match s.request {
        RequestModel::ImportFiles { uri, db, .. } => StateModel {
            collection_to_load: Some((uri, db)),
            ..succeeded(done, imported(success, failed))
        },
        _ => done,
    }
}

/// What running a script came to, over mathematical values: `Ok(None)` for a
/// script that ran well, `Ok(Some(..))` with what a script that failed wrote
/// as its errors, `Err(..)` for a script that could not be run.
pub open spec fn script_model(r: Result<Option<String>, String>) -> Result<
    Option<Seq<char>>,
    Seq<char>,
> {
    match r {
        Ok(out) => Ok(out.deep_view()),
        Err(e) => Err(e@),
    }
}

pub open spec fn script_step(
    s: StateModel,
    result: Result<Option<Seq<char>>, Seq<char>>,
) -> StateModel {
    let done = idle(s);
    match s.request {
        RequestModel::RunScript { .. } => match result {
            Ok(None) => succeeded(done, "✅ Script executed successfully."@),
            Ok(Some(errors)) => failed(done, "❌ Script failed: "@ + errors),
            Err(e) => failed(done, "❌ Failed to run script: "@ + e),
        },
        _ => done,
    }
}

/// The session after the selected document comes back from an editor
/// outside.
///
/// `initial` is the text that was given to the editor, `edited` the text that
/// came back, `parsed` the document that `edited` denotes or the reason why it
/// denotes none. A text that did not change, white space at its ends aside,
/// changes nothing. A text that is no document, or a document without the
/// identifier of the original, is refused. A document that differs from the
/// original is asked to be sent as one update; one that does not takes the
/// place of the original at once.
pub open spec fn external_edit_step(
    s: StateModel,
    initial: Seq<char>,
    edited: Seq<char>,
    parsed: Result<DocumentModel, Seq<char>>,
) -> StateModel {
    let done = StateModel { redraw: true, ..idle(s) };
    if s.request != RequestModel::EditExternally {
        idle(s)
    } else if trimmed(edited) == trimmed(initial) {
        succeeded(done, "Kaydedildi (değişiklik yok)."@)
    } else {
        match selected_document(s) {
            None => failed(done, "❌ Herhangi bir doküman seçili değil."@),
            Some(original) => match s.selected_collection {
                None => failed(done, "❌ Herhangi bir koleksiyon seçili değil."@),
                Some(key) => match parsed {
                    Err(reason) => failed(done, "❌ "@ + reason),
                    Ok(doc) => match kept_id(original, doc) {
                        Err(e) => failed(done, "❌ "@ + error_text(e)),
                        Ok(id) => {
                            let set = set_fields(original, doc);
                            let unset = unset_fields(original, doc);
                            if set.len() == 0 && unset.len() == 0 {
                                succeeded(with_selected_document(done, doc), saved_externally())
                            } else {
                                StateModel {
                                    request: RequestModel::ApplyUpdate {
                                        db: key.1,
                                        collection: key.2,
                                        id,
                                        set,
                                        unset,
                                    },
                                    editing: Some(doc),
                                    ..done
                                }
                            }
                        },
                    },
                },
            },
        }
    }
}

/// `text` without the line feed at its end, where it ends with one.
pub fn chomp(text: &str) -> (r: &str)
    ensures
        r@ == chomped(text@),
{
    let n = text.unicode_len();
    if n > 0 && text.get_char(n - 1) == '\n' {
        text.substring_char(0, n - 1)
    } else {
        text
    }
}

/// The name of the file that the collection `name` of the database `db` is
/// exported to.
pub fn export_file_name(db: &str, name: &str) -> (r: String)
    ensures
        r@ == export_name(db@, name@),
{
    let mut r = db.to_owned();
    r.append("_");
    r.append(name);
    r.append(".json");
    r
}

impl AppState {
    fn succeed(&mut self, message: String)
        ensures
            final(self)@ == succeeded(old(self)@, message@),
    {
        self.popup_message_success = Some(message);
    }

    fn fail(&mut self, message: String)
        ensures
            final(self)@ == failed(old(self)@, message@),
    {
        self.popup_message = Some(message);
    }

    /// Goes back to normal mode from the document editor and discards its
    /// text.
    pub fn leave_editor(&mut self)
        ensures
            final(self)@ == leave_editor(old(self)@),
    {
        self.mode = AppMode::Normal;
        self.input_text = String::new();
        self.cursor_position = 0;
        self.editing = None;
    }

    fn replace_selected_document(&mut self, doc: Document)
        ensures
            final(self)@ == with_selected_document(old(self)@, doc@),
    {
        if self.selected_doc_index < self.current_documents.len() {
            let ghost before = self.current_documents.deep_view();
            let ghost d = doc@;
            self.current_documents.set(self.selected_doc_index, doc);
            proof {
                assert(self.current_documents.deep_view() =~= before.update(
                    self.selected_doc_index as int,
                    d,
                ));
            }
        }
    }

    /// Gives up the request at hand for the reason given, which is reported.
    pub fn fail_request(&mut self, reason: &str)
        ensures
            final(self)@ == failed(idle(old(self)@), "❌ "@ + reason@),
    {
        self.request = Request::Idle;
        self.fail(join("❌ ", reason));
    }

    fn finish_drop_collection(&mut self, db: String, name: String, result: Result<(), String>)
        ensures
            final(self)@ == collection_dropped(old(self)@, db@, name@, done_model(result)),
    {
        match result {
            Ok(_) => {
                self.succeed(join("✅ Deleted collection: ", name.as_str()));
                match &self.connected_uri {
                    Some(uri) => {
                        self.collection_to_load = Some((uri.clone(), db));
                    },
                    None => {},
                }
            },
            Err(e) => {
                self.fail(join("❌ Failed to delete collection: ", e.as_str()));
            },
        }
    }

    fn finish_drop_database(&mut self, uri: String, name: String, result: Result<(), String>)
        ensures
            final(self)@ == database_dropped(old(self)@, uri@, name@, done_model(result)),
    {
        match result {
            Ok(_) => {
                self.succeed(join("✅ Deleted database: ", name.as_str()));
                self.db_to_expand = Some((uri, name));
            },
            Err(e) => {
                self.fail(join("❌ Failed to delete database: ", e.as_str()));
            },
        }
    }

    fn finish_delete(&mut self, success: String, failure: &str, result: Result<(), String>)
        ensures
            final(self)@ == documents_deleted(old(self)@, success@, failure@, done_model(result)),
    {
        match result {
            Ok(_) => {
                self.succeed(success);
                self.request = Request::Reload;
            },
            Err(e) => {
                self.fail(join(failure, e.as_str()));
            },
        }
    }

    fn finish_rename(&mut self, result: Result<(), String>)
        ensures
            final(self)@ == collection_renamed(old(self)@, done_model(result)),
    {
        match result {
            Ok(_) => {
                match &self.selected_collection {
                    Some(key) => {
                        self.collection_to_load = Some((key.0.clone(), key.1.clone()));
                    },
                    None => {},
                }
            },
            Err(e) => {
                self.fail(join("❌ Rename failed: ", e.as_str()));
            },
        }
        self.leave_insert();
    }

    fn finish_import_folder(&mut self, uri: String, db: String, result: Result<(), String>)
        ensures
            final(self)@ == folder_imported(old(self)@, uri@, db@, done_model(result)),
    {
        match result {
            Ok(_) => {
                let mut m = "✅ Imported folder as database '".to_owned();
                m.append(db.as_str());
                m.append("'");
                self.succeed(m);
                self.collection_to_load = Some((uri, db));
            },
            Err(e) => {
                self.fail(join("❌ Import failed: ", e.as_str()));
            },
        }
    }

    fn finish_update(&mut self, result: Result<(), String>)
        ensures
            final(self)@ == update_applied(old(self)@, done_model(result)),
    {
        self.redraw = true;
        let mut edited: Option<Document> = None;
        std::mem::swap(&mut self.editing, &mut edited);
        match result {
            Ok(_) => {
                match edited {
                    Some(doc) => {
                        self.replace_selected_document(doc);
                    },
                    None => {},
                }
                self.succeed(
                    "Dış editör değişiklikleri kaydedildi ve DB güncellendi ✅".to_owned(),
                );
            },
            Err(e) => {
                self.fail(join("❌ ", e.as_str()));
            },
        }
    }

    fn finish_field_updates(&mut self, result: Result<(), String>)
        ensures
            final(self)@ == fields_updated(old(self)@, done_model(result)),
    {
        match result {
            Ok(_) => {
                self.succeed("✅ Document updated".to_owned());
                self.leave_editor();
                self.leave_insert();
                self.request = Request::Reload;
            },
            Err(e) => {
                self.fail(join("❌ Update failed: ", e.as_str()));
            },
        }
    }

    /// Folds in the outcome of a change to the store.
    pub fn finish_mutation(&mut self, result: Result<(), String>)
        ensures
            final(self)@ == mutation_step(old(self)@, done_model(result)),
    {
        let mut request = Request::Idle;
        std::mem::swap(&mut self.request, &mut request);
        match request {
            Request::DropCollection { db, name } => {
                self.finish_drop_collection(db, name, result);
            },
            Request::DropDatabase { uri, name } => {
                self.finish_drop_database(uri, name, result);
            },
            Request::DeleteDocument { .. } => {
                self.finish_delete(
                    "✅ Document deleted".to_owned(),
                    "❌ Failed to delete document: ",
                    result,
                );
            },
            Request::DeleteMatching { .. } => {
                self.finish_delete(
                    "✅ Filtered documents deleted".to_owned(),
                    "❌ Failed to delete filtered documents: ",
                    result,
                );
            },
            Request::DeleteField { field, .. } => {
                self.finish_delete(
                    join("✅ Deleted field: ", field.as_str()),
                    "❌ Failed to delete field: ",
                    result,
                );
            },
            Request::RenameCollection { .. } => {
                self.finish_rename(result);
            },
            Request::ImportFolder { uri, db, .. } => {
                self.finish_import_folder(uri, db, result);
            },
            Request::ApplyUpdate { .. } => {
                self.finish_update(result);
            },
            Request::UpdateFields { .. } => {
                self.finish_field_updates(result);
            },
            _ => {},
        }
    }

    /// Folds in the outcome of storing connections: the list as it is stored
    /// now, or the reason why it could not be stored.
    pub fn finish_connections(&mut self, stored: Result<Vec<Connection>, String>)
        ensures
            final(self)@ == connections_step(old(self)@, connections_model(stored)),
    {
        let mut request = Request::Idle;
        std::mem::swap(&mut self.request, &mut request);
        match request {
            Request::SaveConnection { .. } => {
                match stored {
                    Ok(list) => {
                        self.connections = list;
                        self.popup_message = None;
                        self.popup_message_success = None;
                        self.rebuild_tree_items();
                    },
                    Err(_) => {},
                }
                self.leave_insert();
            },
            Request::StoreConnections { .. } => match stored {
                Ok(list) => {
                    self.connections = list;
                    self.rebuild_tree_items();
                    self.leave_insert();
                },
                Err(e) => {
                    self.fail(e);
                },
            },
            _ => {},
        }
    }

    /// Folds in what the clipboard held, or the reason why it could not be
    /// read.
    pub fn finish_paste(&mut self, clip: Result<String, String>)
        ensures
            final(self)@ == paste_step(old(self)@, text_model(clip)),
    {
        let mut request = Request::Idle;
        std::mem::swap(&mut self.request, &mut request);
        match request {
            Request::ReadClipboard => {},
            _ => {
                return ;
            },
        }
        if self.mode == AppMode::Insert {
            match clip {
                Ok(raw) => {
                    let text = chomp(raw.as_str());
                    let t = self.edit_target();
                    if t == EditTarget::Nothing {
                        return ;
                    }
                    let old_text = self.target_text(t);
                    let len = old_text.unicode_len();
                    let pos = clamp_cursor(self.cursor_position, old_text);
                    let mut pasted = old_text.substring_char(0, pos).to_owned();
                    pasted.append(text);
                    pasted.append(old_text.substring_char(pos, len));
                    self.set_target_text(t, pasted);
                    self.cursor_position = pos.saturating_add(text.unicode_len());
                },
                Err(_) => {
                    self.fail("❌ Pano okunamadı (Ctrl+V)".to_owned());
                },
            }
        } else {
            match clip {
                Ok(raw) => {
                    let text = chomp(raw.as_str());
                    let which = match self.active_input {
                        Some(which) => which,
                        None => ActiveInputField::Filter,
                    };
                    match which {
                        ActiveInputField::Filter => {
                            self.filter_text.append(text);
                            self.cursor_position = self.filter_text.as_str().unicode_len();
                        },
                        ActiveInputField::Sort => {
                            self.sort_text.append(text);
                            self.cursor_position = self.sort_text.as_str().unicode_len();
                        },
                    }
                },
                Err(e) => {
                    self.fail(join("❌ Yapıştırma başarısız: ", e.as_str()));
                },
            }
        }
    }

    /// Folds in the outcome of an export: the place it went to, or the reason
    /// why it failed.
    pub fn finish_export(&mut self, result: Result<String, String>)
        ensures
            final(self)@ == export_step(old(self)@, text_model(result)),
    {
        let mut request = Request::Idle;
        std::mem::swap(&mut self.request, &mut request);
        match request {
            Request::ExportCollection { .. } => match result {
                Ok(path) => {
                    self.succeed(join("✅ Exported collection: ", path.as_str()));
                },
                Err(e) => {
                    self.fail(join("❌ Export failed: ", e.as_str()));
                },
            },
            Request::ExportDatabase { .. } => match result {
                Ok(path) => {
                    self.succeed(join("✅ Exported database to: ", path.as_str()));
                },
                Err(e) => {
                    self.fail(join("❌ Export failed: ", e.as_str()));
                },
            },
            _ => {},
        }
    }

    /// Folds in the working directory read for a file picker: its path and
    /// its entries, or the reason why it could not be read.
    pub fn finish_file_picker(&mut self, opened: Result<(String, Vec<FileEntry>), String>)
        ensures
            final(self)@ == picker_opened_step(old(self)@, listing_model(opened)),
    {
        let mut request = Request::Idle;
        std::mem::swap(&mut self.request, &mut request);
        match request {
            Request::OpenFilePicker { mode } => match opened {
                Ok(listing) => {
                    self.file_picker = Some(FilePickerState::new(mode, listing.0, listing.1));
                    if mode != FilePickerMode::RunScript {
                        self.current_documents = Vec::new();
                        proof {
                            assert(self@.current_documents =~= Seq::empty());
                        }
                    }
                },
                Err(e) => {
                    self.fail(join("❌ Failed to open file picker: ", e.as_str()));
                },
            },
            _ => {},
        }
    }

    /// Folds in the entries of the directory that the file picker asked for,
    /// or `None` where it could not be read.
    pub fn finish_directory(&mut self, entries: Option<Vec<FileEntry>>)
        ensures
            final(self)@ == directory_step(old(self)@, entries.deep_view()),
    {
        let mut request = Request::Idle;
        std::mem::swap(&mut self.request, &mut request);
        match request {
            Request::ReadDirectory { path } => match &mut self.file_picker {
                Some(picker) => {
                    picker.enter_directory(path, entries);
                },
                None => {},
            },
            _ => {},
        }
    }

    /// Folds in an import of files as collections: how many went well and how
    /// many did not.
    pub fn finish_import(&mut self, success: usize, failed: usize)
        ensures
            final(self)@ == import_step(old(self)@, success, failed),
    {
        let mut request = Request::Idle;
        std::mem::swap(&mut self.request, &mut request);
        match request {
            Request::ImportFiles { uri, db, .. } => {
                let mut m = "📥 Imported: ".to_owned();
                m.append(decimal_text(success as u64).as_str());
                m.append(" ✅ | ❌ Failed: ");
                m.append(decimal_text(failed as u64).as_str());
                self.succeed(m);
                self.collection_to_load = Some((uri, db));
            },
            _ => {},
        }
    }

    /// Folds in what running a script came to.
    pub fn finish_script(&mut self, result: Result<Option<String>, String>)
        ensures
            final(self)@ == script_step(old(self)@, script_model(result)),
    {
        let mut request = Request::Idle;
        std::mem::swap(&mut self.request, &mut request);
        match request {
            Request::RunScript { .. } => match result {
                Ok(None) => {
                    self.succeed("✅ Script executed successfully.".to_owned());
                },
                Ok(Some(errors)) => {
                    self.fail(join("❌ Script failed: ", errors.as_str()));
                },
                Err(e) => {
                    self.fail(join("❌ Failed to run script: ", e.as_str()));
                },
            },
            _ => {},
        }
    }

    /// Folds in the selected document as it comes back from an editor
    /// outside.
    pub fn finish_external_edit(
        &mut self,
        initial: &str,
        edited: &str,
        parsed: Result<Document, String>,
    )
        ensures
            final(self)@ == external_edit_step(
                old(self)@,
                initial@,
                edited@,
                document_model(parsed),
            ),
    {
        let mut request = Request::Idle;
        std::mem::swap(&mut self.request, &mut request);
        match request {
            Request::EditExternally => {},
            _ => {
                return ;
            },
        }
        self.redraw = true;
        if same_text(trim(edited), trim(initial)) {
            self.succeed("Kaydedildi (değişiklik yok).".to_owned());
            return ;
        }
        if self.selected_doc_index >= self.current_documents.len() {
            self.fail("❌ Herhangi bir doküman seçili değil.".to_owned());
            return ;
        }
        let key = match &self.selected_collection {
            Some(key) => (key.1.clone(), key.2.clone()),
            None => {
                self.fail("❌ Herhangi bir koleksiyon seçili değil.".to_owned());
                return ;
            },
        };
        let doc = match parsed {
            Ok(doc) => doc,
            Err(reason) => {
                self.fail(join("❌ ", reason.as_str()));
                return ;
            },
        };
        let plan = apply_edited_document(&self.current_documents[self.selected_doc_index], &doc);
        match plan {
            Err(e) => {
                self.fail(join("❌ ", e.message().as_str()));
            },
            Ok(None) => {
                self.replace_selected_document(doc);
                self.succeed(
                    "Dış editör değişiklikleri kaydedildi ve DB güncellendi ✅".to_owned(),
                );
            },
            Ok(Some(update)) => {
                self.request = Request::ApplyUpdate { db: key.0, collection: key.1, update };
                self.editing = Some(doc);
            },
        }
    }
}

} // verus!
