//! Editing in place: the text of one whole document in editor mode, or the
//! value of one field in the one-line text. Either way the changes are sent
//! as one update for each field.

use vstd::prelude::*;
use vstd::string::*;
use crate::app::{AppMode, AppState, InputContext, Request, RequestModel, StateModel};
use crate::coerce::{coerce_field_value, coerced, Denoted};
use crate::diff::{
    changed_prefix, error_text, field_models, field_updates, id_key, kept_id, EditError,
};
use crate::document::{lookup, Document, DocumentModel, Field, FieldModel, Value, ValueModel};
use crate::insert::{backspace_in, leave_insert, left_step, right_in, type_into, EditTarget};
use crate::keys::{KeyCode, KeyEvent};
use crate::normal::{enter_insert, selected_document};
use crate::requests::{document_model, failed, idle, leave_editor, succeeded};
use crate::text::same_text;

verus! {

/// The session after the document that the cursor is on is opened in the
/// document editor, with `text` as its text. Without such a document the
/// editor stays shut. Either way nothing is asked for any more.
pub open spec fn open_editor_step(s: StateModel, text: Seq<char>) -> StateModel {
    match selected_document(s) {
        Some(doc) => StateModel {
            mode: AppMode::Editor,
            input_text: text,
            cursor_position: 0,
            editing: Some(doc),
            ..idle(s)
        },
        None => idle(s),
    }
}

/// The session after a key is pressed in the document editor: Esc leaves it
/// and discards the text, Enter asks for the text to be read as a document,
/// the other keys edit the text.
pub open spec fn editor_step(s: StateModel, key: KeyEvent) -> StateModel {
    match key.code {
        KeyCode::Esc => leave_editor(s),
        KeyCode::Enter => StateModel { request: RequestModel::ReadEditorText, ..s },
        KeyCode::Char(c) => type_into(s, EditTarget::Input, c),
        KeyCode::Backspace => backspace_in(s, EditTarget::Input),
        KeyCode::Left => left_step(s),
        KeyCode::Right => right_in(s, EditTarget::Input),
        _ => s,
    }
}

/// The session after the text of the document editor is read.
///
/// `parsed` is the document that the text denotes, or the reason why it
/// denotes none. A text that is no document, or a document without the
/// identifier of the original, is refused and the text stays for correction.
/// A document that differs from the original is asked to be sent as one
/// update for each top-level field that changed; one that does not differ
/// leaves the editor at once.
pub open spec fn editor_text_step(
    s: StateModel,
    parsed: Result<DocumentModel, Seq<char>>,
) -> StateModel {
    let done = idle(s);
    if s.request != RequestModel::ReadEditorText {
        done
    } else {
        match parsed {
            Err(reason) => failed(done, reason),
            Ok(doc) => match s.editing {
                None => leave_editor(done),
                Some(original) => match kept_id(original, doc) {
                    Err(e) => failed(done, error_text(e)),
                    Ok(id) => {
                        let fields = changed_prefix(original, doc, doc.len());
                        if fields.len() == 0 {
                            leave_editor(succeeded(done, "Kaydedildi (değişiklik yok)."@))
                        } else {
                            match s.selected_collection {
                                Some(key) => StateModel {
                                    request: RequestModel::UpdateFields {
                                        db: key.1,
                                        collection: key.2,
                                        id,
                                        fields,
                                    },
                                    ..s
                                },
                                None => failed(done, "❌ Herhangi bir koleksiyon seçili değil."@),
                            }
                        }
                    },
                },
            },
        }
    }
}

/// The session after the field that the cursor is on is opened for editing
/// in the one-line text, with `text` as its text. The identifier field is
/// not opened. Either way nothing is asked for any more.
pub open spec fn edit_field_step(s: StateModel, text: Seq<char>) -> StateModel {
    match selected_document(s) {
        Some(doc) => if s.selected_field_index < doc.len() && doc[s.selected_field_index as int].key
            != id_key() {
            enter_insert(idle(s), InputContext::FieldEditEditor, text)
        } else {
            idle(s)
        },
        None => idle(s),
    }
}

/// The session after the one-line text is read as the new value of the field
/// that the cursor is on.
///
/// The text is read as a value of the kind that the field holds; `double`
/// and `document` are what the text denotes as a double and as a document.
/// The new value is asked to be sent as one update of that field. Without a
/// client, or for a document without an identifier, the edit is refused and
/// the text stays.
pub open spec fn field_text_step(
    s: StateModel,
    double: Option<u64>,
    document: Option<DocumentModel>,
) -> StateModel {
    let done = idle(s);
    if s.request != RequestModel::ReadFieldText {
        done
    } else {
        match selected_document(s) {
            None => leave_insert(done),
            Some(doc) => if s.selected_field_index >= doc.len() {
                leave_insert(done)
            } else {
                let field = doc[s.selected_field_index as int];
                match lookup(doc, id_key()) {
                    None => failed(done, error_text(EditError::MissingId)),
                    Some(ValueModel::ObjectId(id)) => match s.selected_collection {
                        None => failed(done, "❌ Herhangi bir koleksiyon seçili değil."@),
                        Some(key) => if !s.has_client {
                            failed(done, "❌ MongoDB bağlantısı yok."@)
                        } else {
                            StateModel {
                                request: RequestModel::UpdateFields {
                                    db: key.1,
                                    collection: key.2,
                                    id,
                                    fields: seq![
                                        FieldModel {
                                            key: field.key,
                                            value: coerced(
                                                field.value,
                                                s.input_text,
                                                double,
                                                document,
                                            ),
                                        },
                                    ],
                                },
                                ..s
                            }
                        },
                    },
                    Some(_) => failed(done, error_text(EditError::IdNotObjectId)),
                }
            },
        }
    }
}

impl AppState {
    /// Opens the field that the cursor is on for editing in the one-line
    /// text, with `text` as its text.
    pub fn edit_field(&mut self, text: String)
        ensures
            final(self)@ == edit_field_step(old(self)@, text@),
    {
        self.request = Request::Idle;
        if self.selected_doc_index >= self.current_documents.len() {
            return ;
        }
        let doc = &self.current_documents[self.selected_doc_index];
        if self.selected_field_index >= doc.fields.len() {
            return ;
        }
        proof {
            assert(doc@[self.selected_field_index as int]
                == doc.fields@[self.selected_field_index as int]@);
        }
        if same_text(doc.fields[self.selected_field_index].key.as_str(), "_id") {
            return ;
        }
        self.mode = AppMode::Insert;
        self.input_context = InputContext::FieldEditEditor;
        self.cursor_position = text.as_str().unicode_len();
        self.input_text = text;
    }

    /// Folds in what the one-line text denotes, and asks for the field that
    /// the cursor is on to be updated with the value that the text gives.
    pub fn finish_field_text(&mut self, denoted: Denoted)
        ensures
            final(self)@ == field_text_step(
                old(self)@,
                denoted.double,
                denoted.document.deep_view(),
            ),
    {
        let mut request = Request::Idle;
        std::mem::swap(&mut self.request, &mut request);
        match request {
            Request::ReadFieldText => {},
            _ => {
                return ;
            },
        }
        if self.selected_doc_index >= self.current_documents.len() {
            self.leave_insert();
            return ;
        }
        let doc = &self.current_documents[self.selected_doc_index];
        if self.selected_field_index >= doc.fields.len() {
            self.leave_insert();
            return ;
        }
        let field = &doc.fields[self.selected_field_index];
        proof {
            assert(doc@[self.selected_field_index as int] == field@);
        }
        let id = match doc.get("_id") {
            None => {
                self.popup_message = Some(EditError::MissingId.message());
                return ;
            },
            Some(Value::ObjectId(id)) => *id,
            Some(_) => {
                self.popup_message = Some(EditError::IdNotObjectId.message());
                return ;
            },
        };
        let key = match &self.selected_collection {
            Some(key) => (key.1.clone(), key.2.clone()),
            None => {
                self.popup_message = Some("❌ Herhangi bir koleksiyon seçili değil.".to_owned());
                return ;
            },
        };
        if !self.has_client {
            self.popup_message = Some("❌ MongoDB bağlantısı yok.".to_owned());
            return ;
        }
        let value = coerce_field_value(&field.value, self.input_text.as_str(), denoted);
        let name = field.key.clone();
        let mut fields: Vec<Field> = Vec::new();
        fields.push(Field { key: name, value });
        proof {
            assert(field_models(fields@) =~= seq![
                FieldModel {
                    key: field.key@,
                    value: coerced(
                        field.value@,
                        old(self)@.input_text,
                        denoted.double,
                        denoted.document.deep_view(),
                    ),
                },
            ]);
        }
        self.request = Request::UpdateFields { db: key.0, collection: key.1, id, fields };
    }

    /// Opens the document that the cursor is on in the document editor, with
    /// `text` as its text.
    pub fn open_editor(&mut self, text: String)
        ensures
            final(self)@ == open_editor_step(old(self)@, text@),
    {
        self.request = Request::Idle;
        if self.selected_doc_index < self.current_documents.len() {
            self.editing = Some(self.current_documents[self.selected_doc_index].clone());
            self.mode = AppMode::Editor;
            self.input_text = text;
            self.cursor_position = 0;
        }
    }

    /// Folds in the text of the document editor as it was read: the document
    /// that it denotes, or the reason why it denotes none.
    pub fn finish_editor_text(&mut self, parsed: Result<Document, String>)
        ensures
            final(self)@ == editor_text_step(old(self)@, document_model(parsed)),
    {
        let mut request = Request::Idle;
        std::mem::swap(&mut self.request, &mut request);
        match request {
            Request::ReadEditorText => {},
            _ => {
                return ;
            },
        }
        let doc = match parsed {
            Ok(doc) => doc,
            Err(reason) => {
                self.popup_message = Some(reason);
                return ;
            },
        };
        let plan = match &self.editing {
            None => {
                self.leave_editor();
                return ;
            },
            Some(original) => field_updates(original, &doc),
        };
        match plan {
            Err(e) => {
                self.popup_message = Some(e.message());
            },
            Ok(update) => {
                let (id, fields) = update;
                if fields.len() == 0 {
                    self.popup_message_success = Some("Kaydedildi (değişiklik yok).".to_owned());
                    self.leave_editor();
                } else {
                    let key = match &self.selected_collection {
                        Some(key) => (key.1.clone(), key.2.clone()),
                        None => {
                            self.popup_message = Some(
                                "❌ Herhangi bir koleksiyon seçili değil.".to_owned(),
                            );
                            return ;
                        },
                    };
                    self.request = Request::UpdateFields {
                        db: key.0,
                        collection: key.1,
                        id,
                        fields,
                    };
                }
            },
        }
    }
}

/// Acts on a key pressed in the document editor. The session never ends on
/// such a key: the result is `false`.
pub fn handle_editor(key: KeyEvent, state: &mut AppState) -> (exit: bool)
    ensures
        !exit,
        final(state)@ == editor_step(old(state)@, key),
{
    match key.code {
        KeyCode::Esc => {
            state.leave_editor();
        },
        KeyCode::Enter => {
            state.request = Request::ReadEditorText;
        },
        KeyCode::Char(c) => {
            state.type_char(EditTarget::Input, c);
        },
        KeyCode::Backspace => {
            state.backspace(EditTarget::Input);
        },
        KeyCode::Left => {
            state.move_left();
        },
        KeyCode::Right => {
            state.move_right(EditTarget::Input);
        },
        _ => {},
    }
    false
}

} // verus!
