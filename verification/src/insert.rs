//! Insert mode: the keys edit a one-line text, and Enter submits it for what
//! the text stands for.

use vstd::prelude::*;
use vstd::string::*;
use crate::app::{
    ActiveInputField, AppMode, AppState, InputContext, ItemModel, Request, RequestModel,
    SelectableItem, StateModel,
};
use crate::connections::{
    connection_error_message, parse_connection_input, parsed_connection_input,
    parsed_connection_update, update_connection, with_connection,
};
use crate::keys::{KeyCode, KeyEvent};
use crate::pager::capped_sum;
use crate::text::{
    clamp_cursor, contains_text, insert_char, lowercase, occurs_in, remove_char,
    to_lowercase, trim, trimmed,
};
use crate::tree::{goto_collection, goto_step};

verus! {

/// The text that the keys of insert mode edit.
#[derive(Clone, Copy, Debug, PartialEq, Eq, Structural)]
pub enum EditTarget {
    /// The one-line text.
    Input,
    Filter,
    Sort,
    /// No text: the keys are dropped.
    Nothing,
}

/// The text that the keys edit: the one-line text while it stands for
/// something, else the query text in line for editing.
pub open spec fn edit_target(s: StateModel) -> EditTarget {
    if s.input_context != InputContext::Unset {
        EditTarget::Input
    } else {
        match s.active_input {
            Some(ActiveInputField::Filter) => EditTarget::Filter,
            Some(ActiveInputField::Sort) => EditTarget::Sort,
            None => EditTarget::Nothing,
        }
    }
}

pub open spec fn target_text(s: StateModel, t: EditTarget) -> Seq<char> {
    match t {
        EditTarget::Input => s.input_text,
        EditTarget::Filter => s.filter_text,
        EditTarget::Sort => s.sort_text,
        EditTarget::Nothing => Seq::empty(),
    }
}

pub open spec fn with_target_text(s: StateModel, t: EditTarget, text: Seq<char>) -> StateModel {
    match t {
        EditTarget::Input => StateModel { input_text: text, ..s },
        EditTarget::Filter => StateModel { filter_text: text, ..s },
        EditTarget::Sort => StateModel { sort_text: text, ..s },
        EditTarget::Nothing => s,
    }
}

/// `pos`, or `len` where `pos` lies beyond it.
pub open spec fn clamped(pos: usize, len: nat) -> usize {
    if pos <= len {
        pos
    } else {
        len as usize
    }
}

/// The session back in normal mode, the one-line text discarded.
pub open spec fn leave_insert(s: StateModel) -> StateModel {
    StateModel {
        mode: AppMode::Normal,
        input_context: InputContext::Unset,
        input_text: Seq::empty(),
        active_input: None,
        ..s
    }
}

/// The session after insert mode is cancelled: normal mode, the one-line text
/// discarded, and a message on show dismissed.
pub open spec fn cancel_step(s: StateModel) -> StateModel {
    let dismissed = if s.popup_message is Some {
        StateModel { popup_message: None, popup_message_success: None, ..s }
    } else {
        s
    };
    leave_insert(dismissed)
}

/// The session after the character `c` is typed into the text `t`: it is put
/// in at the cursor, which moves behind it. A cursor beyond the end of the
/// text counts as at its end.
pub open spec fn type_into(s: StateModel, t: EditTarget, c: char) -> StateModel {
    if t == EditTarget::Nothing {
        s
    } else {
        let text = target_text(s, t);
        let pos = clamped(s.cursor_position, text.len());
        StateModel {
            cursor_position: capped_sum(pos, 1),
            ..with_target_text(s, t, text.insert(pos as int, c))
        }
    }
}

/// The session after the character before the cursor is deleted from the
/// text `t`.
pub open spec fn backspace_in(s: StateModel, t: EditTarget) -> StateModel {
    let text = target_text(s, t);
    let pos = clamped(s.cursor_position, text.len());
    if t == EditTarget::Nothing || pos == 0 {
        s
    } else {
        StateModel {
            cursor_position: (pos - 1) as usize,
            ..with_target_text(s, t, text.remove(pos - 1))
        }
    }
}

/// The session after the cursor is moved right in the text `t`.
pub open spec fn right_in(s: StateModel, t: EditTarget) -> StateModel {
    if s.cursor_position < target_text(s, t).len() {
        StateModel { cursor_position: (s.cursor_position + 1) as usize, ..s }
    } else {
        s
    }
}

pub open spec fn type_step(s: StateModel, c: char) -> StateModel {
    type_into(s, edit_target(s), c)
}

pub open spec fn backspace_step(s: StateModel) -> StateModel {
    backspace_in(s, edit_target(s))
}

pub open spec fn left_step(s: StateModel) -> StateModel {
    if s.cursor_position > 0 {
        StateModel { cursor_position: (s.cursor_position - 1) as usize, ..s }
    } else {
        s
    }
}

pub open spec fn right_step(s: StateModel) -> StateModel {
    right_in(s, edit_target(s))
}

/// The text that a collection is searched by, in lower case.
pub open spec fn search_text(uri: Seq<char>, db: Seq<char>, name: Seq<char>) -> Seq<char> {
    lowercase(uri + "/"@ + db + "/"@ + name)
}

/// The collections among the first `n` lines of `items` whose search text
/// holds `q`, in order.
pub open spec fn search_hits(items: Seq<ItemModel>, q: Seq<char>, n: nat) -> Seq<
    (Seq<char>, Seq<char>, Seq<char>),
>
    decreases n,
{
    if n == 0 || n > items.len() {
        Seq::empty()
    } else {
        let before = search_hits(items, q, (n - 1) as nat);
        match items[n - 1] {
            ItemModel::Collection { uri, db, name } => if occurs_in(search_text(uri, db, name), q) {
                before.push((uri, db, name))
            } else {
                before
            },
            _ => before,
        }
    }
}

pub open spec fn no_match(q: Seq<char>) -> Seq<char> {
    "🔎 Eşleşme yok: \""@ + q + "\""@
}

/// The session after a search is submitted: the collections found are kept,
/// the cursor of the navigation list jumps to the first of them, and insert
/// mode is left. A search that finds nothing says so.
pub open spec fn search_step(s: StateModel) -> StateModel {
    let q = lowercase(trimmed(s.input_text));
    let hits = if q.len() > 0 {
        search_hits(s.tree_items, q, s.tree_items.len())
    } else {
        Seq::empty()
    };
    let found = leave_insert(
        StateModel { collection_search_hits: hits, collection_search_idx: 0, ..s },
    );
    if hits.len() > 0 {
        goto_step(found, hits[0].0, hits[0].1, hits[0].2)
    } else {
        StateModel { popup_message: Some(no_match(q)), ..found }
    }
}

/// The session after the one-line text is submitted.
///
/// A new connection and a stored connection are read from the text and asked
/// to be stored; a new collection name is asked to be given to the selected
/// collection, unless it is empty or the old name; the new value of a field
/// is asked to be read; a search is run. A text
/// that is refused is reported and stays for correction. What has to wait for
/// the outside world keeps the session in insert mode until the outcome is
/// handed back; all else leaves insert mode at once.
pub open spec fn submit_step(s: StateModel) -> StateModel {
    match s.input_context {
        InputContext::Uri => match parsed_connection_input(s.input_text) {
            Some(pair) => StateModel {
                request: RequestModel::SaveConnection { uri: pair.0, name: pair.1 },
                ..s
            },
            None => StateModel {
                popup_message: Some("Invalid input. Use format: URI;NAME"@),
                ..s
            },
        },
        InputContext::ConnectionName => match parsed_connection_update(s.input_text) {
            Ok(c) => StateModel {
                request: RequestModel::StoreConnections {
                    connections: with_connection(s.connections, c),
                },
                ..s
            },
            Err(e) => StateModel { popup_message: Some(connection_error_message(e)), ..s },
        },
        InputContext::CollectionName => match s.selected_collection {
            Some(key) => {
                let new_name = trimmed(s.input_text);
                if new_name.len() == 0 || new_name == key.2 {
                    StateModel {
                        popup_message: Some("❗ New collection name is empty or unchanged."@),
                        ..s
                    }
                } else if !s.has_client {
                    StateModel { popup_message: Some("No active MongoDB connection"@), ..s }
                } else {
                    StateModel {
                        request: RequestModel::RenameCollection {
                            db: key.1,
                            old_name: key.2,
                            new_name,
                        },
                        ..s
                    }
                }
            },
            None => leave_insert(s),
        },
        InputContext::SearchCollections => search_step(s),
        InputContext::FieldEditEditor => StateModel { request: RequestModel::ReadFieldText, ..s },
        InputContext::Unset => leave_insert(s),
    }
}

/// The session after a key is pressed in insert mode.
pub open spec fn insert_step(s: StateModel, key: KeyEvent) -> StateModel {
    match key.code {
        KeyCode::Enter => submit_step(s),
        KeyCode::Esc => cancel_step(s),
        KeyCode::Char(c) => if c == 'v' && key.modifiers.control {
            StateModel { request: RequestModel::ReadClipboard, ..s }
        } else {
            type_step(s, c)
        },
        KeyCode::Backspace => backspace_step(s),
        KeyCode::Left => left_step(s),
        KeyCode::Right => right_step(s),
        _ => s,
    }
}

impl AppState {
    /// The text that the keys of insert mode edit.
    pub fn edit_target(&self) -> (t: EditTarget)
        ensures
            t == edit_target(self@),
    {
        if self.input_context != InputContext::Unset {
            EditTarget::Input
        } else {
            match self.active_input {
                Some(ActiveInputField::Filter) => EditTarget::Filter,
                Some(ActiveInputField::Sort) => EditTarget::Sort,
                None => EditTarget::Nothing,
            }
        }
    }

    pub(crate) fn target_text(&self, t: EditTarget) -> (text: &str)
        ensures
            text@ == target_text(self@, t),
    {
        match t {
            EditTarget::Input => self.input_text.as_str(),
            EditTarget::Filter => self.filter_text.as_str(),
            EditTarget::Sort => self.sort_text.as_str(),
            EditTarget::Nothing => {
                proof {
                    reveal_strlit("");
                    assert(""@ =~= Seq::<char>::empty());
                }
                ""
            },
        }
    }

    pub(crate) fn set_target_text(&mut self, t: EditTarget, text: String)
        ensures
            final(self)@ == with_target_text(old(self)@, t, text@),
    {
        match t {
            EditTarget::Input => {
                self.input_text = text;
            },
            EditTarget::Filter => {
                self.filter_text = text;
            },
            EditTarget::Sort => {
                self.sort_text = text;
            },
            EditTarget::Nothing => {},
        }
    }

    /// Goes back to normal mode and discards the one-line text.
    pub fn leave_insert(&mut self)
        ensures
            final(self)@ == leave_insert(old(self)@),
    {
        self.mode = AppMode::Normal;
        self.input_context = InputContext::Unset;
        self.input_text = String::new();
        self.active_input = None;
    }

    fn cancel_insert(&mut self)
        ensures
            final(self)@ == cancel_step(old(self)@),
    {
        if self.popup_message.is_some() {
            self.popup_message = None;
            self.popup_message_success = None;
        }
        self.leave_insert();
    }

    pub(crate) fn type_char(&mut self, t: EditTarget, c: char)
        ensures
            final(self)@ == type_into(old(self)@, t, c),
    {
        if t == EditTarget::Nothing {
            return ;
        }
        let text = self.target_text(t);
        let pos = clamp_cursor(self.cursor_position, text);
        let edited = insert_char(text, pos, c);
        self.set_target_text(t, edited);
        self.cursor_position = pos.saturating_add(1);
    }

    pub(crate) fn backspace(&mut self, t: EditTarget)
        ensures
            final(self)@ == backspace_in(old(self)@, t),
    {
        let text = self.target_text(t);
        let pos = clamp_cursor(self.cursor_position, text);
        if t == EditTarget::Nothing || pos == 0 {
            return ;
        }
        let edited = remove_char(text, pos - 1);
        self.set_target_text(t, edited);
        self.cursor_position = pos - 1;
    }

    pub(crate) fn move_left(&mut self)
        ensures
            final(self)@ == left_step(old(self)@),
    {
        if self.cursor_position > 0 {
            self.cursor_position -= 1;
        }
    }

    pub(crate) fn move_right(&mut self, t: EditTarget)
        ensures
            final(self)@ == right_in(old(self)@, t),
    {
        let len = self.target_text(t).unicode_len();
        if self.cursor_position < len {
            self.cursor_position += 1;
        }
    }

    fn find_collections(&self, q: &str) -> (hits: Vec<(String, String, String)>)
        ensures
            hits.deep_view() == search_hits(self@.tree_items, q@, self@.tree_items.len()),
    {
        let mut hits: Vec<(String, String, String)> = Vec::new();
        let mut i: usize = 0;
        proof {
            assert(hits.deep_view() =~= search_hits(self@.tree_items, q@, 0));
        }
        while i < self.tree_items.len()
            invariant
                0 <= i <= self.tree_items.len(),
                hits.deep_view() == search_hits(self@.tree_items, q@, i as nat),
            decreases self.tree_items.len() - i,
        {
            let ghost before = hits.deep_view();
            proof {
                assert(self@.tree_items[i as int] == self.tree_items@[i as int].deep_view());
            }
            match &self.tree_items[i] {
                SelectableItem::Collection { uri, db, name } => {
                    let mut hay = uri.clone();
                    hay.append("/");
                    hay.append(db.as_str());
                    hay.append("/");
                    hay.append(name.as_str());
                    let hay = to_lowercase(hay.as_str());
                    if contains_text(hay.as_str(), q) {
                        hits.push((uri.clone(), db.clone(), name.clone()));
                        proof {
                            assert(hits.deep_view() =~= before.push((uri@, db@, name@)));
                        }
                    }
                },
                _ => {},
            }
            i += 1;
        }
        hits
    }

    fn submit_search(&mut self)
        ensures
            final(self)@ == search_step(old(self)@),
    {
        let q = to_lowercase(trim(self.input_text.as_str()));
        let hits = if !q.as_str().is_empty() {
            self.find_collections(q.as_str())
        } else {
            let none: Vec<(String, String, String)> = Vec::new();
            proof {
                assert(none.deep_view() =~= Seq::empty());
            }
            none
        };
        let first = if hits.len() > 0 {
            Some((hits[0].0.clone(), hits[0].1.clone(), hits[0].2.clone()))
        } else {
            None
        };
        self.collection_search_hits = hits;
        self.collection_search_idx = 0;
        self.leave_insert();
        match first {
            Some(hit) => {
                proof {
                    assert(self@.collection_search_hits[0] == (hit.0@, hit.1@, hit.2@));
                }
                goto_collection(self, hit.0.as_str(), hit.1.as_str(), hit.2.as_str());
            },
            None => {
                let mut m = "🔎 Eşleşme yok: \"".to_owned();
                m.append(q.as_str());
                m.append("\"");
                self.popup_message = Some(m);
            },
        }
    }

    fn submit_insert(&mut self)
        ensures
            final(self)@ == submit_step(old(self)@),
    {
        match self.input_context {
            InputContext::Uri => match parse_connection_input(self.input_text.as_str()) {
                Some(pair) => {
                    self.request = Request::SaveConnection { uri: pair.0, name: pair.1 };
                },
                None => {
                    self.popup_message = Some("Invalid input. Use format: URI;NAME".to_owned());
                },
            },
            InputContext::ConnectionName => {
                let mut list = self.connections.clone();
                proof {
                    assert(list.deep_view() =~= self.connections.deep_view());
                }
                match update_connection(self.input_text.as_str(), &mut list) {
                    Ok(()) => {
                        self.request = Request::StoreConnections { connections: list };
                    },
                    Err(e) => {
                        self.popup_message = Some(e.message());
                    },
                }
            },
            InputContext::CollectionName => {
                let key = match &self.selected_collection {
                    Some(key) => (key.1.clone(), key.2.clone()),
                    None => {
                        self.leave_insert();
                        return ;
                    },
                };
                let new_name = trim(self.input_text.as_str()).to_owned();
                if new_name.as_str().is_empty() || new_name == key.1 {
                    self.popup_message = Some(
                        "❗ New collection name is empty or unchanged.".to_owned(),
                    );
                } else if !self.has_client {
                    self.popup_message = Some("No active MongoDB connection".to_owned());
                } else {
                    self.request = Request::RenameCollection {
                        db: key.0,
                        old_name: key.1,
                        new_name,
                    };
                }
            },
            InputContext::SearchCollections => {
                self.submit_search();
            },
            InputContext::FieldEditEditor => {
                self.request = Request::ReadFieldText;
            },
            InputContext::Unset => {
                self.leave_insert();
            },
        }
    }
}

/// Acts on a key pressed in insert mode. The session never ends on such a
/// key: the result is `false`.
pub fn handle_insert(key: KeyEvent, state: &mut AppState) -> (exit: bool)
    ensures
        !exit,
        final(state)@ == insert_step(old(state)@, key),
{
    match key.code {
        KeyCode::Enter => {
            state.submit_insert();
        },
        KeyCode::Esc => {
            state.cancel_insert();
        },
        KeyCode::Char(c) => {
            if c == 'v' && key.modifiers.control {
                state.request = Request::ReadClipboard;
            } else {
                let t = state.edit_target();
                state.type_char(t, c);
            }
        },
        KeyCode::Backspace => {
            let t = state.edit_target();
            state.backspace(t);
        },
        KeyCode::Left => {
            state.move_left();
        },
        KeyCode::Right => {
            let t = state.edit_target();
            state.move_right(t);
        },
        _ => {},
    }
    false
}

} // verus!
