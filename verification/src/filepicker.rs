//! The file picker: a directory listing to walk through, with files to choose
//! for an import or a script to run.
//!
//! The picker never reads a directory itself. It asks for a listing and is
//! handed the entries.

use vstd::prelude::*;
use vstd::string::*;
use crate::app::{
    AppState, FileEntry, FileEntryModel, FilePickerMode, FilePickerModel, FilePickerState,
    ItemModel, Request, RequestModel, SelectableItem, StateModel,
};
use crate::keys::{KeyCode, KeyEvent};
use crate::normal::selected_item;
use crate::text::{same_text, to_chars};

verus! {

/// The first position at or after `from` that holds `path`, or the length of
/// `paths` where there is none.
pub open spec fn path_position(paths: Seq<Seq<char>>, path: Seq<char>, from: int) -> int
    decreases paths.len() - from,
{
    if 0 <= from < paths.len() && paths[from] != path {
        path_position(paths, path, from + 1)
    } else {
        from
    }
}

/// `paths` with `path` added at the end where it was not chosen, and without
/// its first occurrence where it was.
pub open spec fn toggled_paths(paths: Seq<Seq<char>>, path: Seq<char>) -> Seq<Seq<char>> {
    let i = path_position(paths, path, 0);
    if 0 <= i < paths.len() {
        paths.remove(i)
    } else {
        paths.push(path)
    }
}

/// The entry that the cursor is on.
pub open spec fn selected_entry(p: FilePickerModel) -> Option<FileEntryModel> {
    if p.selected_index < p.entries.len() {
        Some(p.entries[p.selected_index as int])
    } else {
        None
    }
}

pub open spec fn picker_next(p: FilePickerModel) -> FilePickerModel {
    if p.selected_index + 1 < p.entries.len() {
        FilePickerModel { selected_index: (p.selected_index + 1) as usize, ..p }
    } else {
        p
    }
}

pub open spec fn picker_previous(p: FilePickerModel) -> FilePickerModel {
    if p.selected_index > 0 {
        FilePickerModel { selected_index: (p.selected_index - 1) as usize, ..p }
    } else {
        p
    }
}

/// The picker after the entry that the cursor is on is chosen, or no longer
/// chosen. The way up cannot be chosen.
pub open spec fn picker_toggle(p: FilePickerModel) -> FilePickerModel {
    match selected_entry(p) {
        Some(FileEntryModel::Real { path, .. }) => FilePickerModel {
            selected_files: toggled_paths(p.selected_files, path),
            ..p
        },
        _ => p,
    }
}

/// The picker after the directory `dir` is entered, given its entries.
/// Without entries, the directory could not be read and the picker stays
/// where it is.
pub open spec fn picker_enter(
    p: FilePickerModel,
    dir: Seq<char>,
    entries: Option<Seq<FileEntryModel>>,
) -> FilePickerModel {
    match entries {
        Some(list) => FilePickerModel { entries: list, current_path: dir, selected_index: 0, ..p },
        None => p,
    }
}

/// The position of the last `.` of `name` before position `to`, or -1.
pub open spec fn last_dot(name: Seq<char>, to: int) -> int
    decreases to,
{
    if to <= 0 || to > name.len() {
        -1
    } else if name[to - 1] == '.' {
        to - 1
    } else {
        last_dot(name, to - 1)
    }
}

/// The extension of a file name: what follows its last `.`, unless the name
/// has none, begins with its only `.`, or is `..`.
pub open spec fn extension(name: Seq<char>) -> Option<Seq<char>> {
    let dot = last_dot(name, name.len() as int);
    if dot <= 0 || name == ".."@ {
        None
    } else {
        Some(name.subrange(dot + 1, name.len() as int))
    }
}

/// The extension of a file name.
pub fn extension_of(name: &str) -> (r: Option<String>)
    ensures
        r.deep_view() == extension(name@),
{
    if same_text(name, "..") {
        return None;
    }
    let chars = to_chars(name);
    let mut i: usize = chars.len();
    while i > 0 && chars[i - 1] != '.'
        invariant
            0 <= i <= chars.len(),
            last_dot(chars@, i as int) == last_dot(chars@, chars.len() as int),
        decreases i,
    {
        i -= 1;
    }
    if i <= 1 {
        None
    } else {
        Some(name.substring_char(i, chars.len()).to_owned())
    }
}

impl Clone for FileEntry {
    fn clone(&self) -> (r: FileEntry)
        ensures
            r.deep_view() == self.deep_view(),
    {
        match self {
            FileEntry::Real { path, name, is_dir } => FileEntry::Real {
                path: path.clone(),
                name: name.clone(),
                is_dir: *is_dir,
            },
            FileEntry::Parent(path) => FileEntry::Parent(path.clone()),
        }
    }
}

impl FilePickerState {
    /// A picker on the directory `base_path`, which holds `entries`.
    pub fn new(mode: FilePickerMode, base_path: String, entries: Vec<FileEntry>) -> (p:
        FilePickerState)
        ensures
            p.deep_view() == (FilePickerModel {
                mode,
                current_path: base_path@,
                entries: entries.deep_view(),
                selected_index: 0,
                selected_files: Seq::empty(),
            }),
    {
        let p = FilePickerState {
            mode,
            current_path: base_path,
            entries,
            selected_index: 0,
            selected_files: Vec::new(),
        };
        proof {
            assert(p.deep_view().selected_files =~= Seq::empty());
        }
        p
    }

    /// The entry that the cursor is on.
    pub fn selected_entry(&self) -> (r: Option<&FileEntry>)
        ensures
            r.deep_view() == selected_entry(self.deep_view()),
    {
        if self.selected_index < self.entries.len() {
            Some(&self.entries[self.selected_index])
        } else {
            None
        }
    }

    /// Enters the directory `dir`, given its entries.
    pub fn enter_directory(&mut self, dir: String, entries: Option<Vec<FileEntry>>)
        ensures
            final(self).deep_view() == picker_enter(
                old(self).deep_view(),
                dir@,
                entries.deep_view(),
            ),
    {
        match entries {
            Some(list) => {
                self.entries = list;
                self.current_path = dir;
                self.selected_index = 0;
            },
            None => {},
        }
    }

    /// Moves the cursor one entry down, unless it is on the last.
    pub fn next(&mut self)
        ensures
            final(self).deep_view() == picker_next(old(self).deep_view()),
    {
        let len = self.entries.len();
        if len > 0 && self.selected_index < len - 1 {
            self.selected_index += 1;
        }
    }

    /// Moves the cursor one entry up, unless it is on the first.
    pub fn previous(&mut self)
        ensures
            final(self).deep_view() == picker_previous(old(self).deep_view()),
    {
        if self.selected_index > 0 {
            self.selected_index -= 1;
        }
    }

    /// Chooses the entry that the cursor is on, or gives up the choice of it.
    pub fn toggle_selection(&mut self)
        ensures
            final(self).deep_view() == picker_toggle(old(self).deep_view()),
    {
        if self.selected_index >= self.entries.len() {
            return ;
        }
        let path = match &self.entries[self.selected_index] {
            FileEntry::Real { path, .. } => path.clone(),
            FileEntry::Parent(_) => {
                return ;
            },
        };
        let ghost before = self.selected_files.deep_view();
        let mut i: usize = 0;
        while i < self.selected_files.len() && !(self.selected_files[i] == path)
            invariant
                0 <= i <= self.selected_files.len(),
                before == self.selected_files.deep_view(),
                path_position(before, path@, i as int) == path_position(before, path@, 0),
            decreases self.selected_files.len() - i,
        {
            i += 1;
        }
        if i < self.selected_files.len() {
            self.selected_files.remove(i);
            proof {
                assert(self.selected_files.deep_view() =~= before.remove(i as int));
            }
        } else {
            self.selected_files.push(path);
            proof {
                assert(self.selected_files.deep_view() =~= before.push(path@));
            }
        }
    }
}

/// The session with `p` as its open file picker.
pub open spec fn with_picker(s: StateModel, p: FilePickerModel) -> StateModel {
    StateModel { file_picker: Some(p), ..s }
}

/// The session after the cursor of the file picker asks for a directory: a
/// directory entry, or the way up.
pub open spec fn picker_open_step(s: StateModel, p: FilePickerModel) -> StateModel {
    match selected_entry(p) {
        Some(FileEntryModel::Real { path, is_dir, .. }) => if is_dir {
            StateModel { request: RequestModel::ReadDirectory { path }, ..s }
        } else {
            s
        },
        Some(FileEntryModel::Parent(path)) => StateModel {
            request: RequestModel::ReadDirectory { path },
            ..s
        },
        None => s,
    }
}

/// The session after the choice made in the file picker is confirmed: the
/// import or the script is asked for and the picker is closed. A choice that
/// cannot be carried out is reported and leaves the picker open.
pub open spec fn picker_confirm_step(s: StateModel, p: FilePickerModel) -> StateModel {
    if !s.has_client {
        StateModel { popup_message: Some("❗ Not connected to MongoDB."@), ..s }
    } else {
        match p.mode {
            FilePickerMode::ImportCollection => match selected_item(s) {
                Some(ItemModel::Database { uri, name }) => StateModel {
                    request: RequestModel::ImportFiles { uri, db: name, files: p.selected_files },
                    file_picker: None,
                    ..s
                },
                _ => StateModel { popup_message: Some("❗ No database selected."@), ..s },
            },
            FilePickerMode::ImportDatabase => match selected_entry(p) {
                Some(FileEntryModel::Real { path, name, is_dir }) => if !is_dir {
                    StateModel { popup_message: Some("❗ Please select a folder."@), ..s }
                } else {
                    match selected_item(s) {
                        Some(ItemModel::Uri { uri, .. }) => StateModel {
                            request: RequestModel::ImportFolder { uri, db: name, path },
                            file_picker: None,
                            ..s
                        },
                        _ => StateModel {
                            popup_message: Some("❗ No connection selected."@),
                            ..s
                        },
                    }
                },
                _ => StateModel { popup_message: Some("❗ Please select a folder."@), ..s },
            },
            FilePickerMode::RunScript => match selected_entry(p) {
                Some(FileEntryModel::Real { path, name, .. }) => if extension(name) == Some(
                    "sh"@,
                ) {
                    StateModel {
                        request: RequestModel::RunScript { path },
                        file_picker: None,
                        ..s
                    }
                } else {
                    StateModel { popup_message: Some("❗ Only .sh files are allowed."@), ..s }
                },
                _ => StateModel {
                    popup_message: Some("❗ Please select a .sh script file."@),
                    ..s
                },
            },
        }
    }
}

/// The session after a key is pressed while the file picker is open.
pub open spec fn picker_step(s: StateModel, key: KeyEvent) -> StateModel {
    match s.file_picker {
        None => s,
        Some(p) => match key.code {
            KeyCode::Down => with_picker(s, picker_next(p)),
            KeyCode::Up => with_picker(s, picker_previous(p)),
            KeyCode::Enter => picker_open_step(s, p),
            KeyCode::Esc => StateModel { file_picker: None, ..s },
            KeyCode::Char(c) => if c == 'j' {
                with_picker(s, picker_next(p))
            } else if c == 'k' {
                with_picker(s, picker_previous(p))
            } else if c == ' ' {
                with_picker(s, picker_toggle(p))
            } else if c == 'c' {
                picker_confirm_step(s, p)
            } else {
                s
            },
            _ => s,
        },
    }
}

impl AppState {
    fn picker_open(&mut self)
        requires
            old(self).file_picker is Some,
        ensures
            final(self)@ == picker_open_step(old(self)@, old(self)@.file_picker->0),
    {
        let path = match &self.file_picker {
            Some(picker) => match picker.selected_entry() {
                Some(FileEntry::Real { path, is_dir, .. }) => if *is_dir {
                    path.clone()
                } else {
                    return ;
                },
                Some(FileEntry::Parent(path)) => path.clone(),
                None => {
                    return ;
                },
            },
            None => {
                return ;
            },
        };
        self.request = Request::ReadDirectory { path };
    }

    fn picker_confirm(&mut self)
        requires
            old(self).file_picker is Some,
        ensures
            final(self)@ == picker_confirm_step(old(self)@, old(self)@.file_picker->0),
    {
        if !self.has_client {
            self.popup_message = Some("❗ Not connected to MongoDB.".to_owned());
            return ;
        }
        let item = self.selected_item();
        let (mode, entry, files) = match &self.file_picker {
            Some(picker) => {
                let entry = match picker.selected_entry() {
                    Some(e) => Some(e.clone()),
                    None => None,
                };
                let files = picker.selected_files.clone();
                proof {
                    assert(files.deep_view() =~= picker.selected_files.deep_view());
                }
                (picker.mode, entry, files)
            },
            None => {
                return ;
            },
        };
        match mode {
            FilePickerMode::ImportCollection => match item {
                Some(SelectableItem::Database { uri, name }) => {
                    self.request = Request::ImportFiles { uri, db: name, files };
                    self.file_picker = None;
                },
                _ => {
                    self.popup_message = Some("❗ No database selected.".to_owned());
                },
            },
            FilePickerMode::ImportDatabase => match entry {
                Some(FileEntry::Real { path, name, is_dir }) => {
                    if !is_dir {
                        self.popup_message = Some("❗ Please select a folder.".to_owned());
                    } else {
                        match item {
                            Some(SelectableItem::Uri { uri, .. }) => {
                                self.request = Request::ImportFolder { uri, db: name, path };
                                self.file_picker = None;
                            },
                            _ => {
                                self.popup_message = Some("❗ No connection selected.".to_owned());
                            },
                        }
                    }
                },
                _ => {
                    self.popup_message = Some("❗ Please select a folder.".to_owned());
                },
            },
            FilePickerMode::RunScript => match entry {
                Some(FileEntry::Real { path, name, .. }) => {
                    let is_script = match extension_of(name.as_str()) {
                        Some(ext) => same_text(ext.as_str(), "sh"),
                        None => false,
                    };
                    if is_script {
                        self.request = Request::RunScript { path };
                        self.file_picker = None;
                    } else {
                        self.popup_message = Some("❗ Only .sh files are allowed.".to_owned());
                    }
                },
                _ => {
                    self.popup_message = Some("❗ Please select a .sh script file.".to_owned());
                },
            },
        }
    }
}

/// Acts on a key pressed while the file picker is open, and says whether the
/// picker is to be closed.
pub fn handle_filepicker_key(event: KeyEvent, state: &mut AppState) -> (close: bool)
    ensures
        close == (event.code == KeyCode::Esc),
        final(state)@ == picker_step(old(state)@, event),
{
    if state.file_picker.is_none() {
        return event.code == KeyCode::Esc;
    }
    match event.code {
        KeyCode::Down => {
            match &mut state.file_picker {
                Some(picker) => picker.next(),
                None => {},
            }
        },
        KeyCode::Up => {
            match &mut state.file_picker {
                Some(picker) => picker.previous(),
                None => {},
            }
        },
        KeyCode::Enter => {
            state.picker_open();
        },
        KeyCode::Esc => {
            state.file_picker = None;
            return true;
        },
        KeyCode::Char(c) => {
            if c == 'j' {
                match &mut state.file_picker {
                    Some(picker) => picker.next(),
                    None => {},
                }
            } else if c == 'k' {
                match &mut state.file_picker {
                    Some(picker) => picker.previous(),
                    None => {},
                }
            } else if c == ' ' {
                match &mut state.file_picker {
                    Some(picker) => picker.toggle_selection(),
                    None => {},
                }
            } else if c == 'c' {
                state.picker_confirm();
            }
        },
        _ => {},
    }
    false
}

} // verus!
