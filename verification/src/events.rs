//! Where a key press goes: to the file picker while one is open, else to the
//! handler of the mode that the session is in.

use vstd::prelude::*;
use crate::app::{AppMode, AppState, StateModel};
use crate::editor::{editor_step, handle_editor};
use crate::filepicker::{handle_filepicker_key, picker_step};
use crate::insert::{handle_insert, insert_step};
use crate::keys::KeyEvent;
use crate::normal::{handle_normal, normal_step, quits};

verus! {

/// The session after a key is pressed in the mode that it is in.
pub open spec fn mode_step(s: StateModel, key: KeyEvent) -> StateModel {
    match s.mode {
        AppMode::Normal => normal_step(s, key),
        AppMode::Insert => insert_step(s, key),
        AppMode::Editor => editor_step(s, key),
    }
}

/// The session after a key is pressed.
pub open spec fn key_step(s: StateModel, key: KeyEvent) -> StateModel {
    if s.file_picker is Some {
        picker_step(s, key)
    } else {
        mode_step(s, key)
    }
}

/// Whether a key ends the session: the key to quit, pressed in normal mode
/// with no file picker open.
pub open spec fn key_exits(s: StateModel, key: KeyEvent) -> bool {
    s.file_picker is None && s.mode == AppMode::Normal && quits(key)
}

/// Acts on a key by the mode that the session is in, and says whether the
/// session ends.
pub fn handle_by_mode(key: KeyEvent, state: &mut AppState) -> (exit: bool)
    ensures
        exit == (old(state)@.mode == AppMode::Normal && quits(key)),
        final(state)@ == mode_step(old(state)@, key),
{
    match state.mode {
        AppMode::Normal => handle_normal(key, state),
        AppMode::Insert => handle_insert(key, state),
        AppMode::Editor => handle_editor(key, state),
    }
}

/// Acts on a key, and says whether the session ends.
pub fn handle_key_event(key: KeyEvent, state: &mut AppState) -> (exit: bool)
    ensures
        exit == key_exits(old(state)@, key),
        final(state)@ == key_step(old(state)@, key),
{
    if state.file_picker.is_some() {
        let should_close = handle_filepicker_key(key, state);
        if should_close {
            state.file_picker = None;
        }
        return false;
    }
    handle_by_mode(key, state)
}

} // verus!
