//! What holds of the modes and of the two-press deletion, whatever the
//! session.

use vstd::prelude::*;
use crate::app::{AppMode, InputContext, RequestModel, StateModel};
use crate::insert::insert_step;
use crate::keys::{KeyCode, KeyEvent};
use crate::normal::{
    armed, command_step, delete_field_step, delete_step, disarmed, down_step, edit_query_step,
    edit_step, enter_step, escape_step, export_step, focus_step, import_collection_step,
    import_database_step, is_delete_key, next_step, normal_step, previous_step, tab_step, up_step,
};

verus! {

/// Whether a request is one of the deletions that the delete key stands for.
pub open spec fn is_deletion(r: RequestModel) -> bool {
    r is DropCollection || r is DropDatabase || r is DeleteDocument || r is DeleteMatching
}

/// Whether the delete key has something to delete in the session.
pub open spec fn has_delete_target(s: StateModel) -> bool {
    is_deletion(delete_step(disarmed(s)).request)
}

/// Entering insert mode from normal mode and cancelling it gives normal mode
/// back, with an empty one-line text that stands for nothing, whatever the
/// session was and whatever the text stood for before.
pub proof fn law_cancel_restores_normal(s: StateModel, enter: KeyEvent, cancel: KeyEvent)
    requires
        cancel.code == KeyCode::Esc,
    ensures
        ({
            let after = insert_step(normal_step(s, enter), cancel);
            &&& after.mode == AppMode::Normal
            &&& after.input_text == Seq::<char>::empty()
            &&& after.input_context == InputContext::Unset
        }),
{
}

/// A first press of the delete key deletes nothing: it arms the deletion and
/// leaves the request of the session as it is.
pub proof fn law_first_press_arms(s: StateModel, key: KeyEvent)
    requires
        is_delete_key(key),
        !armed(s),
    ensures
        armed(normal_step(s, key)),
        normal_step(s, key).request == s.request,
{
}

/// Two presses of the delete key, one after the other, ask for exactly one
/// deletion: none after the first press, the one that the focus stands for
/// after the second, and after that no deletion is armed any more.
pub proof fn law_two_presses_delete_once(s: StateModel, key: KeyEvent)
    requires
        is_delete_key(key),
        !armed(s),
        !is_deletion(s.request),
        has_delete_target(s),
    ensures
        !is_deletion(normal_step(s, key).request),
        is_deletion(normal_step(normal_step(s, key), key).request),
        normal_step(normal_step(s, key), key) == delete_step(disarmed(s)),
        !armed(normal_step(normal_step(s, key), key)),
{
    let first = normal_step(s, key);
    assert(disarmed(first) == disarmed(s));
}

/// Whether the step from `a` to `b` arms no deletion and asks for none.
pub open spec fn harmless(a: StateModel, b: StateModel) -> bool {
    &&& b.last_key is None || b.last_key == a.last_key
    &&& !is_deletion(b.request) || b.request == a.request
}

proof fn lemma_moves_are_harmless(s: StateModel, c: char)
    ensures
        harmless(s, tab_step(s)),
        harmless(s, escape_step(s)),
        harmless(s, down_step(s)),
        harmless(s, up_step(s)),
        harmless(s, focus_step(s, c)),
{
}

proof fn lemma_enter_is_harmless(s: StateModel)
    ensures
        harmless(s, enter_step(s)),
{
}

proof fn lemma_jumps_are_harmless(s: StateModel)
    ensures
        harmless(s, next_step(s)),
        harmless(s, previous_step(s)),
{
}

proof fn lemma_edits_are_harmless(s: StateModel)
    ensures
        harmless(s, edit_step(s)),
        harmless(s, edit_query_step(s)),
        harmless(s, delete_field_step(s)),
{
}

proof fn lemma_transfers_are_harmless(s: StateModel)
    ensures
        harmless(s, export_step(s)),
        harmless(s, import_collection_step(s)),
        harmless(s, import_database_step(s)),
{
}

proof fn lemma_commands_are_harmless(s: StateModel, c: char, control: bool, was_armed: bool)
    requires
        c != 'd' || control,
    ensures
        harmless(s, command_step(s, c, control, was_armed)),
{
    lemma_moves_are_harmless(s, c);
    lemma_jumps_are_harmless(s);
    lemma_edits_are_harmless(s);
    lemma_transfers_are_harmless(s);
}

/// A press of the delete key followed by any other key asks for none of the
/// deletions that the delete key stands for, and leaves none armed.
pub proof fn law_other_key_disarms(s: StateModel, key: KeyEvent, other: KeyEvent)
    requires
        is_delete_key(key),
        !armed(s),
        !is_deletion(s.request),
        !is_delete_key(other),
    ensures
        !is_deletion(normal_step(normal_step(s, key), other).request),
        !armed(normal_step(normal_step(s, key), other)),
{
    let first = normal_step(s, key);
    let d = disarmed(first);
    assert(d.request == s.request);
    assert(d.last_key is None);
    match other.code {
        KeyCode::Char(c) => {
            lemma_commands_are_harmless(d, c, other.modifiers.control, true);
        },
        KeyCode::Enter => {
            lemma_enter_is_harmless(d);
        },
        _ => {
            lemma_moves_are_harmless(d, 'x');
        },
    }
}

/// No key pressed in insert mode asks for a deletion.
pub proof fn law_insert_never_deletes(s: StateModel, key: KeyEvent)
    requires
        !is_deletion(s.request),
    ensures
        !is_deletion(insert_step(s, key).request),
{
}

} // verus!
