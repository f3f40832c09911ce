//! What holds of the page of documents, whatever the session: the offset for
//! the next page never falls behind the documents fetched.

use vstd::prelude::*;
use crate::app::StateModel;
use crate::document::DocumentModel;
use crate::editor::editor_step;
use crate::events::key_step;
use crate::filepicker::picker_step;
use crate::handler::{connection_step, listing_step, ConnectionOutcomeModel};
use crate::insert::insert_step;
use crate::keys::{KeyCode, KeyEvent};
use crate::normal::{
    command_step, delete_field_step, delete_step, down_step, edit_query_step, edit_step,
    enter_step, escape_step, export_step, focus_step, import_collection_step,
    import_database_step, next_step, normal_step, previous_step, tab_step, up_step,
};
use crate::pager::{all_fetched, reload_step, reset_step};
use crate::requests::mutation_step;

verus! {

/// The offset for the next page covers the documents fetched.
pub open spec fn offset_covers(s: StateModel) -> bool {
    s.current_documents.len() <= s.document_skip
}

/// Whether the step from `a` to `b` leaves the documents and the offset as
/// they are, or leaves no more documents than before under the same offset,
/// or no documents at all.
pub open spec fn keeps_page(a: StateModel, b: StateModel) -> bool {
    ||| b.current_documents.len() == 0
    ||| b.current_documents.len() == a.current_documents.len() && b.document_skip
        == a.document_skip
}

proof fn lemma_moves_keep_page(s: StateModel, c: char)
    ensures
        keeps_page(s, tab_step(s)),
        keeps_page(s, escape_step(s)),
        keeps_page(s, down_step(s)),
        keeps_page(s, up_step(s)),
        keeps_page(s, focus_step(s, c)),
        keeps_page(s, enter_step(s)),
{
}

proof fn lemma_jumps_keep_page(s: StateModel)
    ensures
        keeps_page(s, next_step(s)),
        keeps_page(s, previous_step(s)),
{
}

proof fn lemma_edits_keep_page(s: StateModel)
    ensures
        keeps_page(s, edit_step(s)),
        keeps_page(s, edit_query_step(s)),
        keeps_page(s, delete_field_step(s)),
        keeps_page(s, delete_step(s)),
{
}

proof fn lemma_transfers_keep_page(s: StateModel)
    ensures
        keeps_page(s, export_step(s)),
        keeps_page(s, import_collection_step(s)),
        keeps_page(s, import_database_step(s)),
{
}

proof fn lemma_commands_keep_page(s: StateModel, c: char, control: bool, was_armed: bool)
    ensures
        keeps_page(s, command_step(s, c, control, was_armed)),
{
    lemma_moves_keep_page(s, c);
    lemma_jumps_keep_page(s);
    lemma_edits_keep_page(s);
    lemma_transfers_keep_page(s);
}

proof fn lemma_normal_keeps_page(s: StateModel, key: KeyEvent)
    ensures
        keeps_page(s, normal_step(s, key)),
{
    let d = StateModel { last_key: None, ..s };
    match key.code {
        KeyCode::Char(c) => {
            lemma_commands_keep_page(
                d,
                c,
                key.modifiers.control,
                s.last_key matches Some(k) && k.code == KeyCode::Char('d'),
            );
        },
        _ => {
            lemma_moves_keep_page(d, 'x');
        },
    }
}

proof fn lemma_insert_keeps_page(s: StateModel, key: KeyEvent)
    ensures
        keeps_page(s, insert_step(s, key)),
{
}

proof fn lemma_editor_keeps_page(s: StateModel, key: KeyEvent)
    ensures
        keeps_page(s, editor_step(s, key)),
{
}

proof fn lemma_picker_keeps_page(s: StateModel, key: KeyEvent)
    ensures
        keeps_page(s, picker_step(s, key)),
{
}

/// No key makes the documents outrun the offset for the next page.
pub proof fn law_keys_keep_the_offset(s: StateModel, key: KeyEvent)
    requires
        offset_covers(s),
    ensures
        offset_covers(key_step(s, key)),
{
    lemma_normal_keeps_page(s, key);
    lemma_insert_keeps_page(s, key);
    lemma_editor_keeps_page(s, key);
    lemma_picker_keeps_page(s, key);
}

/// Neither a reset nor a reload makes the documents outrun the offset for
/// the next page.
pub proof fn law_reload_keeps_the_offset(
    s: StateModel,
    count: Result<u64, Seq<char>>,
    page: Result<Seq<DocumentModel>, Seq<char>>,
)
    requires
        offset_covers(s),
        page matches Ok(docs) ==> docs.len() <= usize::MAX,
    ensures
        offset_covers(reset_step(s)),
        offset_covers(reload_step(s, count, page)),
{
}

/// What comes of a connection, of a listing and of a change to the store
/// never makes the documents outrun the offset for the next page.
pub proof fn law_outcomes_keep_the_offset(
    s: StateModel,
    uri: Seq<char>,
    db: Seq<char>,
    outcome: ConnectionOutcomeModel,
    names: Result<Seq<Seq<char>>, Seq<char>>,
    result: Result<(), Seq<char>>,
)
    requires
        offset_covers(s),
    ensures
        offset_covers(connection_step(s, uri, outcome)),
        offset_covers(listing_step(s, uri, db, names)),
        offset_covers(mutation_step(s, result)),
{
}

/// Once every document that the session knows of is fetched, moving down
/// among the documents asks for no further page.
pub proof fn law_no_fetch_once_all_are_fetched(s: StateModel)
    requires
        all_fetched(s),
    ensures
        down_step(s).fetch_collection_data == s.fetch_collection_data,
        down_step(s).current_documents == s.current_documents,
        down_step(s).document_skip == s.document_skip,
{
}

} // verus!
