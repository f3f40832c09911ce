//! What holds of failures, whatever the session: a failure is reported and
//! leaves in place what it did not concern.

use vstd::prelude::*;
use crate::app::StateModel;
use crate::document::DocumentModel;
use crate::handler::{connection_step, listing_step, ConnectionOutcomeModel};
use crate::pager::{fetch_step, reload_step};
use crate::requests::mutation_step;

verus! {

/// Whether two sessions show the same place: the same navigation list and
/// documents, with the cursors, the focus and the selected collection where
/// they were.
pub open spec fn same_place(a: StateModel, b: StateModel) -> bool {
    &&& b.tree_items == a.tree_items
    &&& b.selected_index == a.selected_index
    &&& b.focus == a.focus
    &&& b.current_documents == a.current_documents
    &&& b.selected_doc_index == a.selected_doc_index
    &&& b.selected_field_index == a.selected_field_index
    &&& b.doc_scroll_offset == a.doc_scroll_offset
    &&& b.selected_collection == a.selected_collection
    &&& b.document_skip == a.document_skip
}

/// Whether two sessions know the same of the store: the same connection in
/// use, the same names, the same nodes expanded.
pub open spec fn same_knowledge(a: StateModel, b: StateModel) -> bool {
    &&& b.connected_uri == a.connected_uri
    &&& b.has_client == a.has_client
    &&& b.database_map == a.database_map
    &&& b.collection_map == a.collection_map
    &&& b.expanded_uris == a.expanded_uris
    &&& b.expanded_dbs == a.expanded_dbs
}

/// A change to the store that failed is reported, and leaves the place and
/// what is known of the store as they were.
pub proof fn law_failed_change_keeps_the_place(s: StateModel, reason: Seq<char>)
    ensures
        same_place(s, mutation_step(s, Err(reason))),
        same_knowledge(s, mutation_step(s, Err(reason))),
        mutation_step(s, Err(reason)).popup_message is Some || mutation_step(
            s,
            Err(reason),
        ).popup_message == s.popup_message,
{
}

/// A count or a fetch that failed leaves the page as it was, and so does a
/// listing that failed.
pub proof fn law_failed_query_keeps_the_page(
    s: StateModel,
    uri: Seq<char>,
    db: Seq<char>,
    name: Seq<char>,
    count: Result<u64, Seq<char>>,
    page: Result<Seq<DocumentModel>, Seq<char>>,
    reason: Seq<char>,
)
    requires
        count is Err || page is Err,
    ensures
        fetch_step(s, uri, db, name, count, page).current_documents == s.current_documents,
        fetch_step(s, uri, db, name, count, page).document_skip == s.document_skip,
        fetch_step(s, uri, db, name, count, page).selected_collection == s.selected_collection,
        reload_step(s, count, page).current_documents == s.current_documents,
        reload_step(s, count, page).document_skip == s.document_skip,
        same_place(s, listing_step(s, uri, db, Err(reason))),
        same_knowledge(s, listing_step(s, uri, db, Err(reason))),
{
}

/// A connection that failed leaves nothing known of its address: no database
/// names, no collection names, nothing expanded, and no connection in use.
pub proof fn law_failed_connection_is_forgotten(
    s: StateModel,
    uri: Seq<char>,
    reason: Seq<char>,
    db: Seq<char>,
)
    ensures
        ({
            let after = connection_step(s, uri, ConnectionOutcomeModel::Failed(reason));
            &&& !after.has_client
            &&& after.connected_uri is None
            &&& !after.database_map.dom().contains(uri)
            &&& !after.expanded_uris.contains(uri)
            &&& !after.expanded_dbs.contains((uri, db))
            &&& !after.collection_map.dom().contains((uri, db))
            &&& after.current_documents.len() == 0
            &&& after.selected_collection is None
            &&& after.popup_message is Some
        }),
{
}

} // verus!
