//! Folding in what the driving loop found out about a connection and about
//! the collections of a database.

use vstd::prelude::*;
use vstd::string::*;
use crate::app::{AppState, StateModel};
use crate::text::same_text;
use crate::tree::{flatten, invalidate_step, tree_of};

verus! {

/// What an attempt to connect came to.
#[derive(Debug)]
pub enum ConnectionOutcome {
    /// No connection; the reason is held.
    Failed(String),
    /// A connection, with the database names where they could be listed, and
    /// the collection names of the database that was to be listed with it,
    /// where they could be.
    Up { databases: Option<Vec<String>>, collections: Option<Vec<String>> },
}

/// The view of a [`ConnectionOutcome`].
pub enum ConnectionOutcomeModel {
    Failed(Seq<char>),
    Up { databases: Option<Seq<Seq<char>>>, collections: Option<Seq<Seq<char>>> },
}

impl DeepView for ConnectionOutcome {
    type V = ConnectionOutcomeModel;

    open spec fn deep_view(&self) -> ConnectionOutcomeModel {
        match self {
            ConnectionOutcome::Failed(e) => ConnectionOutcomeModel::Failed(e@),
            ConnectionOutcome::Up { databases, collections } => ConnectionOutcomeModel::Up {
                databases: databases.deep_view(),
                collections: collections.deep_view(),
            },
        }
    }
}

/// `s` with its navigation list derived anew.
pub open spec fn rebuilt(s: StateModel) -> StateModel {
    StateModel { tree_items: flatten(tree_of(s)), ..s }
}

/// The database whose collections are to be listed along with a connection
/// to `uri`: the one that waits for that connection.
pub open spec fn database_to_list(s: StateModel, uri: Seq<char>) -> Option<Seq<char>> {
    match s.db_to_expand {
        Some(key) => if key.0 == uri {
            Some(key.1)
        } else {
            None
        },
        None => None,
    }
}

pub open spec fn connection_failed(uri: Seq<char>, e: Seq<char>) -> Seq<char> {
    "❌ Connection failed to "@ + uri + ": "@ + e
}

pub open spec fn listing_failed(uri: Seq<char>, db: Seq<char>, e: Seq<char>) -> Seq<char> {
    "Failed to list collections for "@ + uri + "."@ + db + ": "@ + e
}

/// The session after an attempt to connect to `uri` is folded in.
///
/// A connection that is up becomes the one in use; its database names, where
/// they came, are kept and the connection is expanded; the collection names
/// of the database that waited for it, where they came, are kept and that
/// database is expanded. A connection that failed leaves none in use, drops
/// all that was known of `uri` and the documents on show, and is reported.
/// Either way no connection and no database waits any longer.
pub open spec fn connection_step(
    s: StateModel,
    uri: Seq<char>,
    outcome: ConnectionOutcomeModel,
) -> StateModel {
    let cleared = StateModel { connect_to: None, has_client: false, connected_uri: None, ..s };
    match outcome {
        ConnectionOutcomeModel::Up { databases, collections } => {
            let up = StateModel { has_client: true, connected_uri: Some(uri), ..cleared };
            let listed = match databases {
                Some(dbs) => rebuilt(
                    StateModel {
                        database_map: up.database_map.insert(uri, dbs),
                        expanded_uris: up.expanded_uris.insert(uri),
                        ..up
                    },
                ),
                None => up,
            };
            let expanded = match (database_to_list(s, uri), collections) {
                (Some(db), Some(names)) => rebuilt(
                    StateModel {
                        collection_map: listed.collection_map.insert((uri, db), names),
                        expanded_dbs: listed.expanded_dbs.insert((uri, db)),
                        ..listed
                    },
                ),
                _ => listed,
            };
            StateModel { db_to_expand: None, ..expanded }
        },
        ConnectionOutcomeModel::Failed(e) => {
            let dropped = invalidate_step(cleared, uri);
            let emptied = StateModel {
                current_documents: Seq::empty(),
                selected_collection: None,
                selected_doc_index: 0,
                doc_scroll_offset: 0,
                ..dropped
            };
            StateModel {
                popup_message: Some(connection_failed(uri, e)),
                db_to_expand: None,
                ..rebuilt(emptied)
            }
        },
    }
}

/// The session after the collection names of the database `db` are folded in:
/// names that came are kept, the database is expanded and the navigation list
/// is derived anew; a failure is reported. Without a client nothing was asked.
/// Either way the request for the names is dropped.
pub open spec fn listing_step(
    s: StateModel,
    uri: Seq<char>,
    db: Seq<char>,
    outcome: Result<Seq<Seq<char>>, Seq<char>>,
) -> StateModel {
    let done = StateModel { collection_to_load: None, ..s };
    if !s.has_client {
        done
    } else {
        match outcome {
            Ok(names) => rebuilt(
                StateModel {
                    collection_map: done.collection_map.insert((uri, db), names),
                    expanded_dbs: done.expanded_dbs.insert((uri, db)),
                    ..done
                },
            ),
            Err(e) => StateModel { popup_message: Some(listing_failed(uri, db, e)), ..done },
        }
    }
}

/// The outcome of listing names, over mathematical values.
pub open spec fn names_model(r: Result<Vec<String>, String>) -> Result<Seq<Seq<char>>, Seq<char>> {
    match r {
        Ok(names) => Ok(names.deep_view()),
        Err(e) => Err(e@),
    }
}

impl AppState {
    /// The database whose collections are to be listed along with a
    /// connection to `uri`.
    pub fn database_to_list(&self, uri: &str) -> (r: Option<String>)
        ensures
            r.deep_view() == database_to_list(self@, uri@),
    {
        match &self.db_to_expand {
            Some(key) => if same_text(key.0.as_str(), uri) {
                Some(key.1.clone())
            } else {
                None
            },
            None => None,
        }
    }
}

/// Folds in what an attempt to connect to `uri` came to.
pub fn handle_connection(state: &mut AppState, uri: &str, outcome: ConnectionOutcome)
    ensures
        final(state)@ == connection_step(old(state)@, uri@, outcome.deep_view()),
{
    let waiting = state.database_to_list(uri);
    state.connect_to = None;
    state.has_client = false;
    state.connected_uri = None;
    match outcome {
        ConnectionOutcome::Up { databases, collections } => {
            state.has_client = true;
            state.connected_uri = Some(uri.to_owned());
            match databases {
                Some(dbs) => {
                    let ghost before = state@;
                    state.database_map.insert(uri.to_owned(), dbs);
                    state.expanded_uris.insert(uri.to_owned());
                    proof {
                        assert(state@.database_map =~= before.database_map.insert(
                            uri@,
                            dbs.deep_view(),
                        ));
                    }
                    state.rebuild_tree_items();
                },
                None => {},
            }
            match waiting {
                Some(db) => match collections {
                    Some(names) => {
                        let ghost before = state@;
                        state.collection_map.insert((uri.to_owned(), db.clone()), names);
                        state.expanded_dbs.insert((uri.to_owned(), db));
                        proof {
                            assert(state@.collection_map =~= before.collection_map.insert(
                                (uri@, db@),
                                names.deep_view(),
                            ));
                        }
                        state.rebuild_tree_items();
                    },
                    None => {},
                },
                None => {},
            }
        },
        ConnectionOutcome::Failed(e) => {
            state.invalidate_connection(uri);
            state.current_documents = Vec::new();
            state.selected_collection = None;
            state.selected_doc_index = 0;
            state.doc_scroll_offset = 0;
            proof {
                assert(state@.current_documents =~= Seq::empty());
            }
            state.rebuild_tree_items();
            let mut m = "❌ Connection failed to ".to_owned();
            m.append(uri);
            m.append(": ");
            m.append(e.as_str());
            state.popup_message = Some(m);
        },
    }
    state.db_to_expand = None;
}

/// Folds in the collection names listed for the database `db_name` of the
/// connection `db_uri`.
pub fn handle_collection_listing(
    state: &mut AppState,
    db_uri: &str,
    db_name: &str,
    outcome: Result<Vec<String>, String>,
)
    ensures
        final(state)@ == listing_step(old(state)@, db_uri@, db_name@, names_model(outcome)),
{
    state.collection_to_load = None;
    if !state.has_client {
        return ;
    }
    match outcome {
        Ok(names) => {
            let ghost before = state@;
            state.collection_map.insert((db_uri.to_owned(), db_name.to_owned()), names);
            state.expanded_dbs.insert((db_uri.to_owned(), db_name.to_owned()));
            proof {
                assert(state@.collection_map =~= before.collection_map.insert(
                    (db_uri@, db_name@),
                    names.deep_view(),
                ));
            }
            state.rebuild_tree_items();
        },
        Err(e) => {
            let mut m = "Failed to list collections for ".to_owned();
            m.append(db_uri);
            m.append(".");
            m.append(db_name);
            m.append(": ");
            m.append(e.as_str());
            state.popup_message = Some(m);
        },
    }
}

} // verus!
