//! What the session asks of the store, and in what order it is served.
//!
//! Within one turn of the driving loop a connection comes first, then the
//! collections of a database, then a page of documents, so that a collection
//! that has just been selected is listed before its documents are asked for.
//! Each of the three is served at most once in a turn.

use vstd::prelude::*;
use crate::app::{AppState, StateModel};

verus! {

/// How far a turn of the driving loop has come.
#[derive(Clone, Copy, Debug, PartialEq, Eq, Structural)]
pub enum Stage {
    /// Nothing is served yet.
    Start,
    /// The connection is served.
    Connected,
    /// The collections are served.
    Listed,
    /// The page is served: the turn is over.
    Fetched,
}

/// One thing asked of the store.
#[derive(Debug, PartialEq, Eq)]
pub enum Intent {
    /// Nothing more in this turn.
    Idle,
    Connect { uri: String },
    ListCollections { uri: String, db: String },
    FetchPage { uri: String, db: String, name: String },
}

/// The view of an [`Intent`].
pub enum IntentModel {
    Idle,
    Connect { uri: Seq<char> },
    ListCollections { uri: Seq<char>, db: Seq<char> },
    FetchPage { uri: Seq<char>, db: Seq<char>, name: Seq<char> },
}

impl DeepView for Intent {
    type V = IntentModel;

    open spec fn deep_view(&self) -> IntentModel {
        match self {
            Intent::Idle => IntentModel::Idle,
            Intent::Connect { uri } => IntentModel::Connect { uri: uri@ },
            Intent::ListCollections { uri, db } => IntentModel::ListCollections {
                uri: uri@,
                db: db@,
            },
            Intent::FetchPage { uri, db, name } => IntentModel::FetchPage {
                uri: uri@,
                db: db@,
                name: name@,
            },
        }
    }
}

/// The place of a stage in a turn.
pub open spec fn rank(stage: Stage) -> nat {
    match stage {
        Stage::Start => 0,
        Stage::Connected => 1,
        Stage::Listed => 2,
        Stage::Fetched => 3,
    }
}

/// The next thing to serve in a turn that has come to `stage`, and the stage
/// that the turn has come to once it is served.
pub open spec fn intent_at(s: StateModel, stage: Stage) -> (IntentModel, Stage) {
    match (
        if rank(stage) < 1 {
            s.connect_to
        } else {
            None
        },
        if rank(stage) < 2 {
            s.collection_to_load
        } else {
            None
        },
        if rank(stage) < 3 {
            s.fetch_collection_data
        } else {
            None
        },
    ) {
        (Some(uri), _, _) => (IntentModel::Connect { uri }, Stage::Connected),
        (None, Some(key), _) => (
            IntentModel::ListCollections { uri: key.0, db: key.1 },
            Stage::Listed,
        ),
        (None, None, Some(key)) => (
            IntentModel::FetchPage { uri: key.0, db: key.1, name: key.2 },
            Stage::Fetched,
        ),
        (None, None, None) => (IntentModel::Idle, Stage::Fetched),
    }
}

impl AppState {
    /// The next thing to serve in a turn that has come to `stage`, and the
    /// stage that the turn has come to once it is served. The stage moves on
    /// with every intent, so a turn serves each kind at most once and in
    /// order.
    pub fn next_intent(&self, stage: Stage) -> (r: (Intent, Stage))
        ensures
            r.0.deep_view() == intent_at(self@, stage).0,
            r.1 == intent_at(self@, stage).1,
            !(r.0 is Idle) ==> rank(r.1) > rank(stage),
    {
        let at = match stage {
            Stage::Start => 0u8,
            Stage::Connected => 1u8,
            Stage::Listed => 2u8,
            Stage::Fetched => 3u8,
        };
        if at < 1 {
            match &self.connect_to {
                Some(uri) => {
                    return (Intent::Connect { uri: uri.clone() }, Stage::Connected);
                },
                None => {},
            }
        }
        if at < 2 {
            match &self.collection_to_load {
                Some(key) => {
                    return (
                        Intent::ListCollections { uri: key.0.clone(), db: key.1.clone() },
                        Stage::Listed,
                    );
                },
                None => {},
            }
        }
        if at < 3 {
            match &self.fetch_collection_data {
                Some(key) => {
                    return (
                        Intent::FetchPage {
                            uri: key.0.clone(),
                            db: key.1.clone(),
                            name: key.2.clone(),
                        },
                        Stage::Fetched,
                    );
                },
                None => {},
            }
        }
        (Intent::Idle, Stage::Fetched)
    }
}

} // verus!
