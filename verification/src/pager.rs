//! The documents of the selected collection, fetched page by page.
//!
//! The session asks for a page; the driving loop counts and fetches, and hands
//! both outcomes back. A page is appended to the documents fetched so far. The
//! filter and the sort text are sent as they stand where they denote a
//! document, and as the query without conditions where they do not.

use vstd::prelude::*;
use vstd::string::*;
use crate::app::{AppState, Request, RequestModel, StateModel};
use crate::document::{Document, DocumentModel};
use crate::text::{blank, is_blank, join};

verus! {

/// Whether a text denotes a document for `serde_json::from_str` with
/// `bson::Document` as its target.
pub uninterp spec fn denotes_document(text: Seq<char>) -> bool;

/// Trusted: `serde_json::from_str::<bson::Document>`. Whether it succeeds
/// depends on the text alone; the result is the value that the name
/// `denotes_document` stands for.
#[verifier::external_body]
pub(crate) fn parses_as_document(text: &str) -> (b: bool)
    ensures
        b == denotes_document(text@),
{
    serde_json::from_str::<bson::Document>(text).is_ok()
}

/// The query without conditions.
pub open spec fn empty_query() -> Seq<char> {
    "{}"@
}

/// The query sent for `text`, given whether `text` denotes a document: the
/// text itself where it is not blank and denotes one, else the query without
/// conditions.
pub open spec fn query_for(text: Seq<char>, denotes: bool) -> Seq<char> {
    if !is_blank(text) && denotes {
        text
    } else {
        empty_query()
    }
}

/// The query sent for `text`, given whether `text` denotes a document.
pub fn query_or_default(text: &str, denotes: bool) -> (q: String)
    ensures
        q@ == query_for(text@, denotes),
{
    if !blank(text) && denotes {
        text.to_owned()
    } else {
        "{}".to_owned()
    }
}

/// The filter and the sort that are sent for the two texts. A text that does
/// not denote a document is not an error: it stands for the query without
/// conditions.
pub fn apply_filter_sort(filter: &str, sort: &str) -> (r: (String, String))
    ensures
        r.0@ == query_for(filter@, denotes_document(filter@)),
        r.1@ == query_for(sort@, denotes_document(sort@)),
{
    let f = query_or_default(filter, parses_as_document(filter));
    let s = query_or_default(sort, parses_as_document(sort));
    (f, s)
}

/// What is fetched next of a collection.
#[derive(Debug)]
pub struct PageRequest {
    /// The number of documents to pass over.
    pub skip: usize,
    /// The greatest number of documents to fetch.
    pub limit: usize,
    pub filter: String,
    pub sort: String,
}

/// The outcome of a count or a fetch, over mathematical values.
pub open spec fn count_model(r: Result<u64, String>) -> Result<u64, Seq<char>> {
    match r {
        Ok(n) => Ok(n),
        Err(e) => Err(e@),
    }
}

pub open spec fn page_model(r: Result<Vec<Document>, String>) -> Result<
    Seq<DocumentModel>,
    Seq<char>,
> {
    match r {
        Ok(docs) => Ok(docs.deep_view()),
        Err(e) => Err(e@),
    }
}

/// `a + b`, or the greatest `usize` where the sum does not fit.
pub open spec fn capped_sum(a: usize, b: usize) -> usize {
    if a + b <= usize::MAX {
        (a + b) as usize
    } else {
        usize::MAX
    }
}

pub open spec fn count_failed(e: Seq<char>) -> Seq<char> {
    "⚠️ Could not count documents: "@ + e
}

pub open spec fn fetch_failed(db: Seq<char>, name: Seq<char>, e: Seq<char>) -> Seq<char> {
    "Failed to fetch documents for "@ + db + "."@ + name + ": "@ + e
}

pub open spec fn reload_failed(db: Seq<char>, name: Seq<char>, e: Seq<char>) -> Seq<char> {
    "❌ "@ + fetch_failed(db, name, e)
}

/// The session after the outcomes of counting and fetching the next page of
/// the collection `name` are folded in.
///
/// Without a client nothing was asked and only the request for the page is
/// dropped. A count that failed is reported and the page is left for another
/// try. A count that succeeded is kept. A page that failed is reported. A
/// page that came is appended, the offset for the next page moves on by one
/// page size, and the collection counts as selected; an empty page changes
/// neither the documents nor the offset.
pub open spec fn fetch_step(
    s: StateModel,
    uri: Seq<char>,
    db: Seq<char>,
    name: Seq<char>,
    count: Result<u64, Seq<char>>,
    page: Result<Seq<DocumentModel>, Seq<char>>,
) -> StateModel {
    if !s.has_client {
        StateModel { fetch_collection_data: None, ..s }
    } else {
        match count {
            Err(e) => StateModel { popup_message: Some(count_failed(e)), ..s },
            Ok(n) => {
                let counted = StateModel {
                    document_counts: s.document_counts.insert((uri, db, name), n),
                    fetch_collection_data: None,
                    ..s
                };
                match page {
                    Err(e) => StateModel {
                        popup_message: Some(fetch_failed(db, name, e)),
                        ..counted
                    },
                    Ok(docs) => {
                        let rewound = if is_blank(s.filter_text) {
                            counted
                        } else {
                            StateModel { selected_doc_index: 0, doc_scroll_offset: 0, ..counted }
                        };
                        let grown = if docs.len() > 0 {
                            StateModel {
                                current_documents: s.current_documents + docs,
                                document_skip: capped_sum(s.document_skip, s.document_limit),
                                ..rewound
                            }
                        } else {
                            rewound
                        };
                        StateModel { selected_collection: Some((uri, db, name)), ..grown }
                    },
                }
            },
        }
    }
}

/// The session after the outcomes of counting and fetching the selected
/// collection anew are folded in: the count is kept and the page fetched
/// replaces the documents, with the offset for the next page behind it. A
/// failure is reported and leaves the documents as they are.
pub open spec fn reload_step(
    s: StateModel,
    count: Result<u64, Seq<char>>,
    page: Result<Seq<DocumentModel>, Seq<char>>,
) -> StateModel {
    let done = StateModel { request: RequestModel::Idle, ..s };
    if !s.has_client {
        done
    } else {
        match s.selected_collection {
            None => done,
            Some(key) => match count {
                Err(e) => StateModel { popup_message: Some(count_failed(e)), ..done },
                Ok(n) => {
                    let counted = StateModel {
                        document_counts: s.document_counts.insert(key, n),
                        ..done
                    };
                    match page {
                        Err(e) => StateModel {
                            popup_message: Some(reload_failed(key.1, key.2, e)),
                            ..counted
                        },
                        Ok(docs) => StateModel {
                            current_documents: docs,
                            document_skip: docs.len() as usize,
                            ..counted
                        },
                    }
                },
            },
        }
    }
}

/// The session after the page is reset: the documents are dropped, the offset
/// is 0, and the first page of the selected collection is asked for. Without
/// a selected collection nothing changes.
pub open spec fn reset_step(s: StateModel) -> StateModel {
    match s.selected_collection {
        None => s,
        Some(key) => StateModel {
            current_documents: Seq::empty(),
            document_skip: 0,
            fetch_collection_data: Some(key),
            ..s
        },
    }
}

/// Whether every document that the session knows of has been fetched: a
/// collection is selected, its count is known, and as many documents are
/// fetched.
pub open spec fn all_fetched(s: StateModel) -> bool {
    match s.selected_collection {
        None => false,
        Some(key) => s.document_counts.dom().contains(key) && s.current_documents.len()
            >= s.document_counts[key],
    }
}

impl AppState {
    /// What to fetch for the next page: the documents after those fetched so
    /// far, one page size at most, under the filter and the sort in force.
    pub fn next_page_request(&self) -> (r: PageRequest)
        ensures
            r.skip == self@.current_documents.len(),
            r.limit == self@.document_limit,
            r.filter@ == query_for(self@.filter_text, denotes_document(self@.filter_text)),
            r.sort@ == query_for(self@.sort_text, denotes_document(self@.sort_text)),
    {
        let (filter, sort) = apply_filter_sort(self.filter_text.as_str(), self.sort_text.as_str());
        PageRequest {
            skip: self.current_documents.len(),
            limit: self.document_limit,
            filter,
            sort,
        }
    }

    /// What to fetch to load the selected collection anew: its first page.
    pub fn first_page_request(&self) -> (r: PageRequest)
        ensures
            r.skip == 0,
            r.limit == self@.document_limit,
            r.filter@ == query_for(self@.filter_text, denotes_document(self@.filter_text)),
            r.sort@ == query_for(self@.sort_text, denotes_document(self@.sort_text)),
    {
        let (filter, sort) = apply_filter_sort(self.filter_text.as_str(), self.sort_text.as_str());
        PageRequest { skip: 0, limit: self.document_limit, filter, sort }
    }

    /// Whether every document that the session knows of has been fetched.
    pub fn all_fetched(&self) -> (b: bool)
        ensures
            b == all_fetched(self@),
    {
        match &self.selected_collection {
            None => false,
            Some(key) => match self.document_counts.get(key) {
                None => false,
                Some(count) => self.current_documents.len() as u64 >= *count,
            },
        }
    }

    /// Drops the documents fetched and asks for the first page of the selected
    /// collection.
    pub fn reset_page(&mut self)
        ensures
            final(self)@ == reset_step(old(self)@),
    {
        let key = match &self.selected_collection {
            None => {
                return ;
            },
            Some(key) => (key.0.clone(), key.1.clone(), key.2.clone()),
        };
        self.current_documents = Vec::new();
        self.document_skip = 0;
        self.fetch_collection_data = Some(key);
        proof {
            assert(self@.current_documents =~= Seq::empty());
        }
    }

    /// Folds in the outcomes of counting and fetching the selected collection
    /// anew.
    pub fn reload_documents_for_selected_collection(
        &mut self,
        count: Result<u64, String>,
        page: Result<Vec<Document>, String>,
    )
        ensures
            final(self)@ == reload_step(old(self)@, count_model(count), page_model(page)),
    {
        self.request = Request::Idle;
        if !self.has_client {
            return ;
        }
        let key = match &self.selected_collection {
            None => {
                return ;
            },
            Some(key) => (key.0.clone(), key.1.clone(), key.2.clone()),
        };
        match count {
            Err(e) => {
                self.popup_message = Some(join("⚠️ Could not count documents: ", e.as_str()));
            },
            Ok(n) => {
                let db = key.1.clone();
                let name = key.2.clone();
                self.document_counts.insert(key, n);
                match page {
                    Err(e) => {
                        let mut m = "❌ ".to_owned();
                        m.append(fetch_failed_message(db.as_str(), name.as_str(), e.as_str()).as_str());
                        self.popup_message = Some(m);
                    },
                    Ok(docs) => {
                        self.document_skip = docs.len();
                        self.current_documents = docs;
                    },
                }
            },
        }
    }
}

/// The message for a page that could not be fetched.
pub fn fetch_failed_message(db: &str, name: &str, e: &str) -> (m: String)
    ensures
        m@ == fetch_failed(db@, name@, e@),
{
    let mut m = "Failed to fetch documents for ".to_owned();
    m.append(db);
    m.append(".");
    m.append(name);
    m.append(": ");
    m.append(e);
    m
}

/// Folds in the outcomes of counting and fetching the next page of the
/// collection `name` of the database `db` of the connection `uri`.
pub fn fetch_and_update_documents(
    state: &mut AppState,
    uri: &str,
    db: &str,
    name: &str,
    count: Result<u64, String>,
    page: Result<Vec<Document>, String>,
)
    ensures
        final(state)@ == fetch_step(
            old(state)@,
            uri@,
            db@,
            name@,
            count_model(count),
            page_model(page),
        ),
{
    if !state.has_client {
        state.fetch_collection_data = None;
        return ;
    }
    match count {
        Err(e) => {
            state.popup_message = Some(join("⚠️ Could not count documents: ", e.as_str()));
        },
        Ok(n) => {
            state.document_counts.insert((uri.to_owned(), db.to_owned(), name.to_owned()), n);
            state.fetch_collection_data = None;
            match page {
                Err(e) => {
                    state.popup_message = Some(fetch_failed_message(db, name, e.as_str()));
                },
                Ok(new_docs) => {
                    let mut new_docs = new_docs;
                    if !blank(state.filter_text.as_str()) {
                        state.selected_doc_index = 0;
                        state.doc_scroll_offset = 0;
                    }
                    if new_docs.len() > 0 {
                        let ghost before = state.current_documents.deep_view();
                        let ghost added = new_docs.deep_view();
                        state.current_documents.append(&mut new_docs);
                        state.document_skip = state.document_skip.saturating_add(
                            state.document_limit,
                        );
                        proof {
                            assert(state.current_documents.deep_view() =~= before + added);
                        }
                    }
                    state.selected_collection = Some(
                        (uri.to_owned(), db.to_owned(), name.to_owned()),
                    );
                },
            }
        },
    }
}

/// The page that a store holding the documents `all`, in the order of the
/// query, answers a fetch with.
pub open spec fn page_of(all: Seq<DocumentModel>, skip: nat, limit: nat) -> Seq<DocumentModel> {
    let from = if skip <= all.len() {
        skip
    } else {
        all.len()
    };
    let to = if skip + limit <= all.len() {
        skip + limit
    } else {
        all.len()
    };
    all.subrange(from as int, to as int)
}

/// The session after the next page is fetched from a store that holds the
/// documents `all` and counts them right.
pub open spec fn next_page(
    s: StateModel,
    uri: Seq<char>,
    db: Seq<char>,
    name: Seq<char>,
    all: Seq<DocumentModel>,
) -> StateModel {
    fetch_step(
        s,
        uri,
        db,
        name,
        Ok(all.len() as u64),
        Ok(page_of(all, s.current_documents.len(), s.document_limit as nat)),
    )
}

/// Fetching the next page keeps every document fetched before in its place
/// and appends the documents that follow them in the store, one page size at
/// most: none is fetched twice and none is passed over.
pub proof fn law_next_page_appends(
    s: StateModel,
    uri: Seq<char>,
    db: Seq<char>,
    name: Seq<char>,
    all: Seq<DocumentModel>,
)
    requires
        s.has_client,
        s.current_documents.len() <= all.len(),
        s.current_documents == all.take(s.current_documents.len() as int),
    ensures
        ({
            let after = next_page(s, uri, db, name, all).current_documents;
            let reach = if s.current_documents.len() + s.document_limit <= all.len() {
                s.current_documents.len() + s.document_limit
            } else {
                all.len() as int
            };
            after == all.take(reach)
        }),
{
    let after = next_page(s, uri, db, name, all).current_documents;
    let reach = if s.current_documents.len() + s.document_limit <= all.len() {
        s.current_documents.len() + s.document_limit
    } else {
        all.len() as int
    };
    assert(after =~= all.take(reach));
}

/// Once as many documents are fetched as the store holds, a further fetch
/// brings none and leaves the documents and the offset for the next page as
/// they are.
pub proof fn law_no_page_past_the_end(
    s: StateModel,
    uri: Seq<char>,
    db: Seq<char>,
    name: Seq<char>,
    all: Seq<DocumentModel>,
)
    requires
        s.has_client,
        s.current_documents.len() == all.len(),
    ensures
        page_of(all, s.current_documents.len(), s.document_limit as nat).len() == 0,
        next_page(s, uri, db, name, all).current_documents == s.current_documents,
        next_page(s, uri, db, name, all).document_skip == s.document_skip,
{
}

/// Where no more documents are fetched than the offset for the next page
/// says, and a page holds no more than one page size, the same holds after
/// the page is folded in.
pub proof fn law_offset_covers_documents(
    s: StateModel,
    uri: Seq<char>,
    db: Seq<char>,
    name: Seq<char>,
    count: Result<u64, Seq<char>>,
    page: Result<Seq<DocumentModel>, Seq<char>>,
)
    requires
        s.current_documents.len() <= s.document_skip,
        page matches Ok(docs) ==> docs.len() <= s.document_limit && s.current_documents.len()
            + docs.len() <= usize::MAX,
    ensures
        fetch_step(s, uri, db, name, count, page).current_documents.len() <= fetch_step(
            s,
            uri,
            db,
            name,
            count,
            page,
        ).document_skip,
{
}

} // verus!
