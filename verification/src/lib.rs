//! The session engine of a terminal browser for a document store.
//!
//! The library holds what the browser knows and decides: the navigation list
//! of connections, databases and collections; the documents of a collection,
//! fetched page by page; the difference between a document and its edited
//! form; and the modes in which keys are read. It never talks to a store, a
//! terminal or a file itself. It says what it asks for, and is handed the
//! outcome.
//!
//! Every function is verified against its contract. The contracts are stated
//! over the views of the data: [`app::StateModel`] for the session,
//! [`document::ValueModel`] for values.

pub mod app;
pub mod coerce;
pub mod collections;
pub mod connections;
pub mod diff;
pub mod diff_laws;
pub mod display;
pub mod document;
pub mod editor;
pub mod events;
pub mod failure_laws;
pub mod filepicker;
pub mod handler;
pub mod help;
pub mod insert;
pub mod intents;
pub mod keys;
pub mod mode_laws;
pub mod normal;
pub mod pager;
pub mod pager_laws;
pub mod patch;
pub mod requests;
pub mod text;
pub mod tree;
