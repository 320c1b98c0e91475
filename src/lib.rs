//! Client-side core of a collaborative document editor: the document state
//! with its undo and redo history, revision-id allocation, the persisted
//! revision chain, and the session that ties them together.

pub mod codec;
pub mod document;
pub mod edit_doc;
pub mod error;
pub mod manager;
pub mod revision;
pub mod store;
