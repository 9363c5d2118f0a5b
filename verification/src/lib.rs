//! An in-memory record store with a navigable cursor.
//!
//! Clients ingest item records one at a time; the store keeps every record in
//! arrival order together with a cursor over that order, and can show the
//! record the cursor selects, or move the cursor first/previous/next/last.

pub mod laws;
pub mod record;
pub mod store;

pub use record::Record;
pub use store::{Direction, Store};
