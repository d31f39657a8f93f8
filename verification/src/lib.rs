//! An in-memory record store for a small CRUD service, with list (paginated),
//! create (upsert), read, update (field-level partial merge, possibly re-keying),
//! and delete operations, each specified and verified.

pub mod controller;
pub mod laws;
pub mod model;
pub mod view;
