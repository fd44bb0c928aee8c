//! A local, single-user resource store.
//!
//! Resources are byte contents filed under a path, carrying a description,
//! a set of tags and one or more named variants (the `"default"` variant is
//! always present).  A relational full-text and tag index is maintained in
//! parallel so resources can be found by text or tag.

pub mod assoc;
pub mod fts;
pub mod indexer;
pub mod laws;
pub mod resource;
pub mod store;
pub mod strutil;
pub mod transformers;
