//! Personal financial records: a forward-only schema migration engine and a
//! content-addressed statement store, with their decisions verified.

pub mod text;
pub mod outside;
pub mod migration;
pub mod catalog;
pub mod source;
pub mod runner;
pub mod records;
pub mod user_data;
pub mod ingest;
pub mod interner;
pub mod trie;
pub mod repl;
