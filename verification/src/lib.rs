//! A graph-construction engine for source repositories.
//!
//! Per-language parse results (candidate entities and candidate references)
//! are normalized into one typed entity/relationship graph: files, classes,
//! functions, data models, HTTP-style requests, pages, and the call, render
//! and import relations between them.  The graph lives behind a
//! storage-agnostic store abstraction with interchangeable backends that
//! produce observably identical results for the same input.

pub mod builder;
pub mod fixtures;
pub mod frontend;
pub mod input;
pub mod laws;
pub mod resolve;
pub mod store;
pub mod store_btree;
pub mod strutil;
pub mod taxonomy;
