//! Indexing engine for a music collection laid out as Artist/Album/Track
//! directories: the crawl plan, artwork and title selection, the relational
//! store with its atomic rebuild, and the read queries over it.

pub mod config;
pub mod error;
pub mod data_type;
pub mod scan;
pub mod plan;
pub mod metadata;
pub mod store;
pub mod rebuild;
pub mod query;
pub mod laws;
