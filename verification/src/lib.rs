//! An in-memory store for translated text snippets, each identified by its
//! content, language and usage context, with deduplication by a canonical
//! content string.

pub mod model;
pub mod repository;
pub mod memory_repository;
