//! Searching a directory tree for entries whose name or extension matches a
//! query, with the file system kept outside: the library decides, its caller
//! lists directories and prints.

pub mod entry;
pub mod laws;
pub mod query;
pub mod report;
pub mod text;
pub mod tree;
pub mod walker;
