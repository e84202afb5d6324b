//! A small lending library: books, members and checkout transactions kept in
//! one in-process store, with identifiers that are unique over all three kinds
//! of record and a four-stage checkout lifecycle.

pub mod codec;
pub mod commands;
pub mod lending;
pub mod library;
pub mod lifecycle;
pub mod ordered;
pub mod persistence;
pub mod records;
pub mod text;
pub mod utils;
