//! Quoting backend core: a catalog of compute and disk SKUs, named quotes
//! made of line items, best-match lookup and paginated listing, all specified
//! against sequence models of the store.

pub mod db;
mod ext;
pub mod handlers;
pub mod laws;
pub mod models;
pub mod sort;
pub mod text;
