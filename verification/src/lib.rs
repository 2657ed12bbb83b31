//! A read-only catalog of ports and userstyles: two differently shaped source
//! documents are normalised into one entity model, merged in a fixed order,
//! indexed by identifier, username and category key, and queried.

pub mod adapter;
pub mod assoc;
pub mod enrich;
pub mod index;
pub mod merge;
pub mod models;
pub mod query;
pub mod text;
