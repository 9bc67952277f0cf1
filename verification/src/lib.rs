//! Verified core of an inventory manager that keeps parts, rejection reasons,
//! preferences and inspection records in a local MongoDB database.

pub mod text;
pub mod names;
pub mod object_id;
pub mod document;
pub mod catalog;
pub mod entries;
pub mod query;
pub mod config;
pub mod server;
pub mod ordering;
