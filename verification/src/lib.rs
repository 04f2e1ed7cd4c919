//! Checks the fields that a record declares against the keys that a
//! configuration section offers, and reports each disagreement as a
//! diagnostic.

pub mod config;
pub mod declaration;
pub mod diagnostic;
pub mod diff;
pub mod laws;
pub mod listing;
pub mod text;
pub mod validate;
