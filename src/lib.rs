//! Schema-driven command-line option parsing.
//!
//! An option schema lists each option's name, literal default, value kind
//! and short/long spellings. From it the library assembles the default
//! configuration record and parses argument sequences into a populated
//! record, or reports the first error met.
pub mod config;
pub mod laws;
pub mod parse;
pub mod schema;
pub mod token;
pub mod value;
