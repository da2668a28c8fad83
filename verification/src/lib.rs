//! Discovery of installed fonts and construction of a fallback-aware family
//! table: every enumerated family maps to an ordered chain of named font
//! entries that always ends with the generic monospace and proportional
//! chains, so any family can render arbitrary text.

pub mod model;
pub mod name;
pub mod table;
pub mod builder;
pub mod laws;
pub mod source;
