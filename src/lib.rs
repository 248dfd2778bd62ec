//! Conversion of component descriptions in the provider's shape language into
//! footprint and symbol library text, with the identifier heuristics and the
//! offline bundle reader that feed it.
//!
//! Lengths are carried as fixed-point integers: source values in
//! ten-thousandths of a source unit, millimetre values in nanometres.

mod chars;
pub mod num;
pub mod text;
pub mod ident;
pub mod footprint;
pub mod symbol;
pub mod json;
pub mod metadata;
pub mod table;
pub mod eventlog;
pub mod bundle;
pub mod error;
pub mod convert;
pub mod orchestrate;
pub mod settings;
pub mod search;
pub mod api;
