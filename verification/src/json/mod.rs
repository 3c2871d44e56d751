//! Parameter values from JSON.
//!
//! A JSON object gives each parameter a value: a string is an expression, a
//! number or a boolean is itself, and an object is a constructor call or a map
//! over an index. No key may occur twice, and a number has to be representable.

pub mod convert;
pub mod decimals;
pub mod error;
pub mod exact;
pub mod laws;
pub mod meaning;
pub mod messages;
