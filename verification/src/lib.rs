//! Syntax, desugaring and name resolution for Graphcal, a language of unit-aware
//! calculation graphs.

pub mod desugar;
pub mod exact_rational;
pub mod hir;
pub mod json;
pub mod registry;
pub mod syntax;
