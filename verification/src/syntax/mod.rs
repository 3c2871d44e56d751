//! Source text, syntax trees and the relations between them.

pub mod ast;
pub mod ast_terms;
pub mod cells;
pub mod deep_clone;
pub mod desugar;
pub mod exact_decimal;
pub mod format_equivalent;
pub mod key_index;
pub mod laws;
pub mod lexer;
pub mod multi_decl;
pub mod names;
pub mod non_empty;
pub mod parser;
pub mod span;
pub mod span_free;
pub mod spelling;
pub mod term;
pub mod text;
pub mod token;
pub mod visitor;
pub mod visitor_mut;
