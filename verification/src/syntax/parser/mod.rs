//! From tokens to syntax trees.

pub mod decl;
pub mod decl_grammar;
pub mod error;
pub mod expr;
pub mod expr_grammar;
pub mod forms;
pub mod grammar;
pub mod lookahead;
pub mod messages;
pub mod multi;
pub mod multi_grammar;
pub mod nodes;
pub mod reading;
pub mod state;
pub mod table;
pub mod table_grammar;
pub mod types;
