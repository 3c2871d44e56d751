//! Name resolution.

pub mod builtins;
pub mod complete;
pub mod context;
pub mod datetime;
pub mod error;
pub mod error_nodes;
pub mod generics;
pub mod laws;
pub mod local_env;
pub mod local_numbers;
pub mod lower;
pub mod lower_generics;
pub mod lower_state;
pub mod lowering;
pub mod messages;
pub mod modules;
pub mod name_order;
pub mod names;
pub mod nodes;
pub mod refs;
pub mod resolve;
pub mod shape;
pub mod tree;
pub mod tree_terms;
pub mod visit;
