//! Desugared syntax trees and the conversion into them.

pub mod convert;
pub mod desugared_ast;
pub mod visitor;
pub mod visitor_mut;
