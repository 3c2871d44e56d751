//! What is known of declared things.

pub mod dimension;
pub mod index;
