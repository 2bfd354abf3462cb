//! The built-in words.
pub mod select;
