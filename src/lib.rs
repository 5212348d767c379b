//! Runtime values of a style-sheet preprocessor: exact numbers with units,
//! the value tree, its CSS serialization and its debug inspection.

pub mod equality;
pub mod error;
pub mod escape;
pub mod laws;
pub mod number;
pub mod ops;
pub mod render;
pub mod selector;
pub mod style;
pub mod text;
pub mod unit;
pub mod value;
