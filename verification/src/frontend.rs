//! The abstract syntax of the language, and its types.
pub mod fuel;
pub mod meerast;
pub mod typecheck;
pub mod typing;
