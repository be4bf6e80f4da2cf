//! Synthesis of default initializers from annotated type declarations.
//!
//! A host hands over one [`model::Declaration`], a record or a tagged union with the
//! annotations that it, its variants and its fields carry. [`derive::derive`] answers with the
//! constructor expression of the default value and with every diagnostic that the annotations
//! gave rise to; it reports and goes on, so one pass shows all that is wrong.
//!
//! - [`model`]: the declaration as plain data.
//! - [`diagnostics`]: what is reported, and in which words.
//! - [`attrs`]: finding the default annotation of a node, and its repetitions.
//! - [`syntax`]: the questions put to the Rust lexer and parser.
//! - [`field_assign`]: the argument list `identity: expression, ..`, and the override map built
//!   from it.
//! - [`fields`]: the value of each field, by precedence of its sources.
//! - [`derive`]: records, tagged unions and the choice of the default variant.
//! - [`laws`]: what holds of all this on every input.
//! - [`text`]: helpers on strings.

pub mod attrs;
pub mod derive;
pub mod diagnostics;
pub mod field_assign;
pub mod fields;
pub mod laws;
pub mod model;
pub mod syntax;
pub mod text;
