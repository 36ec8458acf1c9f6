//! Compile-time path helpers: resolve, validate, and decompose filesystem
//! paths relative to a project's root directory, producing either the
//! resolved text or a diagnostic that fails the enclosing compilation.
//!
//! The crate is organised as a pipeline. [`tokens`] models the macro input
//! as a tree of tokens. [`parse`] turns that tree into path segments and an
//! optional default expression. [`paths`] joins segments and resolves the
//! result against a root directory. [`components`] decomposes a path into
//! its syntactic parts. [`emit`] is the single place where successes and
//! failures become output. [`resolver`] ties the pieces together, one
//! function per operation of the macro surface.

pub mod components;
pub mod emit;
pub mod mime;
pub mod parse;
pub mod paths;
pub mod resolver;
pub mod tokens;

pub use emit::Output;
pub use parse::{JoinBuilder, JoinBuilderNoBeautify, JoinBuilderNoBeautifyWithDefaultValue,
    JoinBuilderWithDefaultValue, Parsed};
pub use resolver::{Check, FsStatus, Step};
pub use tokens::{Delim, SpecToken, Token};
