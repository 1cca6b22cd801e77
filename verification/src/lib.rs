//! A tree-walking interpreter for a small Lox-style language.
//!
//! Source text is scanned into tokens, parsed into statements whose
//! names already carry the number of scopes to walk to their
//! declaration, and then evaluated against a tree of scope frames.
//!
//! - [`location`], [`token`], [`err`]: positions, tokens, diagnostics.
//! - [`text`], [`number`]: helpers for text, and the numbers of the
//!   language, which are doubles held as bit patterns.
//! - [`ast`]: values, expressions and statements.
//! - [`environment`]: the tree of scope frames.
//! - [`scanner`]: from characters to tokens.
//! - [`grammar`], [`scoping`], [`parser`]: what is read off the tokens,
//!   what holds of the names in it, and the code that reads it.
//! - [`semantics`], [`evaluation`]: what programs mean, and the code
//!   that runs them.
//! - [`base`], [`walker`]: the host's side of a run, and the driver that
//!   holds everything together.
//! - [`show`]: values and expressions written out.
//! - [`invariants`]: what every evaluation keeps of the scope frames.
//! - [`laws`]: what holds of every program.

pub mod location;
pub mod text;
pub mod number;
pub mod ast;
pub mod token;
pub mod err;
pub mod environment;
pub mod scanner;
pub mod grammar;
pub mod scoping;
pub mod parser;
pub mod semantics;
pub mod base;
pub mod walker;
pub mod evaluation;
pub mod show;
pub mod invariants;
pub mod laws;

pub use crate::base::Base;
pub use crate::parser::Parser;
pub use crate::scanner::Scanner;
pub use crate::walker::TreeWalker;
