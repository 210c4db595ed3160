//! A packrat matcher for parsing expression grammars: a grammar is a validated set of
//! named rules over a closed set of combinators, and a parse yields a flat parse tree
//! or a diagnostic at the farthest failure.
pub mod cursor;
pub mod depth;
pub mod driver;
pub mod grammar;
pub mod laws;
pub mod matcher;
pub mod semantics;
pub mod tracker;

pub use cursor::{Cursor, byte_offset, chars_of, line_col};
pub use driver::{Diagnostic, DiagnosticKind, ParseError, ParseTree, parse, parse_full, parse_with};
pub use grammar::{Expr, Grammar, GrammarError, Rule};
pub use semantics::{EngineFault, Token};
pub use tracker::Tracker;
