//! A small dynamically typed expression language: a parser from source text
//! to a syntax tree, and a tree-walking evaluator over immutable scopes.
//!
//! `program` parses a source text into its top-level items, `eval` evaluates
//! one item in an `Environment`, and `run_items` runs a whole program the way
//! a shell or a file runner does. Each is proved to follow a mathematical
//! model: `syntax` holds the grammar and `eval::eval_spec` the semantics.

pub mod error;
pub mod position;
pub mod text;
pub mod ast;
pub mod chars;
pub mod syntax;
pub mod parser;
pub mod value;
pub mod env;
pub mod eval;
pub mod combinators;
pub mod laws;
pub mod session;

pub use ast::{KeyWord, Node, Operator};
pub use combinators::{
    and_then, any_char, either, identifier, left, map_err, number, one_or_more, pair, pred,
    quoted_string, right, space0, space1, tag, trim, zero_or_more, Again, AndThen, AnyChar,
    CharIs, CharIsNot, Collect, Continue, Expecting, Ident, InputStream, MapErr, Number,
    ParseResult, Parser, Relabel, Transform, Whitespace,
};
pub use env::Environment;
pub use error::{Error, ErrorKind};
pub use eval::{eval, EvalError, MAX_DEPTH};
pub use parser::{program, ParseError};
pub use position::{Position, Span};
pub use session::{run_items, Report};
pub use value::Value;
