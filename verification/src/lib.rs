//! A minimal Lisp: a reader, a printer and a tree-walking evaluator with
//! lexical scope, closures, quoting and macros, each stated against a
//! mathematical model and proved to follow it.
//!
//! Text goes through [`parse`] to a [`Value`], through [`eval`] in a
//! [`Scope`] to another value, and through [`to_string`] back to text.

pub mod error;
pub mod eval;
pub mod laws;
pub mod model;
pub mod parser;
pub mod printer;
pub mod roundtrip;
pub mod scope;
pub mod semantics;
pub mod tokenizer;
pub mod values;

pub use crate::error::Error;
pub use crate::eval::{car, cdr, cons, eval, eval_within, lambda, quote, DEPTH_LIMIT};
pub use crate::model::{NativeFunction, NativeSpecial};
pub use crate::parser::{parse, parse_value};
pub use crate::printer::{print_list, print_value, to_string};
pub use crate::scope::Scope;
pub use crate::tokenizer::{Token, Tokenizer};
pub use crate::values::{
    Cell, Func, FuncBody, Lambda, Macro, SpecialForm, SpecialFormBody, Value,
};
