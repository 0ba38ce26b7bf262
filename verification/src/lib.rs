//! An interpreter for a small Pascal-like teaching language.
//!
//! Source text is split into tokens, parsed by recursive descent into a
//! syntax tree, checked against a symbol table and then evaluated by a
//! tree walk. Every stage reports failure as a typed error, and every
//! stage is defined twice: as a function on mathematical values, and as
//! the code that is proved to compute it.
//!
//! - [`text`], [`token`], [`lexer`]: characters, tokens and the lexer.
//! - [`node`], [`grammar`], [`parser`]: the syntax tree, the grammar and
//!   the parser.
//! - [`symbol`], [`table_builder`]: symbols, scopes and the semantic pass.
//! - [`number`], [`evaluator`]: values, their arithmetic and the
//!   evaluation pass.
//! - [`interpreter`], [`ast`]: whole programs and single expressions, from
//!   text to value.
//! - [`printer`], [`round_trip`]: expressions as text, and the proof that
//!   the text parses back to the expression.
//! - [`error`]: the errors of the stages.
pub mod ast;
pub mod error;
pub mod evaluator;
pub mod grammar;
pub mod interpreter;
pub mod lexer;
pub mod node;
pub mod number;
pub mod parser;
pub mod printer;
pub mod round_trip;
pub mod symbol;
pub mod table_builder;
pub mod text;
pub mod token;
