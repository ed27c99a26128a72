//! Front end of a small C-subset language: a lexer that turns source text into tokens and a
//! recursive-descent parser that turns tokens into a program tree.
pub mod ast;
pub mod checker;
pub mod context;
pub mod grammar;
pub mod interpreter;
pub mod lexer;
pub mod lexical;
pub mod parser;
pub mod preprocessor;
pub mod source;
pub mod util;
