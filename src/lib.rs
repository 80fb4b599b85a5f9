//! A small template language whose variables are bound to the captures of a
//! regular-expression match: lexer, recursive-descent parser, value model and
//! tree-walking interpreter, each with its behaviour stated and proved.
pub mod text;
pub mod token;
pub mod chain_reader;
pub mod string_utils;

pub mod lexer;
pub mod number;
pub mod errors;
pub mod value;
pub mod ast;
pub mod scope;
pub mod interpreter;
pub mod grammar;
pub mod parser;
pub mod template;
pub mod laws;
pub mod equal_utils;
