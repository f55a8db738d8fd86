//! A tree-walking implementation of the Lox language: lexical scanning,
//! recursive-descent parsing and the value rules of the evaluator.
#![allow(non_camel_case_types)]

pub mod entities;
pub mod errors;
pub mod text;
pub mod scanner;
pub mod ast;
pub mod grammar;
pub mod parser;
pub mod generate_ast;
pub mod ast_source;
pub mod environment;
pub mod interpreter;
pub mod ast_printer;
pub mod lox_function;
pub mod lox_class;
pub mod lox_instance;
pub mod laws;
pub mod lox;
