//! Front end of a small scripting language: a scanner that turns source text
//! into tokens, the expression and statement trees, their visitor dispatch and
//! a prefix-notation printer for expressions.

#![allow(non_camel_case_types)]

pub mod utils;
pub mod token;
pub mod expressions;
pub mod ast;
pub mod statement;
pub mod scanner;
pub mod scan_laws;
