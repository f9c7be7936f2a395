//! A front end for a small source language: its syntax tree, a lexer, a
//! parser, and a compiler from the tree to assembly text.

pub mod ast;
pub mod compiler;
pub mod lexer;
pub mod parser;
