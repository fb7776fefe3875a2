//! A small dynamically typed language with classes, twice: a tree-walking
//! interpreter (scanner, parser, resolver, evaluator) and a bytecode
//! compiler with its stack machine for arithmetic expressions.
//!
//! The library computes and does no input or output: what a program prints
//! is collected, and what it reads and the time it asks for are handed in
//! by the host. For every executable function a contract says what it
//! returns, over the models in `scanner`, `grammar`, `resolver` and
//! `semantics`.

pub mod ast_printer;
pub mod bytecode;
pub mod callable;
pub mod class;
pub mod environment;
pub mod error;
pub mod expr;
pub mod generator;
pub mod grammar;
pub mod instance;
pub mod interpreter;
pub mod list;
pub mod native_functions;
pub mod number;
pub mod parser;
pub mod resolver;
pub mod run;
pub mod scanner;
pub mod semantics;
pub mod stmt;
pub mod text;
pub mod token;
pub mod value;
pub mod visitor;
