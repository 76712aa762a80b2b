//! Core of a small, statically typed, expression-oriented language:
//! a recursive-descent parser, a type checker, and a tree-walking
//! evaluator over shared value cells.

pub mod ast;
pub mod data_obj;
pub mod displays;
pub mod laws;
pub mod parser;
pub mod run_env;
pub mod std_library;
pub mod text;
pub mod variable_mng;
pub mod variable_stack;
pub mod verify;
