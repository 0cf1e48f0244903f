//! A front end for a small schema notation of sum types and product types:
//! text is split into tokens, the tokens are parsed into a syntax tree with
//! position-anchored diagnostics, and the tree is turned into an owned model
//! in which every field has a name.

pub mod ast;
pub mod diagnostics;
pub mod grammar;
pub mod laws;
pub mod lexer;
pub mod model;
pub mod model_impl;
pub mod names;
pub mod parser;
pub mod schema;
pub mod syntax;
pub mod template;
pub mod workspace;

pub use model::{model, Arity, Asdl, AsdlError, Constructor, Field, ProdType, SumType, Type};
pub use workspace::project_root;
