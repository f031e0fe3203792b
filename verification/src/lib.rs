//! Lint rules for JavaScript and TypeScript programs, checked against an
//! abstract syntax tree that the library holds as plain values.

pub mod ast;
pub mod diagnostic;
pub mod linter;
pub mod order;
pub mod text;
pub mod walk;
pub mod rules;
pub mod tags;
