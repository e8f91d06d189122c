//! A small expression-and-block scripting language.
//!
//! `parser` reads a text into the syntax tree of `ast`, as `grammar` says.
//! `evaluator` runs a tree as a machine (`machine`) whose transitions
//! `semantics` defines; the machine reads no file and prints nothing, and
//! asks its host for whatever lies outside. `interpreter` holds the values
//! and the environments. `denotation` says directly what a program means,
//! `adequacy` proves that the machine computes it, and `laws` states what
//! holds of every program.

pub mod ast;
pub mod interpreter;
pub mod pattern;
pub mod machine;
pub mod semantics;
pub mod evaluator;
pub mod grammar;
pub mod parser;
pub mod denotation;
pub mod adequacy;
pub mod laws;
