//! Translates debug access sequences into script text for an embedded
//! scripting runtime.
//!
//! A debug access sequence is a named procedure of register-level steps that
//! a debug probe runs against a microcontroller. It arrives here as a tree
//! of control nodes, blocks, statements and expressions ([`ast`]).
//! [`gen_sequences`] renders every sequence of a device as one callable unit
//! of script text.
//!
//! The modules follow the way the text is made, leaf first: [`emitter`] is
//! the indenting text sink, [`literal`] writes numbers, [`scope`] resolves
//! names, [`expr`], [`stmt`] and [`structure`] translate the three layers of
//! the tree, and [`generator`] puts the units together. [`runtime`] holds the
//! conversions that the emitted script calls by name, [`shape`] spells out
//! what single nodes look like, and [`seqs`] holds a few facts about
//! sequences that the proofs share.
//!
//! Every translating function has a contract that states the exact text it
//! emits, over `Seq<char>`: the `*_text` functions say what the text of a
//! node is, the `*_fault` functions say which trees have none.
#![allow(unused_imports)]

pub mod ast;
pub mod emitter;
pub mod expr;
pub mod generator;
pub mod literal;
pub mod runtime;
pub mod scope;
pub mod seqs;
pub mod shape;
pub mod stmt;
pub mod structure;

pub use expr::{ExprError, ExprFault};
pub use generator::{gen_sequences, GenError};
use vstd::prelude::*;
