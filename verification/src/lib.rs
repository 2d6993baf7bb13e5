//! A compiler for MGol, a small imperative language with keywords in
//! Portuguese, that writes a program in C.
//!
//! The scanner runs an automaton over the source and keeps the symbol
//! table. The parser is driven by the two tables of an SLR(1) analysis,
//! recovers from the syntactic errors that the action table names, and
//! writes the object file as it reduces. Every function comes with a
//! contract over a model of what it works on, and the laws of the
//! library are proof functions beside the models they speak of.

pub mod compilation;
pub mod diagnostic;
pub mod emission;
pub mod grammar;
pub mod lexical_automaton;
pub mod obj_file;
pub mod parser;
pub mod scanner;
pub mod slr_table;
pub mod stack;
pub mod symbol_table;
pub mod text;
pub mod token;
