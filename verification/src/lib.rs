//! A verified parser for the flodoc markup language.
//!
//! A flodoc document is free text holding three constructs: a simple tag
//! `<name content>`, an advanced tag `-name{...}` with a brace-delimited,
//! possibly multi-line payload, and a fenced code block whose payload is
//! captured like the advanced tag's. Parsing turns the input into a
//! concrete parse tree; semantic extraction walks the tree's top-level
//! items in source order and produces an ordered document model.

pub mod grammar;
pub mod laws;
pub mod model;
pub mod parser;
pub mod text;
pub mod tree;
pub mod util;
