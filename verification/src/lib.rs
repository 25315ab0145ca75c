//! A verified grammar engine for RFC 5234's notation, with the verified
//! pieces of the tooling built around it: namespaced identifiers, an
//! identity operation log, schema documents read from plain JSON values,
//! and the rendering of generated client crates.
//!
//! The engine recognises a grammar definition, compiles it into an
//! immutable rule table, and evaluates a root rule against input with
//! first-match-wins alternation and greedy repetition; the evaluator is
//! proved to return exactly the outcome of its specification semantics.

pub mod abnf;
pub mod body;
pub mod cid;
pub mod codegen;
pub mod dependency;
pub mod did_key;
pub mod document;
pub mod engine;
pub mod expression;
pub mod grammar;
pub mod json;
pub mod laws;
pub mod lexicon_doc;
pub mod lexicon_io;
pub mod metadata;
pub mod module;
pub mod nsid;
pub mod operation;
pub mod operation_writer;
pub mod parameter;
pub mod parser;
pub mod request;
pub mod text;
pub mod tree;
