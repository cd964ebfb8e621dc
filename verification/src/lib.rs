//! Compiler for a wiki markup language ("wikitext").
//!
//! The pipeline normalizes raw text, tokenizes it, parses the token stream
//! into a syntax tree with recoverable warnings, and renders that tree to
//! HTML or plain text. Contextual facts the text alone cannot supply (page
//! titles, page existence, image link resolution, localized strings) come
//! from the [`handle::Handle`] capability, injected per render call.

pub mod data;
pub mod handle;
pub mod page_ref;
pub mod parser;
pub mod preprocess;
pub mod render;
pub mod service;
pub mod settings;
pub mod text;
pub mod tokenizer;
pub mod tree;
pub mod utils;
