//! A host for natively compiled code-transformation plugins.
//!
//! The host finds a plugin's capability table through the symbol table of the
//! compiled binary, and serves the token-tree protocol that a capability
//! speaks while it runs: spans, identifiers and punctuation cross the plugin
//! boundary as small interned handles.

pub mod expander;
pub mod inspector;
pub mod interner;
pub mod lexer;
pub mod loader;
pub mod macro_expansion;
pub mod outside;
pub mod registrar;
pub mod rustc_server;
pub mod text;
pub mod tokens;
pub mod trie;

pub use expander::{expand_task, Expander};
