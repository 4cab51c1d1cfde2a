//! Symbol indexing and name resolution for Ruby sources.
//!
//! A file is parsed into a syntax tree (`parser`) that is held as plain
//! values (`syntax`, `kinds`, `point`). A walk over the tree gives the
//! symbols that the file defines (`parsers`, `types`), with the namespace
//! paths that the tree spells (`scopes`, `scope`). The symbols of all files
//! form the table (`indexer`) that queries are answered from: the definitions
//! of what stands under a cursor (`finder`, `identifiers`) and the symbols
//! that a free-text query matches (`symbols_matcher`). `presentation` says
//! how a symbol is shown to a client, `ruby_filename_converter` and
//! `ruby_env_provider` what a project's layout says of its constants and of
//! its Ruby installation, and `text` holds what is needed of strings and
//! paths.

pub mod finder;
pub mod identifiers;
pub mod indexer;
pub mod kinds;
pub mod parser;
pub mod parsers;
pub mod point;
pub mod presentation;
pub mod ruby_env_provider;
pub mod ruby_filename_converter;
pub mod scope;
pub mod scopes;
pub mod symbols_matcher;
pub mod syntax;
pub mod text;
pub mod types;
