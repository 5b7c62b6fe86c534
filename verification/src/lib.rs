//! Building blocks of a toolchain for TOML.
//!
//! At the centre stands a lossless syntax tree: [`lexer`] reads a text as
//! tokens, [`parser`] builds a green tree from them with [`builder`] and
//! hands it out as a [`parsed`] result, and
//! [`red`] walks such a tree with parents and places. Every byte of the
//! text is kept, and what cannot be read is wrapped where it stands, so
//! that the rest of the text is read as if nothing were wrong.
//!
//! Around it stand the places in a text ([`text`]), the kinds of syntax
//! ([`syntax`], [`token_set`]), literals ([`integer`], [`scan`],
//! [`date_time`]), paths into a document ([`accessor`]), values
//! ([`document`], [`json`]), what schemas say about them ([`schema`],
//! [`value_type`], [`display_value`]), and a few small things that tools
//! around the core share.

pub mod accessor;
pub mod ast;
pub mod builder;
pub mod completion;
pub mod date_time;
pub mod diagnostic;
pub mod display_value;
pub mod document;
pub mod fetch;
pub mod file_search;
pub mod green;
pub mod integer;
pub mod json;
pub mod lexer;
pub mod parsed;
pub mod parser;
pub mod red;
pub mod scan;
pub mod schema;
pub mod strings;
pub mod syntax;
pub mod text;
pub mod token_set;
pub mod value_type;
pub mod verbose;
