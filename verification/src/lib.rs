//! Documentation of annotated C++ headers.
//!
//! The declarations of a header are read from its parse tree (`ast`) into a
//! document (`document`): enums, structs, classes and functions, with the
//! snippets and the detached members that stand between them. Once every
//! header is read, the document is resolved: detached members join the
//! types that carry one of their tags, the self-name placeholder in doc
//! comments gives way to the name of the owner, and everything is put in
//! the order of the names. The pages of a book are made of the resolved
//! document (`backends`).
//!
//! What each function computes is stated over the views of the data, which
//! hold every text as a sequence of characters (`text`).

pub mod ast;
pub mod backends;
pub mod collections;
pub mod config;
pub mod document;
pub mod files;
pub mod text;
