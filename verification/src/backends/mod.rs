//! What is made of a resolved document: the pages of a book.

pub mod book;
pub mod manifest;
pub mod mdbook;
pub mod pages;
pub mod references;
