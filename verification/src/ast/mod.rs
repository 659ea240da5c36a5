//! Reading declarations from the parse tree of a header.

pub mod comments;
pub mod declarations;
pub mod lemmas;
pub mod tree;
pub mod unreal_cpp_header;
