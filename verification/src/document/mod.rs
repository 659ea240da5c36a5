//! The document: the enums, structs, classes and functions read from all
//! headers, with the pages and snippets that go with them.
//!
//! Every type has a view that holds its texts as `Seq<char>`; what the
//! library computes is stated over those views.

pub mod export;
pub mod model;
pub mod pipeline;
pub mod resolve;
pub mod signature;
pub mod sort;

pub use model::{
    Argument, ArgumentView, Attribute, AttributeView, Document, DocumentView, Enum, EnumView,
    Function, FunctionView, Property, PropertyArray, PropertyArrayView, PropertyView, Proxy,
    ProxyView, Specifiers, SpecifiersView, StructClass, StructClassMode, StructClassView,
    Visibility,
};
