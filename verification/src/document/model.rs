//! The data of the document and their views.

use crate::collections::{StringMap, TagSet};
use vstd::prelude::*;

verus! {

/// The text of a C++ type.
pub type Type = String;

/// The text of a template declaration.
pub type Template = String;

/// Who may use a member.
#[derive(Debug, Clone, Copy, PartialEq, Eq, Structural)]
pub enum Visibility {
    Private,
    Protected,
    Public,
}

impl DeepView for Visibility {
    type V = Visibility;

    open spec fn deep_view(&self) -> Visibility {
        *self
    }
}

impl Default for Visibility {
    fn default() -> (r: Self)
        ensures
            r == Visibility::Public,
    {
        Visibility::Public
    }
}

/// Whether a type was declared as a struct or as a class.
#[derive(Debug, Clone, Copy, PartialEq, Eq, Structural)]
pub enum StructClassMode {
    Struct,
    Class,
}

impl Default for StructClassMode {
    fn default() -> (r: Self)
        ensures
            r == StructClassMode::Struct,
    {
        StructClassMode::Struct
    }
}

/// One entry of a specifier block.
#[derive(Debug, PartialEq, Eq)]
pub enum Attribute {
    Single(String),
    Pair { key: String, value: String },
}

/// The view of an attribute.
pub enum AttributeView {
    Single(Seq<char>),
    Pair { key: Seq<char>, value: Seq<char> },
}

impl DeepView for Attribute {
    type V = AttributeView;

    open spec fn deep_view(&self) -> AttributeView {
        match self {
            Attribute::Single(name) => AttributeView::Single(name@),
            Attribute::Pair { key, value } => AttributeView::Pair { key: key@, value: value@ },
        }
    }
}

impl View for Attribute {
    type V = AttributeView;

    open spec fn view(&self) -> AttributeView {
        self.deep_view()
    }
}

impl Clone for Attribute {
    fn clone(&self) -> (r: Self)
        ensures
            r@ == self@,
    {
        match self {
            Attribute::Single(name) => Attribute::Single(name.clone()),
            Attribute::Pair { key, value } => Attribute::Pair {
                key: key.clone(),
                value: value.clone(),
            },
        }
    }
}

/// A specifier block: its own entries, and those of its meta sub-block.
#[derive(Debug, PartialEq, Eq)]
pub struct Specifiers {
    pub attributes: Vec<Attribute>,
    pub meta: Vec<Attribute>,
}

/// The view of a specifier block.
pub struct SpecifiersView {
    pub attributes: Seq<AttributeView>,
    pub meta: Seq<AttributeView>,
}

impl DeepView for Specifiers {
    type V = SpecifiersView;

    open spec fn deep_view(&self) -> SpecifiersView {
        SpecifiersView {
            attributes: self.attributes.deep_view(),
            meta: self.meta.deep_view(),
        }
    }
}

impl View for Specifiers {
    type V = SpecifiersView;

    open spec fn view(&self) -> SpecifiersView {
        self.deep_view()
    }
}

impl Default for Specifiers {
    fn default() -> (r: Self)
        ensures
            r@ == (SpecifiersView { attributes: Seq::empty(), meta: Seq::empty() }),
    {
        let r = Specifiers { attributes: Vec::new(), meta: Vec::new() };
        assert(r.attributes.deep_view() =~= Seq::empty());
        assert(r.meta.deep_view() =~= Seq::empty());
        r
    }
}

/// A copy of a list of attributes.
pub fn clone_attributes(items: &Vec<Attribute>) -> (r: Vec<Attribute>)
    ensures
        r.deep_view() == items.deep_view(),
{
    let mut r: Vec<Attribute> = Vec::new();
    let mut i: usize = 0;
    while i < items.len()
        invariant
            i <= items.len(),
            r.len() == i,
            forall|k: int| 0 <= k < i ==> r@[k]@ == items@[k]@,
        decreases items.len() - i,
    {
        r.push(items[i].clone());
        i += 1;
    }
    assert(r.deep_view() =~= items.deep_view());
    r
}

impl Clone for Specifiers {
    fn clone(&self) -> (r: Self)
        ensures
            r@ == self@,
    {
        Specifiers {
            attributes: clone_attributes(&self.attributes),
            meta: clone_attributes(&self.meta),
        }
    }
}

/// A copy of an optional text.
pub fn clone_text(text: &Option<String>) -> (r: Option<String>)
    ensures
        r.deep_view() == text.deep_view(),
{
    match text {
        Some(content) => Some(content.clone()),
        None => None,
    }
}

/// A copy of an optional specifier block.
pub fn clone_specifiers(specifiers: &Option<Specifiers>) -> (r: Option<Specifiers>)
    ensures
        r.deep_view() == specifiers.deep_view(),
{
    match specifiers {
        Some(block) => Some(block.clone()),
        None => None,
    }
}

/// An enum: its name and the names of its variants, in source order.
#[derive(Debug, Clone, PartialEq, Eq)]
pub struct Enum {
    pub specifiers: Option<Specifiers>,
    pub name: String,
    pub variants: Vec<String>,
    pub doc_comments: Option<String>,
}

/// The view of an enum.
pub struct EnumView {
    pub specifiers: Option<SpecifiersView>,
    pub name: Seq<char>,
    pub variants: Seq<Seq<char>>,
    pub doc_comments: Option<Seq<char>>,
}

impl DeepView for Enum {
    type V = EnumView;

    open spec fn deep_view(&self) -> EnumView {
        EnumView {
            specifiers: self.specifiers.deep_view(),
            name: self.name@,
            variants: self.variants.deep_view(),
            doc_comments: self.doc_comments.deep_view(),
        }
    }
}

impl View for Enum {
    type V = EnumView;

    open spec fn view(&self) -> EnumView {
        self.deep_view()
    }
}

impl Default for Enum {
    fn default() -> (r: Self)
        ensures
            r@ == (EnumView {
                specifiers: None,
                name: Seq::empty(),
                variants: Seq::empty(),
                doc_comments: None,
            }),
    {
        let r = Enum {
            specifiers: None,
            name: String::new(),
            variants: Vec::new(),
            doc_comments: None,
        };
        assert(r.variants.deep_view() =~= Seq::empty());
        r
    }
}

/// Whether a property is an array, and of what size.
#[derive(Debug, PartialEq, Eq)]
pub enum PropertyArray {
    /// Not an array.
    Scalar,
    Unsized,
    Sized(String),
}

/// The view of an array marker.
pub enum PropertyArrayView {
    Scalar,
    Unsized,
    Sized(Seq<char>),
}

impl DeepView for PropertyArray {
    type V = PropertyArrayView;

    open spec fn deep_view(&self) -> PropertyArrayView {
        match self {
            PropertyArray::Scalar => PropertyArrayView::Scalar,
            PropertyArray::Unsized => PropertyArrayView::Unsized,
            PropertyArray::Sized(size) => PropertyArrayView::Sized(size@),
        }
    }
}

impl View for PropertyArray {
    type V = PropertyArrayView;

    open spec fn view(&self) -> PropertyArrayView {
        self.deep_view()
    }
}

impl Default for PropertyArray {
    fn default() -> (r: Self)
        ensures
            r@ == PropertyArrayView::Scalar,
    {
        PropertyArray::Scalar
    }
}

impl Clone for PropertyArray {
    fn clone(&self) -> (r: Self)
        ensures
            r@ == self@,
    {
        match self {
            PropertyArray::Scalar => PropertyArray::Scalar,
            PropertyArray::Unsized => PropertyArray::Unsized,
            PropertyArray::Sized(size) => PropertyArray::Sized(size.clone()),
        }
    }
}

/// A member variable.
#[derive(Debug, PartialEq, Eq)]
pub struct Property {
    pub specifiers: Option<Specifiers>,
    pub name: String,
    pub value_type: Type,
    pub array: PropertyArray,
    pub default_value: Option<String>,
    pub visibility: Visibility,
    pub is_static: bool,
    pub doc_comments: Option<String>,
}

/// The view of a property.
pub struct PropertyView {
    pub specifiers: Option<SpecifiersView>,
    pub name: Seq<char>,
    pub value_type: Seq<char>,
    pub array: PropertyArrayView,
    pub default_value: Option<Seq<char>>,
    pub visibility: Visibility,
    pub is_static: bool,
    pub doc_comments: Option<Seq<char>>,
}

impl DeepView for Property {
    type V = PropertyView;

    open spec fn deep_view(&self) -> PropertyView {
        PropertyView {
            specifiers: self.specifiers.deep_view(),
            name: self.name@,
            value_type: self.value_type@,
            array: self.array@,
            default_value: self.default_value.deep_view(),
            visibility: self.visibility,
            is_static: self.is_static,
            doc_comments: self.doc_comments.deep_view(),
        }
    }
}

impl View for Property {
    type V = PropertyView;

    open spec fn view(&self) -> PropertyView {
        self.deep_view()
    }
}

impl PropertyView {
    /// The property that nothing was said of.
    pub open spec fn empty() -> PropertyView {
        PropertyView {
            specifiers: None,
            name: Seq::empty(),
            value_type: Seq::empty(),
            array: PropertyArrayView::Scalar,
            default_value: None,
            visibility: Visibility::Public,
            is_static: false,
            doc_comments: None,
        }
    }
}

impl Default for Property {
    fn default() -> (r: Self)
        ensures
            r@ == PropertyView::empty(),
    {
        Property {
            specifiers: None,
            name: String::new(),
            value_type: String::new(),
            array: PropertyArray::Scalar,
            default_value: None,
            visibility: Visibility::Public,
            is_static: false,
            doc_comments: None,
        }
    }
}

impl Clone for Property {
    fn clone(&self) -> (r: Self)
        ensures
            r@ == self@,
    {
        Property {
            specifiers: clone_specifiers(&self.specifiers),
            name: self.name.clone(),
            value_type: self.value_type.clone(),
            array: self.array.clone(),
            default_value: clone_text(&self.default_value),
            visibility: self.visibility,
            is_static: self.is_static,
            doc_comments: clone_text(&self.doc_comments),
        }
    }
}

/// One argument of a function; it need not have a name.
#[derive(Debug, PartialEq, Eq)]
pub struct Argument {
    pub name: Option<String>,
    pub value_type: Type,
    pub default_value: Option<String>,
    pub doc_comments: Option<String>,
}

/// The view of an argument.
pub struct ArgumentView {
    pub name: Option<Seq<char>>,
    pub value_type: Seq<char>,
    pub default_value: Option<Seq<char>>,
    pub doc_comments: Option<Seq<char>>,
}

impl DeepView for Argument {
    type V = ArgumentView;

    open spec fn deep_view(&self) -> ArgumentView {
        ArgumentView {
            name: self.name.deep_view(),
            value_type: self.value_type@,
            default_value: self.default_value.deep_view(),
            doc_comments: self.doc_comments.deep_view(),
        }
    }
}

impl View for Argument {
    type V = ArgumentView;

    open spec fn view(&self) -> ArgumentView {
        self.deep_view()
    }
}

impl ArgumentView {
    /// The argument that nothing was said of.
    pub open spec fn empty() -> ArgumentView {
        ArgumentView {
            name: None,
            value_type: Seq::empty(),
            default_value: None,
            doc_comments: None,
        }
    }
}

impl Default for Argument {
    fn default() -> (r: Self)
        ensures
            r@ == ArgumentView::empty(),
    {
        Argument { name: None, value_type: String::new(), default_value: None, doc_comments: None }
    }
}

impl Clone for Argument {
    fn clone(&self) -> (r: Self)
        ensures
            r@ == self@,
    {
        Argument {
            name: clone_text(&self.name),
            value_type: self.value_type.clone(),
            default_value: clone_text(&self.default_value),
            doc_comments: clone_text(&self.doc_comments),
        }
    }
}

/// A member function or a free function.
#[derive(Debug, PartialEq, Eq)]
pub struct Function {
    pub specifiers: Option<Specifiers>,
    pub name: String,
    pub return_type: Option<Type>,
    pub visibility: Visibility,
    pub template: Option<Template>,
    pub arguments: Vec<Argument>,
    pub is_static: bool,
    pub is_virtual: bool,
    pub is_const_this: bool,
    pub is_override: bool,
    pub doc_comments: Option<String>,
}

/// The view of a function.
pub struct FunctionView {
    pub specifiers: Option<SpecifiersView>,
    pub name: Seq<char>,
    pub return_type: Option<Seq<char>>,
    pub visibility: Visibility,
    pub template: Option<Seq<char>>,
    pub arguments: Seq<ArgumentView>,
    pub is_static: bool,
    pub is_virtual: bool,
    pub is_const_this: bool,
    pub is_override: bool,
    pub doc_comments: Option<Seq<char>>,
}

impl DeepView for Function {
    type V = FunctionView;

    open spec fn deep_view(&self) -> FunctionView {
        FunctionView {
            specifiers: self.specifiers.deep_view(),
            name: self.name@,
            return_type: self.return_type.deep_view(),
            visibility: self.visibility,
            template: self.template.deep_view(),
            arguments: self.arguments.deep_view(),
            is_static: self.is_static,
            is_virtual: self.is_virtual,
            is_const_this: self.is_const_this,
            is_override: self.is_override,
            doc_comments: self.doc_comments.deep_view(),
        }
    }
}

impl View for Function {
    type V = FunctionView;

    open spec fn view(&self) -> FunctionView {
        self.deep_view()
    }
}

impl FunctionView {
    /// The function that nothing was said of.
    pub open spec fn empty() -> FunctionView {
        FunctionView {
            specifiers: None,
            name: Seq::empty(),
            return_type: None,
            visibility: Visibility::Public,
            template: None,
            arguments: Seq::empty(),
            is_static: false,
            is_virtual: false,
            is_const_this: false,
            is_override: false,
            doc_comments: None,
        }
    }
}

impl Default for Function {
    fn default() -> (r: Self)
        ensures
            r@ == FunctionView::empty(),
    {
        let r = Function {
            specifiers: None,
            name: String::new(),
            return_type: None,
            visibility: Visibility::Public,
            template: None,
            arguments: Vec::new(),
            is_static: false,
            is_virtual: false,
            is_const_this: false,
            is_override: false,
            doc_comments: None,
        };
        assert(r.arguments.deep_view() =~= Seq::empty());
        r
    }
}

impl Clone for Function {
    fn clone(&self) -> (r: Self)
        ensures
            r@ == self@,
    {
        let mut arguments: Vec<Argument> = Vec::new();
        let mut i: usize = 0;
        while i < self.arguments.len()
            invariant
                i <= self.arguments.len(),
                arguments.len() == i,
                forall|k: int| 0 <= k < i ==> arguments@[k]@ == self.arguments@[k]@,
            decreases self.arguments.len() - i,
        {
            arguments.push(self.arguments[i].clone());
            i += 1;
        }
        assert(arguments.deep_view() =~= self.arguments.deep_view());
        Function {
            specifiers: clone_specifiers(&self.specifiers),
            name: self.name.clone(),
            return_type: clone_text(&self.return_type),
            visibility: self.visibility,
            template: clone_text(&self.template),
            arguments,
            is_static: self.is_static,
            is_virtual: self.is_virtual,
            is_const_this: self.is_const_this,
            is_override: self.is_override,
            doc_comments: clone_text(&self.doc_comments),
        }
    }
}

/// A struct or a class, with the members that are documented.
#[derive(Debug, Clone)]
pub struct StructClass {
    pub specifiers: Option<Specifiers>,
    pub api: Option<String>,
    pub mode: StructClassMode,
    pub name: String,
    pub inherits: Vec<(Visibility, String)>,
    pub template: Option<Template>,
    pub properties: Vec<Property>,
    pub methods: Vec<Function>,
    pub doc_comments: Option<String>,
    /// The tags by which detached members find this type; injection empties
    /// the set.
    pub injects: TagSet,
}

/// The view of a struct or class.
pub struct StructClassView {
    pub specifiers: Option<SpecifiersView>,
    pub api: Option<Seq<char>>,
    pub mode: StructClassMode,
    pub name: Seq<char>,
    pub inherits: Seq<(Visibility, Seq<char>)>,
    pub template: Option<Seq<char>>,
    pub properties: Seq<PropertyView>,
    pub methods: Seq<FunctionView>,
    pub doc_comments: Option<Seq<char>>,
    pub injects: Set<Seq<char>>,
}

impl DeepView for StructClass {
    type V = StructClassView;

    open spec fn deep_view(&self) -> StructClassView {
        StructClassView {
            specifiers: self.specifiers.deep_view(),
            api: self.api.deep_view(),
            mode: self.mode,
            name: self.name@,
            inherits: self.inherits.deep_view(),
            template: self.template.deep_view(),
            properties: self.properties.deep_view(),
            methods: self.methods.deep_view(),
            doc_comments: self.doc_comments.deep_view(),
            injects: self.injects@,
        }
    }
}

impl View for StructClass {
    type V = StructClassView;

    open spec fn view(&self) -> StructClassView {
        self.deep_view()
    }
}

impl StructClassView {
    /// The type of the given mode that nothing else was said of.
    pub open spec fn empty(mode: StructClassMode) -> StructClassView {
        StructClassView {
            specifiers: None,
            api: None,
            mode,
            name: Seq::empty(),
            inherits: Seq::empty(),
            template: None,
            properties: Seq::empty(),
            methods: Seq::empty(),
            doc_comments: None,
            injects: Set::empty(),
        }
    }
}

impl Default for StructClass {
    fn default() -> (r: Self)
        ensures
            r@ == StructClassView::empty(StructClassMode::Struct),
    {
        let r = StructClass {
            specifiers: None,
            api: None,
            mode: StructClassMode::Struct,
            name: String::new(),
            inherits: Vec::new(),
            template: None,
            properties: Vec::new(),
            methods: Vec::new(),
            doc_comments: None,
            injects: TagSet::new(),
        };
        assert(r.inherits.deep_view() =~= Seq::empty());
        assert(r.properties.deep_view() =~= Seq::empty());
        assert(r.methods.deep_view() =~= Seq::empty());
        r
    }
}

/// A detached member: it joins every struct or class that carries one of its
/// tags.
#[derive(Debug, Clone)]
pub struct Proxy<T> {
    pub tags: TagSet,
    pub item: T,
}

/// The view of a detached member.
pub struct ProxyView<V> {
    pub tags: Set<Seq<char>>,
    pub item: V,
}

impl<T: DeepView> DeepView for Proxy<T> {
    type V = ProxyView<T::V>;

    open spec fn deep_view(&self) -> ProxyView<T::V> {
        ProxyView { tags: self.tags@, item: self.item.deep_view() }
    }
}

impl<T: DeepView> View for Proxy<T> {
    type V = ProxyView<T::V>;

    open spec fn view(&self) -> ProxyView<T::V> {
        self.deep_view()
    }
}

/// Everything read from the headers and pages of one run.
#[derive(Debug, Clone)]
pub struct Document {
    pub enums: Vec<Enum>,
    pub classes: Vec<StructClass>,
    pub structs: Vec<StructClass>,
    pub functions: Vec<Function>,
    /// The pages of the book, by their path.
    pub book: StringMap,
    /// The snippets, by their name.
    pub snippets: StringMap,
    /// The detached functions that injection has not placed yet.
    pub proxy_functions: Vec<Proxy<Function>>,
    /// The detached properties that injection has not placed yet.
    pub proxy_properties: Vec<Proxy<Property>>,
}

/// The view of a document.
pub struct DocumentView {
    pub enums: Seq<EnumView>,
    pub classes: Seq<StructClassView>,
    pub structs: Seq<StructClassView>,
    pub functions: Seq<FunctionView>,
    pub book: Map<Seq<char>, Seq<char>>,
    pub snippets: Map<Seq<char>, Seq<char>>,
    pub proxy_functions: Seq<ProxyView<FunctionView>>,
    pub proxy_properties: Seq<ProxyView<PropertyView>>,
}

impl DeepView for Document {
    type V = DocumentView;

    open spec fn deep_view(&self) -> DocumentView {
        DocumentView {
            enums: self.enums.deep_view(),
            classes: self.classes.deep_view(),
            structs: self.structs.deep_view(),
            functions: self.functions.deep_view(),
            book: self.book@,
            snippets: self.snippets@,
            proxy_functions: self.proxy_functions.deep_view(),
            proxy_properties: self.proxy_properties.deep_view(),
        }
    }
}

impl View for Document {
    type V = DocumentView;

    open spec fn view(&self) -> DocumentView {
        self.deep_view()
    }
}

impl DocumentView {
    /// The document that holds nothing.
    pub open spec fn empty() -> DocumentView {
        DocumentView {
            enums: Seq::empty(),
            classes: Seq::empty(),
            structs: Seq::empty(),
            functions: Seq::empty(),
            book: Map::empty(),
            snippets: Map::empty(),
            proxy_functions: Seq::empty(),
            proxy_properties: Seq::empty(),
        }
    }
}

impl Default for Document {
    fn default() -> (r: Self)
        ensures
            r@ == DocumentView::empty(),
    {
        let r = Document {
            enums: Vec::new(),
            classes: Vec::new(),
            structs: Vec::new(),
            functions: Vec::new(),
            book: StringMap::new(),
            snippets: StringMap::new(),
            proxy_functions: Vec::new(),
            proxy_properties: Vec::new(),
        };
        assert(r.enums.deep_view() =~= Seq::empty());
        assert(r.classes.deep_view() =~= Seq::empty());
        assert(r.structs.deep_view() =~= Seq::empty());
        assert(r.functions.deep_view() =~= Seq::empty());
        assert(r.proxy_functions.deep_view() =~= Seq::empty());
        assert(r.proxy_properties.deep_view() =~= Seq::empty());
        r
    }
}

} // verus!
