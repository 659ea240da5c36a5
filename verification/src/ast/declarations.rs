//! The builders of the declarations that hold no other declaration:
//! specifier blocks, enums, properties, functions and their arguments, and
//! the snippets that stand in function bodies.
//!
//! A builder reads the children of its node from first to last. A child
//! whose rule it knows sets the field that belongs to the rule, so the last
//! such child decides; children that add to a list add in their order. A
//! child of any other rule says nothing.

use crate::ast::comments::{dedented, doc_comment_text, parse_doc_comments, parse_snippet_inner};
use crate::ast::tree::{texts_of, ParseNode, Rule};
use crate::document::model::{
    Argument, ArgumentView, Attribute, AttributeView, clone_text, Enum, EnumView, Function,
    FunctionView, Property, PropertyArray, PropertyArrayView, PropertyView, Specifiers,
    SpecifiersView, Visibility,
};
use crate::text::{lemma_prefix_step, trim, trimmed};
use vstd::prelude::*;

verus! {

/// The attribute that a node of a specifier list stands for: a single name
/// or a pair of key and value. The nodes of other rules stand for none.
pub open spec fn attribute_of(node: ParseNode) -> Option<AttributeView> {
    match node.rule {
        Rule::SpecifierSingle => Some(AttributeView::Single(node.children@[0].text@)),
        Rule::SpecifierPair => Some(
            AttributeView::Pair { key: node.children@[0].text@, value: node.children@[1].text@ },
        ),
        _ => None,
    }
}

/// The attributes that `parts` stand for, in order.
pub open spec fn attributes_from(parts: Seq<ParseNode>) -> Seq<AttributeView>
    decreases parts.len(),
{
    if parts.len() == 0 {
        Seq::empty()
    } else {
        match attribute_of(parts.last()) {
            Some(attribute) => attributes_from(parts.drop_last()).push(attribute),
            None => attributes_from(parts.drop_last()),
        }
    }
}

/// The attributes of the meta sub-blocks among `parts`, in order.
pub open spec fn meta_from(parts: Seq<ParseNode>) -> Seq<AttributeView>
    decreases parts.len(),
{
    if parts.len() == 0 {
        Seq::empty()
    } else if parts.last().rule == Rule::SpecifierMeta {
        meta_from(parts.drop_last()) + attributes_from(parts.last().children@)
    } else {
        meta_from(parts.drop_last())
    }
}

/// The specifier block of an annotation: the entries of its list are its
/// attributes, the entries of the meta sub-blocks of the list its meta
/// attributes. An annotation without a list has neither.
pub open spec fn specifiers_of(node: ParseNode) -> SpecifiersView {
    if node.children@.len() == 0 {
        SpecifiersView { attributes: Seq::empty(), meta: Seq::empty() }
    } else {
        let list = node.children@[0].children@;
        SpecifiersView { attributes: attributes_from(list), meta: meta_from(list) }
    }
}

/// Appends the attributes that the children of `node` stand for.
fn parse_attributes(node: &ParseNode, into: &mut Vec<Attribute>)
    requires
        node.conforms(),
    ensures
        final(into).deep_view() == old(into).deep_view() + attributes_from(node.children@),
{
    let ghost parts = node.children@;
    let ghost start = into.deep_view();
    let mut i: usize = 0;
    assert(parts.take(0) =~= Seq::empty());
    assert(start + Seq::empty() =~= start);
    while i < node.children.len()
        invariant
            i <= node.children.len(),
            node.conforms(),
            parts == node.children@,
            into.deep_view() == start + attributes_from(parts.take(i as int)),
        decreases node.children.len() - i,
    {
        let part = &node.children[i];
        let ghost before = into.deep_view();
        proof {
            lemma_prefix_step(parts, i as int);
            assert(part.conforms());
        }
        match part.rule {
            Rule::SpecifierSingle => {
                into.push(Attribute::Single(part.children[0].text.clone()));
                assert(into.deep_view() =~= before.push(attribute_of(*part).unwrap()));
            },
            Rule::SpecifierPair => {
                into.push(
                    Attribute::Pair {
                        key: part.children[0].text.clone(),
                        value: part.children[1].text.clone(),
                    },
                );
                assert(into.deep_view() =~= before.push(attribute_of(*part).unwrap()));
            },
            _ => {},
        }
        i += 1;
        assert(into.deep_view() =~= start + attributes_from(parts.take(i as int)));
    }
    assert(parts.take(i as int) =~= parts);
}

/// The specifier block of an annotation.
pub(crate) fn parse_specifiers(node: &ParseNode) -> (r: Specifiers)
    requires
        node.conforms(),
    ensures
        r@ == specifiers_of(*node),
{
    let mut result = Specifiers::default();
    if node.children.len() > 0 {
        let list = &node.children[0];
        assert(list.conforms());
        parse_attributes(list, &mut result.attributes);
        assert(result.attributes.deep_view() =~= attributes_from(list.children@));
        let ghost parts = list.children@;
        let mut i: usize = 0;
        assert(parts.take(0) =~= Seq::empty());
        while i < list.children.len()
            invariant
                i <= list.children.len(),
                list.conforms(),
                parts == list.children@,
                result.attributes.deep_view() == attributes_from(parts),
                result.meta.deep_view() == meta_from(parts.take(i as int)),
            decreases list.children.len() - i,
        {
            let part = &list.children[i];
            proof {
                lemma_prefix_step(parts, i as int);
                assert(part.conforms());
            }
            if part.rule == Rule::SpecifierMeta {
                parse_attributes(part, &mut result.meta);
            }
            i += 1;
        }
        assert(parts.take(i as int) =~= parts);
    }
    result
}

/// What one child of an enum adds to the enum.
pub open spec fn enum_step(item: EnumView, part: ParseNode) -> EnumView {
    match part.rule {
        Rule::Uenum => EnumView { specifiers: Some(specifiers_of(part)), ..item },
        Rule::EnumSignature => EnumView { name: part.children@[0].text@, ..item },
        Rule::EnumBody => EnumView {
            variants: item.variants + texts_of(part.children@),
            ..item
        },
        _ => item,
    }
}

/// `item` after the children `parts` of an enum.
pub open spec fn enum_from(parts: Seq<ParseNode>, item: EnumView) -> EnumView
    decreases parts.len(),
{
    if parts.len() == 0 {
        item
    } else {
        enum_step(enum_from(parts.drop_last(), item), parts.last())
    }
}

/// The enum that a node declares, under the doc comments that stand before
/// it: its annotation, its name, and the names of its variants in source
/// order.
pub open spec fn enum_of(node: ParseNode, doc_comments: Option<Seq<char>>) -> EnumView {
    enum_from(
        node.children@,
        EnumView {
            specifiers: None,
            name: Seq::empty(),
            variants: Seq::empty(),
            doc_comments,
        },
    )
}

/// A copy of the text of every node of `nodes`, appended to `into`.
fn push_texts(nodes: &Vec<ParseNode>, into: &mut Vec<String>)
    ensures
        final(into).deep_view() == old(into).deep_view() + texts_of(nodes@),
{
    let ghost start = into.deep_view();
    let mut i: usize = 0;
    while i < nodes.len()
        invariant
            i <= nodes.len(),
            into.len() == start.len() + i,
            forall|k: int| 0 <= k < start.len() ==> into@[k]@ == start[k],
            forall|k: int| 0 <= k < i ==> into@[start.len() + k]@ == nodes@[k].text@,
        decreases nodes.len() - i,
    {
        into.push(nodes[i].text.clone());
        i += 1;
    }
    assert(into.deep_view() =~= start + texts_of(nodes@));
}

/// The enum that a node declares.
pub(crate) fn parse_element_enum(node: &ParseNode, doc_comments: &Option<String>) -> (r: Enum)
    requires
        node.conforms(),
    ensures
        r@ == enum_of(*node, doc_comments.deep_view()),
{
    let mut result = Enum::default();
    result.doc_comments = clone_text(doc_comments);
    let ghost start = result@;
    let ghost parts = node.children@;
    let mut i: usize = 0;
    assert(parts.take(0) =~= Seq::empty());
    while i < node.children.len()
        invariant
            i <= node.children.len(),
            node.conforms(),
            parts == node.children@,
            result@ == enum_from(parts.take(i as int), start),
        decreases node.children.len() - i,
    {
        let part = &node.children[i];
        proof {
            lemma_prefix_step(parts, i as int);
            assert(part.conforms());
        }
        match part.rule {
            Rule::Uenum => {
                result.specifiers = Some(parse_specifiers(part));
            },
            Rule::EnumSignature => {
                result.name = part.children[0].text.clone();
            },
            Rule::EnumBody => {
                push_texts(&part.children, &mut result.variants);
            },
            _ => {},
        }
        i += 1;
    }
    assert(parts.take(i as int) =~= parts);
    result
}

/// The array marker of a property: with a size where the marker holds one,
/// without a size where it holds none.
pub open spec fn property_array_of(node: ParseNode) -> PropertyArrayView {
    if node.children@.len() > 0 {
        PropertyArrayView::Sized(trimmed(node.children@[0].text@))
    } else {
        PropertyArrayView::Unsized
    }
}

/// The array marker of a property.
pub fn parse_property_array(node: &ParseNode) -> (r: PropertyArray)
    ensures
        r@ == property_array_of(*node),
{
    if node.children.len() > 0 {
        PropertyArray::Sized(trim(node.children[0].text.as_str()))
    } else {
        PropertyArray::Unsized
    }
}

/// What one part of the signature of a property says of the property.
pub open spec fn property_signature_step(item: PropertyView, part: ParseNode) -> PropertyView {
    match part.rule {
        Rule::ValueType => PropertyView { value_type: trimmed(part.text@), ..item },
        Rule::Identifier => PropertyView { name: part.text@, ..item },
        Rule::PropertyArray => PropertyView { array: property_array_of(part), ..item },
        Rule::DefaultValue => PropertyView {
            default_value: Some(part.children@[0].text@),
            ..item
        },
        Rule::Staticness => PropertyView { is_static: true, ..item },
        _ => item,
    }
}

/// `item` after the parts `parts` of the signature of a property.
pub open spec fn property_signature_from(parts: Seq<ParseNode>, item: PropertyView) -> PropertyView
    decreases parts.len(),
{
    if parts.len() == 0 {
        item
    } else {
        property_signature_step(property_signature_from(parts.drop_last(), item), parts.last())
    }
}

/// What one child of a property adds to the property.
pub open spec fn property_step(item: PropertyView, part: ParseNode) -> PropertyView {
    match part.rule {
        Rule::Uproperty => PropertyView { specifiers: Some(specifiers_of(part)), ..item },
        Rule::PropertySignature => property_signature_from(part.children@, item),
        _ => item,
    }
}

/// `item` after the children `parts` of a property.
pub open spec fn property_from(parts: Seq<ParseNode>, item: PropertyView) -> PropertyView
    decreases parts.len(),
{
    if parts.len() == 0 {
        item
    } else {
        property_step(property_from(parts.drop_last(), item), parts.last())
    }
}

/// The property that a node declares, under the doc comments that stand
/// before it and with the visibility of the place where it stands.
pub open spec fn property_of(
    node: ParseNode,
    doc_comments: Option<Seq<char>>,
    visibility: Visibility,
) -> PropertyView {
    property_from(node.children@, PropertyView { doc_comments, visibility, ..PropertyView::empty() })
}

/// Reads the signature of a property into `result`.
fn parse_property_signature(node: &ParseNode, result: &mut Property)
    requires
        node.conforms(),
    ensures
        final(result)@ == property_signature_from(node.children@, old(result)@),
{
    let ghost start = result@;
    let ghost parts = node.children@;
    let mut i: usize = 0;
    assert(parts.take(0) =~= Seq::empty());
    while i < node.children.len()
        invariant
            i <= node.children.len(),
            node.conforms(),
            parts == node.children@,
            result@ == property_signature_from(parts.take(i as int), start),
        decreases node.children.len() - i,
    {
        let part = &node.children[i];
        proof {
            lemma_prefix_step(parts, i as int);
            assert(part.conforms());
        }
        match part.rule {
            Rule::ValueType => {
                result.value_type = trim(part.text.as_str());
            },
            Rule::Identifier => {
                result.name = part.text.clone();
            },
            Rule::PropertyArray => {
                result.array = parse_property_array(part);
            },
            Rule::DefaultValue => {
                result.default_value = Some(part.children[0].text.clone());
            },
            Rule::Staticness => {
                result.is_static = true;
            },
            _ => {},
        }
        i += 1;
    }
    assert(parts.take(i as int) =~= parts);
}

/// The property that a node declares.
pub(crate) fn parse_element_property(
    node: &ParseNode,
    doc_comments: &Option<String>,
    visibility: Visibility,
) -> (r: Property)
    requires
        node.conforms(),
    ensures
        r@ == property_of(*node, doc_comments.deep_view(), visibility),
{
    let mut result = Property::default();
    result.doc_comments = clone_text(doc_comments);
    result.visibility = visibility;
    let ghost start = result@;
    let ghost parts = node.children@;
    let mut i: usize = 0;
    assert(parts.take(0) =~= Seq::empty());
    while i < node.children.len()
        invariant
            i <= node.children.len(),
            node.conforms(),
            parts == node.children@,
            result@ == property_from(parts.take(i as int), start),
        decreases node.children.len() - i,
    {
        let part = &node.children[i];
        proof {
            lemma_prefix_step(parts, i as int);
            assert(part.conforms());
        }
        match part.rule {
            Rule::Uproperty => {
                result.specifiers = Some(parse_specifiers(part));
            },
            Rule::PropertySignature => {
                parse_property_signature(part, &mut result);
            },
            _ => {},
        }
        i += 1;
    }
    assert(parts.take(i as int) =~= parts);
    result
}

/// What one part of an argument says of the argument.
pub open spec fn argument_step(item: ArgumentView, part: ParseNode) -> ArgumentView {
    match part.rule {
        Rule::DocCommentLines => ArgumentView {
            doc_comments: Some(doc_comment_text(part.text@)),
            ..item
        },
        Rule::ValueType => ArgumentView { value_type: trimmed(part.text@), ..item },
        Rule::Identifier => ArgumentView { name: Some(part.text@), ..item },
        Rule::DefaultValue => ArgumentView {
            default_value: Some(part.children@[0].text@),
            ..item
        },
        _ => item,
    }
}

/// `item` after the parts `parts` of an argument.
pub open spec fn argument_from(parts: Seq<ParseNode>, item: ArgumentView) -> ArgumentView
    decreases parts.len(),
{
    if parts.len() == 0 {
        item
    } else {
        argument_step(argument_from(parts.drop_last(), item), parts.last())
    }
}

/// The argument that a node declares: its doc comments, its type, its name
/// where it has one, and its default value where it has one.
pub open spec fn argument_of(node: ParseNode) -> ArgumentView {
    argument_from(node.children@, ArgumentView::empty())
}

/// The argument that a node declares.
pub(crate) fn parse_function_argument(node: &ParseNode) -> (r: Argument)
    requires
        node.conforms(),
    ensures
        r@ == argument_of(*node),
{
    let mut result = Argument::default();
    let ghost parts = node.children@;
    let mut i: usize = 0;
    assert(parts.take(0) =~= Seq::empty());
    while i < node.children.len()
        invariant
            i <= node.children.len(),
            node.conforms(),
            parts == node.children@,
            result@ == argument_from(parts.take(i as int), ArgumentView::empty()),
        decreases node.children.len() - i,
    {
        let part = &node.children[i];
        proof {
            lemma_prefix_step(parts, i as int);
            assert(part.conforms());
        }
        match part.rule {
            Rule::DocCommentLines => {
                result.doc_comments = Some(parse_doc_comments(part.text.as_str()));
            },
            Rule::ValueType => {
                result.value_type = trim(part.text.as_str());
            },
            Rule::Identifier => {
                result.name = Some(part.text.clone());
            },
            Rule::DefaultValue => {
                result.default_value = Some(part.children[0].text.clone());
            },
            _ => {},
        }
        i += 1;
    }
    assert(parts.take(i as int) =~= parts);
    result
}

/// The arguments that the nodes of `parts` declare, in order.
pub open spec fn arguments_from(parts: Seq<ParseNode>) -> Seq<ArgumentView>
    decreases parts.len(),
{
    if parts.len() == 0 {
        Seq::empty()
    } else if parts.last().rule == Rule::FunctionArgument {
        arguments_from(parts.drop_last()).push(argument_of(parts.last()))
    } else {
        arguments_from(parts.drop_last())
    }
}

/// Appends the arguments of an argument list to those of `result`.
fn parse_function_arguments(node: &ParseNode, result: &mut Function)
    requires
        node.conforms(),
    ensures
        final(result)@ == (FunctionView {
            arguments: old(result)@.arguments + arguments_from(node.children@),
            ..old(result)@
        }),
{
    let ghost start = result@;
    let ghost parts = node.children@;
    let mut i: usize = 0;
    assert(parts.take(0) =~= Seq::empty());
    assert(start.arguments + Seq::empty() =~= start.arguments);
    while i < node.children.len()
        invariant
            i <= node.children.len(),
            node.conforms(),
            parts == node.children@,
            result@ == (FunctionView {
                arguments: start.arguments + arguments_from(parts.take(i as int)),
                ..start
            }),
        decreases node.children.len() - i,
    {
        let part = &node.children[i];
        let ghost before = result.arguments.deep_view();
        proof {
            lemma_prefix_step(parts, i as int);
            assert(part.conforms());
        }
        if part.rule == Rule::FunctionArgument {
            let argument = parse_function_argument(part);
            result.arguments.push(argument);
            assert(result.arguments.deep_view() =~= before.push(argument_of(*part)));
        }
        i += 1;
        assert(result.arguments.deep_view() =~= start.arguments + arguments_from(
            parts.take(i as int),
        ));
    }
    assert(parts.take(i as int) =~= parts);
}

/// What one part of the signature of a function says of the function.
pub open spec fn function_signature_step(item: FunctionView, part: ParseNode) -> FunctionView {
    match part.rule {
        Rule::TemplateDeclaration => FunctionView { template: Some(trimmed(part.text@)), ..item },
        Rule::Virtualness => FunctionView { is_virtual: true, ..item },
        Rule::ValueType => FunctionView { return_type: Some(trimmed(part.text@)), ..item },
        Rule::Operator | Rule::Identifier => FunctionView { name: part.text@, ..item },
        Rule::FunctionArguments => FunctionView {
            arguments: item.arguments + arguments_from(part.children@),
            ..item
        },
        Rule::Constness => FunctionView { is_const_this: true, ..item },
        Rule::Overrideness => FunctionView { is_override: true, ..item },
        Rule::Staticness => FunctionView { is_static: true, ..item },
        _ => item,
    }
}

/// `item` after the parts `parts` of the signature of a function.
pub open spec fn function_signature_from(parts: Seq<ParseNode>, item: FunctionView) -> FunctionView
    decreases parts.len(),
{
    if parts.len() == 0 {
        item
    } else {
        function_signature_step(function_signature_from(parts.drop_last(), item), parts.last())
    }
}

/// What one child of a function adds to the function. Its body adds
/// nothing.
pub open spec fn function_step(item: FunctionView, part: ParseNode) -> FunctionView {
    match part.rule {
        Rule::Ufunction => FunctionView { specifiers: Some(specifiers_of(part)), ..item },
        Rule::FunctionSignature | Rule::ConstructorSignature => function_signature_from(
            part.children@,
            item,
        ),
        _ => item,
    }
}

/// `item` after the children `parts` of a function.
pub open spec fn function_from(parts: Seq<ParseNode>, item: FunctionView) -> FunctionView
    decreases parts.len(),
{
    if parts.len() == 0 {
        item
    } else {
        function_step(function_from(parts.drop_last(), item), parts.last())
    }
}

/// The function that a node declares, under the doc comments that stand
/// before it and with the visibility of the place where it stands.
pub open spec fn function_of(
    node: ParseNode,
    doc_comments: Option<Seq<char>>,
    visibility: Visibility,
) -> FunctionView {
    function_from(node.children@, FunctionView { doc_comments, visibility, ..FunctionView::empty() })
}

/// A named piece of code that the pages can show.
#[derive(Debug, PartialEq, Eq)]
pub struct Snippet {
    pub id: String,
    pub content: String,
}

/// The view of a snippet.
pub struct SnippetView {
    pub id: Seq<char>,
    pub content: Seq<char>,
}

impl DeepView for Snippet {
    type V = SnippetView;

    open spec fn deep_view(&self) -> SnippetView {
        SnippetView { id: self.id@, content: self.content@ }
    }
}

impl View for Snippet {
    type V = SnippetView;

    open spec fn view(&self) -> SnippetView {
        self.deep_view()
    }
}

/// The name that the parts of a snippet give it: the text of the last
/// identifier among them.
pub open spec fn snippet_id(parts: Seq<ParseNode>) -> Option<Seq<char>>
    decreases parts.len(),
{
    if parts.len() == 0 {
        None
    } else if parts.last().rule == Rule::Identifier {
        Some(parts.last().text@)
    } else {
        snippet_id(parts.drop_last())
    }
}

/// The code that the parts of a snippet give it: the text of the last inner
/// part among them, without its common left margin.
pub open spec fn snippet_content(parts: Seq<ParseNode>) -> Option<Seq<char>>
    decreases parts.len(),
{
    if parts.len() == 0 {
        None
    } else if parts.last().rule == Rule::SnippetInner {
        Some(dedented(parts.last().text@))
    } else {
        snippet_content(parts.drop_last())
    }
}

/// The snippet that a node declares, where it has both a name and code.
pub open spec fn snippet_of(node: ParseNode) -> Option<SnippetView> {
    match (snippet_id(node.children@), snippet_content(node.children@)) {
        (Some(id), Some(content)) => Some(SnippetView { id, content }),
        _ => None,
    }
}

/// The snippet that a node declares, where it has both a name and code.
pub fn parse_snippet(node: &ParseNode) -> (r: Option<Snippet>)
    ensures
        r.deep_view() == snippet_of(*node),
{
    let mut id: Option<String> = None;
    let mut content: Option<String> = None;
    let ghost parts = node.children@;
    let mut i: usize = 0;
    assert(parts.take(0) =~= Seq::empty());
    while i < node.children.len()
        invariant
            i <= node.children.len(),
            parts == node.children@,
            id.deep_view() == snippet_id(parts.take(i as int)),
            content.deep_view() == snippet_content(parts.take(i as int)),
        decreases node.children.len() - i,
    {
        let part = &node.children[i];
        proof {
            lemma_prefix_step(parts, i as int);
        }
        match part.rule {
            Rule::Identifier => {
                id = Some(part.text.clone());
            },
            Rule::SnippetInner => {
                content = Some(parse_snippet_inner(part.text.as_str()));
            },
            _ => {},
        }
        i += 1;
    }
    assert(parts.take(i as int) =~= parts);
    match (id, content) {
        (Some(id), Some(content)) => Some(Snippet { id, content }),
        _ => None,
    }
}

/// The snippets that the nodes of `parts` declare, in order.
pub open spec fn snippets_from(parts: Seq<ParseNode>) -> Seq<SnippetView>
    decreases parts.len(),
{
    if parts.len() == 0 {
        Seq::empty()
    } else if parts.last().rule == Rule::Snippet && snippet_of(parts.last()) is Some {
        snippets_from(parts.drop_last()).push(snippet_of(parts.last()).unwrap())
    } else {
        snippets_from(parts.drop_last())
    }
}

/// The snippets that stand in the bodies among the children `parts` of a
/// function, in order.
pub open spec fn body_snippets_from(parts: Seq<ParseNode>) -> Seq<SnippetView>
    decreases parts.len(),
{
    if parts.len() == 0 {
        Seq::empty()
    } else if parts.last().rule == Rule::FunctionBody {
        body_snippets_from(parts.drop_last()) + snippets_from(parts.last().children@)
    } else {
        body_snippets_from(parts.drop_last())
    }
}

/// Appends the snippets of a function body to `found`.
fn parse_function_body(node: &ParseNode, found: &mut Vec<Snippet>)
    ensures
        final(found).deep_view() == old(found).deep_view() + snippets_from(node.children@),
{
    let ghost start = found.deep_view();
    let ghost parts = node.children@;
    let mut i: usize = 0;
    assert(parts.take(0) =~= Seq::empty());
    assert(start + Seq::empty() =~= start);
    while i < node.children.len()
        invariant
            i <= node.children.len(),
            parts == node.children@,
            found.deep_view() == start + snippets_from(parts.take(i as int)),
        decreases node.children.len() - i,
    {
        let part = &node.children[i];
        let ghost before = found.deep_view();
        proof {
            lemma_prefix_step(parts, i as int);
        }
        if part.rule == Rule::Snippet {
            match parse_snippet(part) {
                Some(snippet) => {
                    found.push(snippet);
                    assert(found.deep_view() =~= before.push(snippet_of(*part).unwrap()));
                },
                None => {},
            }
        }
        i += 1;
        assert(found.deep_view() =~= start + snippets_from(parts.take(i as int)));
    }
    assert(parts.take(i as int) =~= parts);
}

/// Reads the signature of a function into `result`.
fn parse_function_signature(node: &ParseNode, result: &mut Function)
    requires
        node.conforms(),
    ensures
        final(result)@ == function_signature_from(node.children@, old(result)@),
{
    let ghost start = result@;
    let ghost parts = node.children@;
    let mut i: usize = 0;
    assert(parts.take(0) =~= Seq::empty());
    while i < node.children.len()
        invariant
            i <= node.children.len(),
            node.conforms(),
            parts == node.children@,
            result@ == function_signature_from(parts.take(i as int), start),
        decreases node.children.len() - i,
    {
        let part = &node.children[i];
        proof {
            lemma_prefix_step(parts, i as int);
            assert(part.conforms());
        }
        match part.rule {
            Rule::TemplateDeclaration => {
                result.template = Some(trim(part.text.as_str()));
            },
            Rule::Virtualness => {
                result.is_virtual = true;
            },
            Rule::ValueType => {
                result.return_type = Some(trim(part.text.as_str()));
            },
            Rule::Operator | Rule::Identifier => {
                result.name = part.text.clone();
            },
            Rule::FunctionArguments => {
                parse_function_arguments(part, result);
            },
            Rule::Constness => {
                result.is_const_this = true;
            },
            Rule::Overrideness => {
                result.is_override = true;
            },
            Rule::Staticness => {
                result.is_static = true;
            },
            _ => {},
        }
        i += 1;
    }
    assert(parts.take(i as int) =~= parts);
}

/// The function that a node declares; the snippets that stand in its body
/// are appended to `found`.
pub(crate) fn parse_element_function(
    node: &ParseNode,
    doc_comments: &Option<String>,
    visibility: Visibility,
    found: &mut Vec<Snippet>,
) -> (r: Function)
    requires
        node.conforms(),
    ensures
        r@ == function_of(*node, doc_comments.deep_view(), visibility),
        final(found).deep_view() == old(found).deep_view() + body_snippets_from(node.children@),
{
    let mut result = Function::default();
    result.doc_comments = clone_text(doc_comments);
    result.visibility = visibility;
    let ghost start = result@;
    let ghost found_start = found.deep_view();
    let ghost parts = node.children@;
    let mut i: usize = 0;
    assert(parts.take(0) =~= Seq::empty());
    assert(found_start + Seq::empty() =~= found_start);
    while i < node.children.len()
        invariant
            i <= node.children.len(),
            node.conforms(),
            parts == node.children@,
            result@ == function_from(parts.take(i as int), start),
            found.deep_view() == found_start + body_snippets_from(parts.take(i as int)),
        decreases node.children.len() - i,
    {
        let part = &node.children[i];
        let ghost before = found.deep_view();
        proof {
            lemma_prefix_step(parts, i as int);
            assert(part.conforms());
        }
        match part.rule {
            Rule::Ufunction => {
                result.specifiers = Some(parse_specifiers(part));
            },
            Rule::FunctionSignature | Rule::ConstructorSignature => {
                parse_function_signature(part, &mut result);
            },
            Rule::FunctionBody => {
                parse_function_body(part, found);
            },
            _ => {},
        }
        i += 1;
        assert(found.deep_view() =~= found_start + body_snippets_from(parts.take(i as int)));
    }
    assert(parts.take(i as int) =~= parts);
    result
}

} // verus!
