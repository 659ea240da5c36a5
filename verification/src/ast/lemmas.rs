//! What holds of every tree: which child decides each part of a
//! declaration, and the visibility of the members that stand before any
//! visibility section.

use crate::ast::comments::doc_comment_text;
use crate::ast::declarations::{
    argument_from, arguments_from, enum_from, function_from, function_signature_from,
    property_array_of, property_from, property_signature_from, specifiers_of,
};
use crate::ast::tree::{has_rule, last_with_rule, texts_of, ParseNode, Rule};
use crate::ast::unreal_cpp_header::{
    body_from, element_from, element_of, inheritances_of, struct_class_from, struct_class_of,
    struct_class_signature_from, BodyState, ElementView,
};
use crate::config::Settings;
use crate::document::model::{
    ArgumentView, EnumView, FunctionView, PropertyView, StructClassMode, StructClassView,
    Visibility,
};
use crate::text::trimmed;
use vstd::prelude::*;

verus! {

proof fn lemma_property_signature_keeps_visibility(parts: Seq<ParseNode>, item: PropertyView)
    ensures
        property_signature_from(parts, item).visibility == item.visibility,
    decreases parts.len(),
{
    if parts.len() > 0 {
        lemma_property_signature_keeps_visibility(parts.drop_last(), item);
    }
}

proof fn lemma_property_keeps_visibility(parts: Seq<ParseNode>, item: PropertyView)
    ensures
        property_from(parts, item).visibility == item.visibility,
    decreases parts.len(),
{
    if parts.len() > 0 {
        lemma_property_keeps_visibility(parts.drop_last(), item);
        if parts.last().rule == Rule::PropertySignature {
            lemma_property_signature_keeps_visibility(
                parts.last().children@,
                property_from(parts.drop_last(), item),
            );
        }
    }
}

proof fn lemma_function_signature_keeps_visibility(parts: Seq<ParseNode>, item: FunctionView)
    ensures
        function_signature_from(parts, item).visibility == item.visibility,
    decreases parts.len(),
{
    if parts.len() > 0 {
        lemma_function_signature_keeps_visibility(parts.drop_last(), item);
    }
}

proof fn lemma_function_keeps_visibility(parts: Seq<ParseNode>, item: FunctionView)
    ensures
        function_from(parts, item).visibility == item.visibility,
    decreases parts.len(),
{
    if parts.len() > 0 {
        lemma_function_keeps_visibility(parts.drop_last(), item);
        if parts.last().rule == Rule::FunctionSignature || parts.last().rule
            == Rule::ConstructorSignature {
            lemma_function_signature_keeps_visibility(
                parts.last().children@,
                function_from(parts.drop_last(), item),
            );
        }
    }
}

/// Whether an element, if it is a property or a function, has the
/// visibility.
pub open spec fn member_has_visibility(element: ElementView, visibility: Visibility) -> bool {
    match element {
        ElementView::Property(member) => member.visibility == visibility,
        ElementView::Function(member) => member.visibility == visibility,
        _ => true,
    }
}

proof fn lemma_element_from_visibility(
    node: ParseNode,
    count: nat,
    visibility: Visibility,
    settings: Settings,
)
    ensures
        member_has_visibility(element_from(node, count, visibility, settings).element, visibility),
    decreases count,
{
    if !(count == 0 || count > node.children@.len()) {
        lemma_element_from_visibility(node, (count - 1) as nat, visibility, settings);
        let state = element_from(node, (count - 1) as nat, visibility, settings);
        let part = node.children@[count - 1];
        lemma_property_keeps_visibility(
            part.children@,
            PropertyView { doc_comments: state.doc_comments, visibility, ..PropertyView::empty() },
        );
        lemma_function_keeps_visibility(
            part.children@,
            FunctionView { doc_comments: state.doc_comments, visibility, ..FunctionView::empty() },
        );
    }
}

/// A property or a function has the visibility of the place where it
/// stands.
pub proof fn lemma_member_visibility(node: ParseNode, visibility: Visibility, settings: Settings)
    ensures
        member_has_visibility(element_of(node, visibility, settings), visibility),
{
    lemma_element_from_visibility(node, node.children@.len(), visibility, settings);
}

/// Whether every property and every method of the struct or class has the
/// visibility.
pub open spec fn members_have_visibility(item: StructClassView, visibility: Visibility) -> bool {
    &&& forall|i: int|
        0 <= i < item.properties.len() ==> (#[trigger] item.properties[i]).visibility == visibility
    &&& forall|i: int|
        0 <= i < item.methods.len() ==> (#[trigger] item.methods[i]).visibility == visibility
}

/// Whether none of the first `count` children of the body is a visibility
/// section.
pub open spec fn no_section_before(body: ParseNode, count: nat) -> bool {
    forall|i: int| 0 <= i < count && i < body.children@.len() ==> (#[trigger] body.children@[i]).rule
        != Rule::Visibility
}

/// As long as a body has had no visibility section, the visibility is the
/// one that the body began with, and every member that has joined has it.
pub proof fn lemma_body_without_section(
    body: ParseNode,
    count: nat,
    start: BodyState,
    settings: Settings,
)
    requires
        no_section_before(body, count),
        members_have_visibility(start.item, start.visibility),
    ensures
        body_from(body, count, start, settings).visibility == start.visibility,
        body_from(body, count, start, settings).item.mode == start.item.mode,
        members_have_visibility(body_from(body, count, start, settings).item, start.visibility),
    decreases count,
{
    if !(count == 0 || count > body.children@.len()) {
        lemma_body_without_section(body, (count - 1) as nat, start, settings);
        let part = body.children@[count - 1];
        lemma_member_visibility(part, start.visibility, settings);
    }
}

proof fn lemma_struct_class_signature_keeps_members(parts: Seq<ParseNode>, item: StructClassView)
    ensures
        struct_class_signature_from(parts, item).properties == item.properties,
        struct_class_signature_from(parts, item).methods == item.methods,
        struct_class_signature_from(parts, item).mode == item.mode,
    decreases parts.len(),
{
    if parts.len() > 0 {
        lemma_struct_class_signature_keeps_members(parts.drop_last(), item);
    }
}

/// Whether no body among the children of a struct or class holds a
/// visibility section.
pub open spec fn no_section_in(node: ParseNode) -> bool {
    forall|i: int|
        0 <= i < node.children@.len() && (#[trigger] node.children@[i]).rule
            == Rule::StructClassBody ==> no_section_before(
            node.children@[i],
            node.children@[i].children@.len(),
        )
}

proof fn lemma_struct_class_from_without_section(
    node: ParseNode,
    count: nat,
    start: StructClassView,
    settings: Settings,
)
    requires
        no_section_in(node),
        members_have_visibility(start, start.mode.member_visibility()),
    ensures
        struct_class_from(node, count, start, settings).mode == start.mode,
        members_have_visibility(
            struct_class_from(node, count, start, settings),
            start.mode.member_visibility(),
        ),
    decreases count,
{
    if !(count == 0 || count > node.children@.len()) {
        lemma_struct_class_from_without_section(node, (count - 1) as nat, start, settings);
        let item = struct_class_from(node, (count - 1) as nat, start, settings);
        let part = node.children@[count - 1];
        lemma_struct_class_signature_keeps_members(part.children@, item);
        if part.rule == Rule::StructClassBody {
            lemma_body_without_section(
                part,
                part.children@.len(),
                BodyState { item, visibility: start.mode.member_visibility() },
                settings,
            );
        }
    }
}

/// In a struct or class without visibility sections every member, and so
/// the first, has the default visibility of the mode: public in a struct,
/// private in a class.
pub proof fn lemma_default_visibility(
    node: ParseNode,
    doc_comments: Option<Seq<char>>,
    mode: StructClassMode,
    settings: Settings,
)
    requires
        no_section_in(node),
    ensures
        members_have_visibility(
            struct_class_of(node, doc_comments, mode, settings),
            mode.member_visibility(),
        ),
        mode == StructClassMode::Struct ==> mode.member_visibility() == Visibility::Public,
        mode == StructClassMode::Class ==> mode.member_visibility() == Visibility::Private,
{
    lemma_struct_class_from_without_section(
        node,
        node.children@.len(),
        StructClassView { doc_comments, ..StructClassView::empty(mode) },
        settings,
    );
}

/// The last of the nodes that has one of the two rules.
pub open spec fn last_with_either(nodes: Seq<ParseNode>, first: Rule, second: Rule) -> Option<
    ParseNode,
>
    decreases nodes.len(),
{
    if nodes.len() == 0 {
        None
    } else if nodes.last().rule == first || nodes.last().rule == second {
        Some(nodes.last())
    } else {
        last_with_either(nodes.drop_last(), first, second)
    }
}

/// What the last node of a rule says, read by `read`; `otherwise` where no
/// node has the rule.
pub open spec fn decided<T>(
    nodes: Seq<ParseNode>,
    rule: Rule,
    read: spec_fn(ParseNode) -> T,
    otherwise: T,
) -> T {
    match last_with_rule(nodes, rule) {
        Some(node) => read(node),
        None => otherwise,
    }
}

/// The texts of the children of the nodes that have the rule, in order.
pub open spec fn texts_below(nodes: Seq<ParseNode>, rule: Rule) -> Seq<Seq<char>>
    decreases nodes.len(),
{
    if nodes.len() == 0 {
        Seq::empty()
    } else if nodes.last().rule == rule {
        texts_below(nodes.drop_last(), rule) + texts_of(nodes.last().children@)
    } else {
        texts_below(nodes.drop_last(), rule)
    }
}

/// The arguments of the argument lists among the nodes, in order.
pub open spec fn arguments_below(nodes: Seq<ParseNode>) -> Seq<ArgumentView>
    decreases nodes.len(),
{
    if nodes.len() == 0 {
        Seq::empty()
    } else if nodes.last().rule == Rule::FunctionArguments {
        arguments_below(nodes.drop_last()) + arguments_from(nodes.last().children@)
    } else {
        arguments_below(nodes.drop_last())
    }
}

/// Each part of an argument is decided by the last child of its rule: the
/// doc comments by the last run of doc comment lines, the type by the last
/// type, the name by the last identifier, the default value by the last
/// default value. A part that no child names stays as it was.
pub proof fn lemma_argument_parts(parts: Seq<ParseNode>, start: ArgumentView)
    ensures
        argument_from(parts, start) == (ArgumentView {
            doc_comments: decided(
                parts,
                Rule::DocCommentLines,
                |node: ParseNode| Some(doc_comment_text(node.text@)),
                start.doc_comments,
            ),
            value_type: decided(
                parts,
                Rule::ValueType,
                |node: ParseNode| trimmed(node.text@),
                start.value_type,
            ),
            name: decided(parts, Rule::Identifier, |node: ParseNode| Some(node.text@), start.name),
            default_value: decided(
                parts,
                Rule::DefaultValue,
                |node: ParseNode| Some(node.children@[0].text@),
                start.default_value,
            ),
        }),
    decreases parts.len(),
{
    if parts.len() > 0 {
        lemma_argument_parts(parts.drop_last(), start);
    }
}

/// The annotation and the name of an enum are decided by the last child of
/// their rule; its variants are those of all its bodies, in order.
pub proof fn lemma_enum_parts(parts: Seq<ParseNode>, start: EnumView)
    ensures
        enum_from(parts, start) == (EnumView {
            specifiers: decided(
                parts,
                Rule::Uenum,
                |node: ParseNode| Some(specifiers_of(node)),
                start.specifiers,
            ),
            name: decided(
                parts,
                Rule::EnumSignature,
                |node: ParseNode| node.children@[0].text@,
                start.name,
            ),
            variants: start.variants + texts_below(parts, Rule::EnumBody),
            doc_comments: start.doc_comments,
        }),
    decreases parts.len(),
{
    if parts.len() > 0 {
        lemma_enum_parts(parts.drop_last(), start);
        let front = enum_from(parts.drop_last(), start);
        if parts.last().rule == Rule::EnumBody {
            assert(front.variants + texts_of(parts.last().children@) =~= start.variants
                + texts_below(parts, Rule::EnumBody));
        }
    } else {
        assert(start.variants + texts_below(parts, Rule::EnumBody) =~= start.variants);
    }
}

/// Each part of the signature of a property is decided by the last child of
/// its rule; the property is static where it was or a child says so.
pub proof fn lemma_property_signature_parts(parts: Seq<ParseNode>, start: PropertyView)
    ensures
        property_signature_from(parts, start) == (PropertyView {
            value_type: decided(
                parts,
                Rule::ValueType,
                |node: ParseNode| trimmed(node.text@),
                start.value_type,
            ),
            name: decided(parts, Rule::Identifier, |node: ParseNode| node.text@, start.name),
            array: decided(
                parts,
                Rule::PropertyArray,
                |node: ParseNode| property_array_of(node),
                start.array,
            ),
            default_value: decided(
                parts,
                Rule::DefaultValue,
                |node: ParseNode| Some(node.children@[0].text@),
                start.default_value,
            ),
            is_static: start.is_static || has_rule(parts, Rule::Staticness),
            ..start
        }),
    decreases parts.len(),
{
    if parts.len() > 0 {
        let front = parts.drop_last();
        lemma_property_signature_parts(front, start);
        lemma_has_rule_step(parts, Rule::Staticness);
    }
}

/// The nodes have a node of the rule where the last one has it or one of
/// those before it.
proof fn lemma_has_rule_step(parts: Seq<ParseNode>, rule: Rule)
    requires
        parts.len() > 0,
    ensures
        has_rule(parts, rule) == (parts.last().rule == rule || has_rule(parts.drop_last(), rule)),
{
    let front = parts.drop_last();
    if has_rule(parts, rule) {
        let i = choose|i: int| 0 <= i < parts.len() && (#[trigger] parts[i]).rule == rule;
        if i < front.len() {
            assert(front[i].rule == rule);
        }
    }
    if has_rule(front, rule) {
        let i = choose|i: int| 0 <= i < front.len() && (#[trigger] front[i]).rule == rule;
        assert(parts[i].rule == rule);
    }
    if parts.last().rule == rule {
        assert(parts[parts.len() - 1].rule == rule);
    }
}

/// Each part of the signature of a function is decided by the last child of
/// its rule, the name by the last operator or identifier; a flag is set
/// where it was or a child sets it; the arguments are those of all argument
/// lists, in order.
pub proof fn lemma_function_signature_parts(parts: Seq<ParseNode>, start: FunctionView)
    ensures
        function_signature_from(parts, start) == (FunctionView {
            template: decided(
                parts,
                Rule::TemplateDeclaration,
                |node: ParseNode| Some(trimmed(node.text@)),
                start.template,
            ),
            return_type: decided(
                parts,
                Rule::ValueType,
                |node: ParseNode| Some(trimmed(node.text@)),
                start.return_type,
            ),
            name: match last_with_either(parts, Rule::Operator, Rule::Identifier) {
                Some(node) => node.text@,
                None => start.name,
            },
            arguments: start.arguments + arguments_below(parts),
            is_static: start.is_static || has_rule(parts, Rule::Staticness),
            is_virtual: start.is_virtual || has_rule(parts, Rule::Virtualness),
            is_const_this: start.is_const_this || has_rule(parts, Rule::Constness),
            is_override: start.is_override || has_rule(parts, Rule::Overrideness),
            ..start
        }),
    decreases parts.len(),
{
    if parts.len() > 0 {
        let front = parts.drop_last();
        lemma_function_signature_parts(front, start);
        lemma_has_rule_step(parts, Rule::Staticness);
        lemma_has_rule_step(parts, Rule::Virtualness);
        lemma_has_rule_step(parts, Rule::Constness);
        lemma_has_rule_step(parts, Rule::Overrideness);
        let before = function_signature_from(front, start);
        if parts.last().rule == Rule::FunctionArguments {
            assert(before.arguments + arguments_from(parts.last().children@) =~= start.arguments
                + arguments_below(parts));
        }
    } else {
        assert(start.arguments + arguments_below(parts) =~= start.arguments);
    }
}

/// Each part of the signature of a struct or class is decided by the last
/// child of its rule: the template declaration, the export macro, the name
/// and the base types.
pub proof fn lemma_struct_class_signature_parts(parts: Seq<ParseNode>, start: StructClassView)
    ensures
        struct_class_signature_from(parts, start) == (StructClassView {
            template: decided(
                parts,
                Rule::TemplateDeclaration,
                |node: ParseNode| Some(trimmed(node.text@)),
                start.template,
            ),
            api: decided(parts, Rule::Api, |node: ParseNode| Some(node.text@), start.api),
            name: decided(parts, Rule::Identifier, |node: ParseNode| node.text@, start.name),
            inherits: decided(
                parts,
                Rule::Inheritances,
                |node: ParseNode| inheritances_of(node),
                start.inherits,
            ),
            ..start
        }),
    decreases parts.len(),
{
    if parts.len() > 0 {
        lemma_struct_class_signature_parts(parts.drop_last(), start);
    }
}

} // verus!
