//! From the parse tree of a header to the document.
//!
//! An element is classified as an enum, a struct or class, a property or a
//! function. A struct or class keeps those of its members that are
//! documented; the document keeps the enums, structs, classes and functions
//! of file scope that are documented, the snippets, wherever they stand,
//! and the proxies that carry doc comments.

use crate::ast::comments::{doc_comment_text, parse_doc_comments};
use crate::ast::declarations::{
    body_snippets_from, enum_of, function_of, parse_element_enum, parse_element_function,
    parse_element_property, parse_snippet, parse_specifiers, property_of, snippet_of,
    specifiers_of, Snippet, SnippetView,
};
use crate::ast::tree::{
    is_inheritance, last_with_rule, lemma_last_with_rule, GrammarError, ParseNode, Rule,
};
use crate::collections::TagSet;
use crate::config::Settings;
use crate::document::model::{
    clone_text, Document, DocumentView, Enum, EnumView, Function, FunctionView, Property,
    PropertyView, Proxy, ProxyView, StructClass, StructClassMode, StructClassView, Visibility,
};
use crate::document::sort::Named;
use crate::text::{lemma_prefix_step, str_eq, trim, trimmed};
use vstd::prelude::*;
use vstd::string::StringExecFns;

verus! {

/// What an element turned out to be.
#[derive(Debug)]
pub enum Element {
    /// Nothing that the document knows.
    Nothing,
    Enum(Enum),
    StructClass(StructClass),
    Property(Property),
    Function(Function),
}

/// The view of an element.
pub enum ElementView {
    Nothing,
    Enum(EnumView),
    StructClass(StructClassView),
    Property(PropertyView),
    Function(FunctionView),
}

impl DeepView for Element {
    type V = ElementView;

    open spec fn deep_view(&self) -> ElementView {
        match self {
            Element::Nothing => ElementView::Nothing,
            Element::Enum(item) => ElementView::Enum(item@),
            Element::StructClass(item) => ElementView::StructClass(item@),
            Element::Property(item) => ElementView::Property(item@),
            Element::Function(item) => ElementView::Function(item@),
        }
    }
}

impl View for Element {
    type V = ElementView;

    open spec fn view(&self) -> ElementView {
        self.deep_view()
    }
}

/// The visibility that a keyword names.
pub open spec fn visibility_of(text: Seq<char>) -> Option<Visibility> {
    if text == "private"@ {
        Some(Visibility::Private)
    } else if text == "protected"@ {
        Some(Visibility::Protected)
    } else if text == "public"@ {
        Some(Visibility::Public)
    } else {
        None
    }
}

/// The visibility that a keyword names; none for any other text.
pub fn parse_visibility(text: &str) -> (r: Option<Visibility>)
    ensures
        r == visibility_of(text@),
{
    if str_eq(text, "private") {
        Some(Visibility::Private)
    } else if str_eq(text, "protected") {
        Some(Visibility::Protected)
    } else if str_eq(text, "public") {
        Some(Visibility::Public)
    } else {
        None
    }
}

/// One base type: the visibility that its keyword names, and its type.
pub open spec fn inheritance_of(entry: ParseNode) -> (Visibility, Seq<char>) {
    (visibility_of(entry.children@[0].text@).unwrap(), trimmed(entry.children@[1].text@))
}

/// The base types of an inheritance list, in declaration order.
pub open spec fn inheritances_of(node: ParseNode) -> Seq<(Visibility, Seq<char>)> {
    node.children@.map_values(|entry: ParseNode| inheritance_of(entry))
}

/// The base types of an inheritance list.
fn parse_inheritances(node: &ParseNode) -> (r: Vec<(Visibility, String)>)
    requires
        node.conforms(),
        node.rule == Rule::Inheritances,
    ensures
        r.deep_view() == inheritances_of(*node),
{
    let mut result: Vec<(Visibility, String)> = Vec::new();
    let mut i: usize = 0;
    while i < node.children.len()
        invariant
            i <= node.children.len(),
            node.conforms(),
            node.rule == Rule::Inheritances,
            result.len() == i,
            forall|k: int|
                0 <= k < i ==> (#[trigger] result@[k]).deep_view() == inheritance_of(
                    node.children@[k],
                ),
        decreases node.children.len() - i,
    {
        let entry = &node.children[i];
        assert(is_inheritance(*entry));
        let visibility = parse_visibility(entry.children[0].text.as_str());
        let base = trim(entry.children[1].text.as_str());
        result.push((visibility.unwrap(), base));
        i += 1;
    }
    assert(result.deep_view() =~= inheritances_of(*node));
    result
}

/// What one part of the signature of a struct or class says of it.
pub open spec fn struct_class_signature_step(
    item: StructClassView,
    part: ParseNode,
) -> StructClassView {
    match part.rule {
        Rule::TemplateDeclaration => StructClassView {
            template: Some(trimmed(part.text@)),
            ..item
        },
        Rule::Api => StructClassView { api: Some(part.text@), ..item },
        Rule::Identifier => StructClassView { name: part.text@, ..item },
        Rule::Inheritances => StructClassView { inherits: inheritances_of(part), ..item },
        _ => item,
    }
}

/// `item` after the parts `parts` of the signature of a struct or class.
pub open spec fn struct_class_signature_from(
    parts: Seq<ParseNode>,
    item: StructClassView,
) -> StructClassView
    decreases parts.len(),
{
    if parts.len() == 0 {
        item
    } else {
        struct_class_signature_step(
            struct_class_signature_from(parts.drop_last(), item),
            parts.last(),
        )
    }
}

/// `tags` with the texts of `parts` added.
pub open spec fn tags_from(parts: Seq<ParseNode>, tags: Set<Seq<char>>) -> Set<Seq<char>>
    decreases parts.len(),
{
    if parts.len() == 0 {
        tags
    } else {
        tags_from(parts.drop_last(), tags).insert(parts.last().text@)
    }
}

/// What the reading of a body has reached: the struct or class so far, and
/// the visibility that the next member gets.
pub struct BodyState {
    pub item: StructClassView,
    pub visibility: Visibility,
}

/// What the reading of an element has reached: the doc comments seen so
/// far, and what the element is so far.
pub struct ElementState {
    pub doc_comments: Option<Seq<char>>,
    pub element: ElementView,
}

/// The state after the first `count` children of an element. A run of doc
/// comment lines sets the doc comments of the declarations behind it; a
/// declaration of one of the five kinds decides what the element is.
pub open spec fn element_from(
    node: ParseNode,
    count: nat,
    visibility: Visibility,
    settings: Settings,
) -> ElementState
    decreases node, count,
{
    if count == 0 || count > node.children@.len() {
        ElementState { doc_comments: None, element: ElementView::Nothing }
    } else {
        let state = element_from(node, (count - 1) as nat, visibility, settings);
        let part = node.children@[count - 1];
        match part.rule {
            Rule::DocCommentLines => ElementState {
                doc_comments: Some(doc_comment_text(part.text@)),
                ..state
            },
            Rule::ElementEnum => ElementState {
                element: ElementView::Enum(enum_of(part, state.doc_comments)),
                ..state
            },
            Rule::ElementStruct => ElementState {
                element: ElementView::StructClass(
                    struct_class_of(part, state.doc_comments, StructClassMode::Struct, settings),
                ),
                ..state
            },
            Rule::ElementClass => ElementState {
                element: ElementView::StructClass(
                    struct_class_of(part, state.doc_comments, StructClassMode::Class, settings),
                ),
                ..state
            },
            Rule::ElementProperty => ElementState {
                element: ElementView::Property(property_of(part, state.doc_comments, visibility)),
                ..state
            },
            Rule::ElementFunction => ElementState {
                element: ElementView::Function(function_of(part, state.doc_comments, visibility)),
                ..state
            },
            _ => state,
        }
    }
}

/// What an element is, where it stands under the given visibility.
pub open spec fn element_of(node: ParseNode, visibility: Visibility, settings: Settings) -> ElementView
    decreases node, node.children@.len() + 1,
{
    element_from(node, node.children@.len(), visibility, settings).element
}

/// The state after the first `count` children of a body. A visibility
/// section sets the visibility of the members behind it, unless its keyword
/// is unknown; an inject adds its tags; a property or function that is
/// documented under the settings joins the members.
pub open spec fn body_from(
    node: ParseNode,
    count: nat,
    start: BodyState,
    settings: Settings,
) -> BodyState
    decreases node, count,
{
    if count == 0 || count > node.children@.len() {
        start
    } else {
        let state = body_from(node, (count - 1) as nat, start, settings);
        let part = node.children@[count - 1];
        match part.rule {
            Rule::Visibility => match visibility_of(part.text@) {
                Some(visibility) => BodyState { visibility, ..state },
                None => state,
            },
            Rule::Inject => BodyState {
                item: StructClassView {
                    injects: tags_from(part.children@, state.item.injects),
                    ..state.item
                },
                ..state
            },
            Rule::Element => match element_of(part, state.visibility, settings) {
                ElementView::Property(member) => if member.can_export(settings) {
                    BodyState {
                        item: StructClassView {
                            properties: state.item.properties.push(member),
                            ..state.item
                        },
                        ..state
                    }
                } else {
                    state
                },
                ElementView::Function(member) => if member.can_export(settings) {
                    BodyState {
                        item: StructClassView {
                            methods: state.item.methods.push(member),
                            ..state.item
                        },
                        ..state
                    }
                } else {
                    state
                },
                _ => state,
            },
            _ => state,
        }
    }
}

/// `start` after the first `count` children of a struct or class: its
/// annotation, its signature, and its body, which is read from the default
/// visibility of the mode on.
pub open spec fn struct_class_from(
    node: ParseNode,
    count: nat,
    start: StructClassView,
    settings: Settings,
) -> StructClassView
    decreases node, count,
{
    if count == 0 || count > node.children@.len() {
        start
    } else {
        let item = struct_class_from(node, (count - 1) as nat, start, settings);
        let part = node.children@[count - 1];
        match part.rule {
            Rule::Ustruct | Rule::Uclass => StructClassView {
                specifiers: Some(specifiers_of(part)),
                ..item
            },
            Rule::StructSignature | Rule::ClassSignature => struct_class_signature_from(
                part.children@,
                item,
            ),
            Rule::StructClassBody => body_from(
                part,
                part.children@.len(),
                BodyState { item, visibility: start.mode.member_visibility() },
                settings,
            ).item,
            _ => item,
        }
    }
}

/// The struct or class that a node declares, under the doc comments that
/// stand before it.
pub open spec fn struct_class_of(
    node: ParseNode,
    doc_comments: Option<Seq<char>>,
    mode: StructClassMode,
    settings: Settings,
) -> StructClassView
    decreases node, node.children@.len() + 1,
{
    struct_class_from(
        node,
        node.children@.len(),
        StructClassView { doc_comments, ..StructClassView::empty(mode) },
        settings,
    )
}

/// The snippets that stand in the function bodies below the first `count`
/// children of an element, in order.
pub open spec fn element_snippets_from(node: ParseNode, count: nat) -> Seq<SnippetView>
    decreases node, count,
{
    if count == 0 || count > node.children@.len() {
        Seq::empty()
    } else {
        let found = element_snippets_from(node, (count - 1) as nat);
        let part = node.children@[count - 1];
        match part.rule {
            Rule::ElementStruct | Rule::ElementClass => found + struct_class_snippets_from(
                part,
                part.children@.len(),
            ),
            Rule::ElementFunction => found + body_snippets_from(part.children@),
            _ => found,
        }
    }
}

/// The snippets below the first `count` children of a struct or class.
pub open spec fn struct_class_snippets_from(node: ParseNode, count: nat) -> Seq<SnippetView>
    decreases node, count,
{
    if count == 0 || count > node.children@.len() {
        Seq::empty()
    } else {
        let found = struct_class_snippets_from(node, (count - 1) as nat);
        let part = node.children@[count - 1];
        if part.rule == Rule::StructClassBody {
            found + members_snippets_from(part, part.children@.len())
        } else {
            found
        }
    }
}

/// The snippets below the first `count` children of a body.
pub open spec fn members_snippets_from(node: ParseNode, count: nat) -> Seq<SnippetView>
    decreases node, count,
{
    if count == 0 || count > node.children@.len() {
        Seq::empty()
    } else {
        let found = members_snippets_from(node, (count - 1) as nat);
        let part = node.children@[count - 1];
        if part.rule == Rule::Element {
            found + element_snippets_from(part, part.children@.len())
        } else {
            found
        }
    }
}

/// The snippets that stand anywhere below an element, in order.
pub open spec fn element_snippets(node: ParseNode) -> Seq<SnippetView> {
    element_snippets_from(node, node.children@.len())
}

/// Reads the signature of a struct or class into `result`.
fn parse_struct_class_signature(node: &ParseNode, result: &mut StructClass)
    requires
        node.conforms(),
    ensures
        final(result)@ == struct_class_signature_from(node.children@, old(result)@),
{
    let ghost start = result@;
    let ghost parts = node.children@;
    let mut i: usize = 0;
    assert(parts.take(0) =~= Seq::empty());
    while i < node.children.len()
        invariant
            i <= node.children.len(),
            node.conforms(),
            parts == node.children@,
            result@ == struct_class_signature_from(parts.take(i as int), start),
        decreases node.children.len() - i,
    {
        let part = &node.children[i];
        proof {
            lemma_prefix_step(parts, i as int);
            assert(part.conforms());
        }
        match part.rule {
            Rule::TemplateDeclaration => {
                result.template = Some(trim(part.text.as_str()));
            },
            Rule::Api => {
                result.api = Some(part.text.clone());
            },
            Rule::Identifier => {
                result.name = part.text.clone();
            },
            Rule::Inheritances => {
                result.inherits = parse_inheritances(part);
            },
            _ => {},
        }
        i += 1;
    }
    assert(parts.take(i as int) =~= parts);
}

/// Adds the tags of an inject to `tags`.
fn parse_inject(node: &ParseNode, tags: &mut TagSet)
    ensures
        final(tags)@ == tags_from(node.children@, old(tags)@),
{
    let ghost start = tags@;
    let ghost parts = node.children@;
    let mut i: usize = 0;
    assert(parts.take(0) =~= Seq::empty());
    while i < node.children.len()
        invariant
            i <= node.children.len(),
            parts == node.children@,
            tags@ == tags_from(parts.take(i as int), start),
        decreases node.children.len() - i,
    {
        proof {
            lemma_prefix_step(parts, i as int);
        }
        tags.insert(node.children[i].text.clone());
        i += 1;
    }
    assert(parts.take(i as int) =~= parts);
}

/// Reads the body of a struct or class into `result`, from the given
/// visibility on; the snippets below it are appended to `found`.
fn parse_struct_class_body(
    node: &ParseNode,
    result: &mut StructClass,
    visibility: Visibility,
    settings: &Settings,
    found: &mut Vec<Snippet>,
)
    requires
        node.conforms(),
    ensures
        final(result)@ == body_from(
            *node,
            node.children@.len(),
            BodyState { item: old(result)@, visibility },
            *settings,
        ).item,
        final(found).deep_view() == old(found).deep_view() + members_snippets_from(
            *node,
            node.children@.len(),
        ),
    decreases node,
{
    let ghost start = BodyState { item: result@, visibility };
    let ghost found_start = found.deep_view();
    let mut visibility = visibility;
    let mut i: usize = 0;
    assert(found_start + Seq::empty() =~= found_start);
    while i < node.children.len()
        invariant
            i <= node.children.len(),
            node.conforms(),
            (BodyState { item: result@, visibility }) == body_from(
                *node,
                i as nat,
                start,
                *settings,
            ),
            found.deep_view() == found_start + members_snippets_from(*node, i as nat),
        decreases node.children.len() - i,
    {
        let part = &node.children[i];
        let ghost before = found.deep_view();
        let ghost state = BodyState { item: result@, visibility };
        assert(part.conforms());
        match part.rule {
            Rule::Visibility => {
                if let Some(v) = parse_visibility(part.text.as_str()) {
                    visibility = v;
                }
            },
            Rule::Inject => {
                parse_inject(part, &mut result.injects);
            },
            Rule::Element => {
                match parse_element(part, visibility, settings, found) {
                    Element::Property(member) => {
                        if member.can_export(settings) {
                            let ghost members = result.properties.deep_view();
                            result.properties.push(member);
                            assert(result.properties.deep_view() =~= members.push(member@));
                        }
                    },
                    Element::Function(member) => {
                        if member.can_export(settings) {
                            let ghost members = result.methods.deep_view();
                            result.methods.push(member);
                            assert(result.methods.deep_view() =~= members.push(member@));
                        }
                    },
                    _ => {},
                }
            },
            _ => {},
        }
        i += 1;
        assert(found.deep_view() =~= found_start + members_snippets_from(*node, i as nat));
    }
}

/// The struct or class that a node declares; the snippets below it are
/// appended to `found`.
fn parse_element_struct_class(
    node: &ParseNode,
    doc_comments: &Option<String>,
    mode: StructClassMode,
    settings: &Settings,
    found: &mut Vec<Snippet>,
) -> (r: StructClass)
    requires
        node.conforms(),
    ensures
        r@ == struct_class_of(*node, doc_comments.deep_view(), mode, *settings),
        final(found).deep_view() == old(found).deep_view() + struct_class_snippets_from(
            *node,
            node.children@.len(),
        ),
    decreases node,
{
    let mut result = StructClass::default();
    result.mode = mode;
    result.doc_comments = clone_text(doc_comments);
    let ghost start = result@;
    let ghost found_start = found.deep_view();
    let mut i: usize = 0;
    assert(found_start + Seq::empty() =~= found_start);
    while i < node.children.len()
        invariant
            i <= node.children.len(),
            node.conforms(),
            start.mode == mode,
            result@ == struct_class_from(*node, i as nat, start, *settings),
            found.deep_view() == found_start + struct_class_snippets_from(*node, i as nat),
        decreases node.children.len() - i,
    {
        let part = &node.children[i];
        assert(part.conforms());
        match part.rule {
            Rule::Ustruct | Rule::Uclass => {
                result.specifiers = Some(parse_specifiers(part));
            },
            Rule::StructSignature | Rule::ClassSignature => {
                parse_struct_class_signature(part, &mut result);
            },
            Rule::StructClassBody => {
                parse_struct_class_body(
                    part,
                    &mut result,
                    mode.default_visibility(),
                    settings,
                    found,
                );
            },
            _ => {},
        }
        i += 1;
        assert(found.deep_view() =~= found_start + struct_class_snippets_from(*node, i as nat));
    }
    result
}

/// What an element is, where it stands under the given visibility; the
/// snippets below it are appended to `found`.
pub(crate) fn parse_element(
    node: &ParseNode,
    visibility: Visibility,
    settings: &Settings,
    found: &mut Vec<Snippet>,
) -> (r: Element)
    requires
        node.conforms(),
    ensures
        r@ == element_of(*node, visibility, *settings),
        final(found).deep_view() == old(found).deep_view() + element_snippets(*node),
    decreases node,
{
    let mut result = Element::Nothing;
    let mut doc_comments: Option<String> = None;
    let ghost found_start = found.deep_view();
    let mut i: usize = 0;
    assert(found_start + Seq::empty() =~= found_start);
    while i < node.children.len()
        invariant
            i <= node.children.len(),
            node.conforms(),
            (ElementState { doc_comments: doc_comments.deep_view(), element: result@ })
                == element_from(*node, i as nat, visibility, *settings),
            found.deep_view() == found_start + element_snippets_from(*node, i as nat),
        decreases node.children.len() - i,
    {
        let part = &node.children[i];
        assert(part.conforms());
        match part.rule {
            Rule::DocCommentLines => {
                doc_comments = Some(parse_doc_comments(part.text.as_str()));
            },
            Rule::ElementEnum => {
                result = Element::Enum(parse_element_enum(part, &doc_comments));
            },
            Rule::ElementStruct => {
                result = Element::StructClass(
                    parse_element_struct_class(
                        part,
                        &doc_comments,
                        StructClassMode::Struct,
                        settings,
                        found,
                    ),
                );
            },
            Rule::ElementClass => {
                result = Element::StructClass(
                    parse_element_struct_class(
                        part,
                        &doc_comments,
                        StructClassMode::Class,
                        settings,
                        found,
                    ),
                );
            },
            Rule::ElementProperty => {
                result = Element::Property(parse_element_property(part, &doc_comments, visibility));
            },
            Rule::ElementFunction => {
                result = Element::Function(
                    parse_element_function(part, &doc_comments, visibility, found),
                );
            },
            _ => {},
        }
        i += 1;
        assert(found.deep_view() =~= found_start + element_snippets_from(*node, i as nat));
    }
    result
}

/// The kinds of entries that a later entry of the same name can overwrite.
#[derive(Debug, Clone, Copy, PartialEq, Eq, Structural)]
pub enum OverwriteKind {
    Enum,
    Struct,
    Class,
    Function,
    Snippet,
}

/// The report that an entry came in under a name that the document already
/// held an entry of the same kind under.
#[derive(Debug, PartialEq, Eq)]
pub struct Overwrite {
    pub kind: OverwriteKind,
    pub name: String,
}

/// The view of a report.
pub struct OverwriteView {
    pub kind: OverwriteKind,
    pub name: Seq<char>,
}

impl DeepView for Overwrite {
    type V = OverwriteView;

    open spec fn deep_view(&self) -> OverwriteView {
        OverwriteView { kind: self.kind, name: self.name@ }
    }
}

impl View for Overwrite {
    type V = OverwriteView;

    open spec fn view(&self) -> OverwriteView {
        self.deep_view()
    }
}

impl OverwriteKind {
    /// The word for the kind in a report.
    pub open spec fn word(self) -> Seq<char> {
        match self {
            OverwriteKind::Enum => "enum"@,
            OverwriteKind::Struct => "struct"@,
            OverwriteKind::Class => "class"@,
            OverwriteKind::Function => "function"@,
            OverwriteKind::Snippet => "snippet"@,
        }
    }
}

impl OverwriteView {
    /// The report as a line of text.
    pub open spec fn message(self) -> Seq<char> {
        "Overwriting existing "@ + self.kind.word() + ": "@ + self.name
    }
}

impl Overwrite {
    /// The report as a line of text.
    pub fn message(&self) -> (r: String)
        ensures
            r@ == self@.message(),
    {
        let mut result = "Overwriting existing ".to_owned();
        match self.kind {
            OverwriteKind::Enum => result.append("enum"),
            OverwriteKind::Struct => result.append("struct"),
            OverwriteKind::Class => result.append("class"),
            OverwriteKind::Function => result.append("function"),
            OverwriteKind::Snippet => result.append("snippet"),
        }
        result.append(": ");
        result.append(self.name.as_str());
        result
    }
}

/// Whether one of the entities has the name.
pub open spec fn named_in<T: Named>(items: Seq<T::V>, name: Seq<char>) -> bool {
    exists|i: int| 0 <= i < items.len() && T::name_of(#[trigger] items[i]) == name
}

/// Whether one of the entities has the name.
pub fn has_name<T: Named>(items: &Vec<T>, name: &String) -> (r: bool)
    ensures
        r == named_in::<T>(items.deep_view(), name@),
{
    let mut i: usize = 0;
    while i < items.len()
        invariant
            i <= items.len(),
            forall|k: int| 0 <= k < i ==> T::name_of(#[trigger] items.deep_view()[k]) != name@,
        decreases items.len() - i,
    {
        if *items[i].name_text() == *name {
            assert(T::name_of(items.deep_view()[i as int]) == name@);
            return true;
        }
        assert(items.deep_view()[i as int] == items@[i as int].deep_view());
        i += 1;
    }
    false
}

/// A document together with the reports of what was overwritten on the way
/// to it.
pub struct Outcome {
    pub document: DocumentView,
    pub log: Seq<OverwriteView>,
}

impl Outcome {
    /// The outcome with one report more, where there is something to
    /// report.
    pub open spec fn reporting(self, overwritten: bool, kind: OverwriteKind, name: Seq<char>) -> Outcome {
        if overwritten {
            Outcome { log: self.log.push(OverwriteView { kind, name }), ..self }
        } else {
            self
        }
    }

    /// The outcome once a snippet is registered: the snippet stands under
    /// its name, in the place of any earlier one of that name, which is
    /// reported.
    pub open spec fn with_snippet(self, snippet: SnippetView) -> Outcome {
        let reported = self.reporting(
            self.document.snippets.contains_key(snippet.id),
            OverwriteKind::Snippet,
            snippet.id,
        );
        Outcome {
            document: DocumentView {
                snippets: self.document.snippets.insert(snippet.id, snippet.content),
                ..self.document
            },
            ..reported
        }
    }

    /// The outcome once the snippets are registered, one after the other.
    pub open spec fn with_snippets(self, found: Seq<SnippetView>) -> Outcome
        decreases found.len(),
    {
        if found.len() == 0 {
            self
        } else {
            self.with_snippets(found.drop_last()).with_snippet(found.last())
        }
    }

    /// The outcome once an element of file scope is admitted. An enum, a
    /// struct, a class or a function that is documented under the settings
    /// joins its list, at the end; one that shares its name with an entry
    /// of the list is reported, and both stay. Anything else is dropped.
    pub open spec fn with_element(self, element: ElementView, settings: Settings) -> Outcome {
        match element {
            ElementView::Enum(item) => if item.can_export(settings) {
                let reported = self.reporting(
                    named_in::<Enum>(self.document.enums, item.name),
                    OverwriteKind::Enum,
                    item.name,
                );
                Outcome {
                    document: DocumentView {
                        enums: self.document.enums.push(item),
                        ..self.document
                    },
                    ..reported
                }
            } else {
                self
            },
            ElementView::StructClass(item) => if item.can_export(settings) {
                match item.mode {
                    StructClassMode::Struct => {
                        let reported = self.reporting(
                            named_in::<StructClass>(self.document.structs, item.name),
                            OverwriteKind::Struct,
                            item.name,
                        );
                        Outcome {
                            document: DocumentView {
                                structs: self.document.structs.push(item),
                                ..self.document
                            },
                            ..reported
                        }
                    },
                    StructClassMode::Class => {
                        let reported = self.reporting(
                            named_in::<StructClass>(self.document.classes, item.name),
                            OverwriteKind::Class,
                            item.name,
                        );
                        Outcome {
                            document: DocumentView {
                                classes: self.document.classes.push(item),
                                ..self.document
                            },
                            ..reported
                        }
                    },
                }
            } else {
                self
            },
            ElementView::Function(item) => if item.can_export(settings) {
                let reported = self.reporting(
                    named_in::<Function>(self.document.functions, item.name),
                    OverwriteKind::Function,
                    item.name,
                );
                Outcome {
                    document: DocumentView {
                        functions: self.document.functions.push(item),
                        ..self.document
                    },
                    ..reported
                }
            } else {
                self
            },
            _ => self,
        }
    }
}

/// The doc comments of a proxy: what the last run of doc comment lines
/// among its children says.
pub open spec fn proxy_comments(node: ParseNode) -> Option<Seq<char>> {
    match last_with_rule(node.children@, Rule::DocCommentLines) {
        Some(lines) => Some(doc_comment_text(lines.text@)),
        None => None,
    }
}

/// `tags` with the tags of the tag lists among `parts` added.
pub open spec fn proxy_tags_from(parts: Seq<ParseNode>, tags: Set<Seq<char>>) -> Set<Seq<char>>
    decreases parts.len(),
{
    if parts.len() == 0 {
        tags
    } else if parts.last().rule == Rule::ProxyTags {
        tags_from(parts.last().children@, proxy_tags_from(parts.drop_last(), tags))
    } else {
        proxy_tags_from(parts.drop_last(), tags)
    }
}

/// The tags of a proxy.
pub open spec fn proxy_tags(node: ParseNode) -> Set<Seq<char>> {
    proxy_tags_from(node.children@, Set::empty())
}

/// The texts of the content lines among `parts`, one behind the other.
pub open spec fn proxy_content_from(parts: Seq<ParseNode>) -> Seq<char>
    decreases parts.len(),
{
    if parts.len() == 0 {
        Seq::empty()
    } else if parts.last().rule == Rule::ProxyLineContent {
        proxy_content_from(parts.drop_last()) + parts.last().text@
    } else {
        proxy_content_from(parts.drop_last())
    }
}

/// The inline text of a proxy: its content lines, one behind the other.
/// This is the text that the grammar reads as a single element; the tree
/// that it gives stands behind the other children of the proxy.
pub fn proxy_content(node: &ParseNode) -> (r: String)
    ensures
        r@ == proxy_content_from(node.children@),
{
    let mut result = String::new();
    let ghost parts = node.children@;
    let mut i: usize = 0;
    assert(parts.take(0) =~= Seq::empty());
    while i < node.children.len()
        invariant
            i <= node.children.len(),
            parts == node.children@,
            result@ == proxy_content_from(parts.take(i as int)),
        decreases node.children.len() - i,
    {
        proof {
            lemma_prefix_step(parts, i as int);
        }
        if node.children[i].rule == Rule::ProxyLineContent {
            result.append(node.children[i].text.as_str());
        }
        i += 1;
    }
    assert(parts.take(i as int) =~= parts);
    result
}

/// The tree of the inline text of a proxy: the last element among its
/// children.
pub open spec fn proxy_element(node: ParseNode) -> Option<ParseNode> {
    last_with_rule(node.children@, Rule::Element)
}

impl Outcome {
    /// The outcome once a proxy is admitted. Its inline text is classified
    /// as an element of public visibility. A function or a property joins
    /// the proxies of its kind, with the tags and under the doc comments of
    /// the proxy, whether or not the settings would document it. A proxy
    /// without doc comments, and one whose inline text is anything else, is
    /// dropped.
    pub open spec fn with_proxy(self, node: ParseNode, settings: Settings) -> Outcome {
        match (
            proxy_comments(node),
            element_of(proxy_element(node).unwrap(), Visibility::Public, settings),
        ) {
            (Some(comments), ElementView::Function(item)) => Outcome {
                document: DocumentView {
                    proxy_functions: self.document.proxy_functions.push(
                        ProxyView {
                            tags: proxy_tags(node),
                            item: FunctionView { doc_comments: Some(comments), ..item },
                        },
                    ),
                    ..self.document
                },
                ..self
            },
            (Some(comments), ElementView::Property(item)) => Outcome {
                document: DocumentView {
                    proxy_properties: self.document.proxy_properties.push(
                        ProxyView {
                            tags: proxy_tags(node),
                            item: PropertyView { doc_comments: Some(comments), ..item },
                        },
                    ),
                    ..self.document
                },
                ..self
            },
            _ => self,
        }
    }

    /// The outcome after one child of a file. The snippets that stand below
    /// the child are registered first.
    pub open spec fn with_file_part(self, part: ParseNode, settings: Settings) -> Outcome {
        match part.rule {
            Rule::Proxy => self.with_snippets(
                element_snippets(proxy_element(part).unwrap()),
            ).with_proxy(part, settings),
            Rule::Snippet => match snippet_of(part) {
                Some(snippet) => self.with_snippet(snippet),
                None => self,
            },
            Rule::Element => self.with_snippets(element_snippets(part)).with_element(
                element_of(part, Visibility::Public, settings),
                settings,
            ),
            _ => self,
        }
    }

    /// The outcome after the children `parts` of a file, in order.
    pub open spec fn with_file_parts(self, parts: Seq<ParseNode>, settings: Settings) -> Outcome
        decreases parts.len(),
    {
        if parts.len() == 0 {
            self
        } else {
            self.with_file_parts(parts.drop_last(), settings).with_file_part(
                parts.last(),
                settings,
            )
        }
    }
}

/// What reading a header makes of a document: the document after the
/// children of the file, with the reports of what was overwritten. A tree
/// whose root is no file changes nothing.
pub open spec fn header_outcome(
    file: ParseNode,
    document: DocumentView,
    settings: Settings,
) -> Outcome {
    let start = Outcome { document, log: Seq::empty() };
    if file.rule == Rule::File {
        start.with_file_parts(file.children@, settings)
    } else {
        start
    }
}

/// The outcome that a document and a list of reports stand for.
pub open spec fn outcome_of(document: &Document, log: &Vec<Overwrite>) -> Outcome {
    Outcome { document: document@, log: log.deep_view() }
}

/// Appends a report where there is something to report.
fn report(log: &mut Vec<Overwrite>, overwritten: bool, kind: OverwriteKind, name: &String)
    ensures
        final(log).deep_view() == (Outcome {
            document: DocumentView::empty(),
            log: old(log).deep_view(),
        }).reporting(overwritten, kind, name@).log,
{
    if overwritten {
        let ghost before = log.deep_view();
        log.push(Overwrite { kind, name: name.clone() });
        assert(log.deep_view() =~= before.push(OverwriteView { kind, name: name@ }));
    }
}

/// Registers the snippets in the document, one after the other.
fn register_snippets(document: &mut Document, log: &mut Vec<Overwrite>, found: &Vec<Snippet>)
    ensures
        outcome_of(final(document), final(log)) == outcome_of(old(document), old(log)).with_snippets(
            found.deep_view(),
        ),
{
    let ghost start = outcome_of(document, log);
    let ghost all = found.deep_view();
    let mut i: usize = 0;
    assert(all.take(0) =~= Seq::empty());
    while i < found.len()
        invariant
            i <= found.len(),
            all == found.deep_view(),
            outcome_of(document, log) == start.with_snippets(all.take(i as int)),
        decreases found.len() - i,
    {
        proof {
            lemma_prefix_step(all, i as int);
        }
        let snippet = &found[i];
        let held = document.snippets.contains_key(snippet.id.as_str());
        report(log, held, OverwriteKind::Snippet, &snippet.id);
        document.snippets.insert(snippet.id.clone(), snippet.content.clone());
        i += 1;
    }
    assert(all.take(i as int) =~= all);
}

/// Admits an element of file scope to the document.
fn admit_element(
    document: &mut Document,
    log: &mut Vec<Overwrite>,
    element: Element,
    settings: &Settings,
)
    ensures
        outcome_of(final(document), final(log)) == outcome_of(old(document), old(log)).with_element(
            element@,
            *settings,
        ),
{
    match element {
        Element::Enum(item) => {
            if item.can_export(settings) {
                let held = has_name(&document.enums, &item.name);
                report(log, held, OverwriteKind::Enum, &item.name);
                let ghost before = document.enums.deep_view();
                document.enums.push(item);
                assert(document.enums.deep_view() =~= before.push(item@));
            }
        },
        Element::StructClass(item) => {
            if item.can_export(settings) {
                match item.mode {
                    StructClassMode::Struct => {
                        let held = has_name(&document.structs, &item.name);
                        report(log, held, OverwriteKind::Struct, &item.name);
                        let ghost before = document.structs.deep_view();
                        document.structs.push(item);
                        assert(document.structs.deep_view() =~= before.push(item@));
                    },
                    StructClassMode::Class => {
                        let held = has_name(&document.classes, &item.name);
                        report(log, held, OverwriteKind::Class, &item.name);
                        let ghost before = document.classes.deep_view();
                        document.classes.push(item);
                        assert(document.classes.deep_view() =~= before.push(item@));
                    },
                }
            }
        },
        Element::Function(item) => {
            if item.can_export(settings) {
                let held = has_name(&document.functions, &item.name);
                report(log, held, OverwriteKind::Function, &item.name);
                let ghost before = document.functions.deep_view();
                document.functions.push(item);
                assert(document.functions.deep_view() =~= before.push(item@));
            }
        },
        _ => {},
    }
}

/// Admits a proxy to the document, and registers the snippets of its
/// inline text.
fn parse_proxy(
    node: &ParseNode,
    settings: &Settings,
    document: &mut Document,
    log: &mut Vec<Overwrite>,
)
    requires
        node.conforms(),
        node.rule == Rule::Proxy,
    ensures
        outcome_of(final(document), final(log)) == outcome_of(old(document), old(log)).with_snippets(
            element_snippets(proxy_element(*node).unwrap()),
        ).with_proxy(*node, *settings),
{
    let mut doc_comments: Option<String> = None;
    let mut tags = TagSet::new();
    let mut inline: Option<usize> = None;
    let ghost parts = node.children@;
    let mut i: usize = 0;
    assert(parts.take(0) =~= Seq::empty());
    while i < node.children.len()
        invariant
            i <= node.children.len(),
            parts == node.children@,
            doc_comments.deep_view() == match last_with_rule(
                parts.take(i as int),
                Rule::DocCommentLines,
            ) {
                Some(lines) => Some(doc_comment_text(lines.text@)),
                None => None,
            },
            tags@ == proxy_tags_from(parts.take(i as int), Set::empty()),
            match inline {
                Some(at) => at < i && last_with_rule(parts.take(i as int), Rule::Element) == Some(
                    parts[at as int],
                ),
                None => last_with_rule(parts.take(i as int), Rule::Element) is None,
            },
        decreases node.children.len() - i,
    {
        let part = &node.children[i];
        proof {
            lemma_prefix_step(parts, i as int);
        }
        match part.rule {
            Rule::DocCommentLines => {
                doc_comments = Some(parse_doc_comments(part.text.as_str()));
            },
            Rule::ProxyTags => {
                parse_inject(part, &mut tags);
            },
            Rule::Element => {
                inline = Some(i);
            },
            _ => {},
        }
        i += 1;
    }
    assert(parts.take(i as int) =~= parts);
    proof {
        lemma_last_with_rule(parts, Rule::Element);
    }
    let at = inline.unwrap();
    let inner = &node.children[at];
    assert(inner.conforms());
    let mut found: Vec<Snippet> = Vec::new();
    assert(found.deep_view() =~= Seq::empty());
    let element = parse_element(inner, Visibility::Public, settings, &mut found);
    assert(found.deep_view() =~= element_snippets(*inner));
    register_snippets(document, log, &found);
    match element {
        Element::Function(mut item) => {
            if let Some(comments) = doc_comments {
                item.doc_comments = Some(comments);
                let ghost before = document.proxy_functions.deep_view();
                let proxy = Proxy { tags, item };
                document.proxy_functions.push(proxy);
                assert(document.proxy_functions.deep_view() =~= before.push(proxy@));
            }
        },
        Element::Property(mut item) => {
            if let Some(comments) = doc_comments {
                item.doc_comments = Some(comments);
                let ghost before = document.proxy_properties.deep_view();
                let proxy = Proxy { tags, item };
                document.proxy_properties.push(proxy);
                assert(document.proxy_properties.deep_view() =~= before.push(proxy@));
            }
        },
        _ => {},
    }
}

/// Reads the children of a file into the document.
fn parse_file(
    node: &ParseNode,
    document: &mut Document,
    settings: &Settings,
    log: &mut Vec<Overwrite>,
)
    requires
        node.conforms(),
    ensures
        outcome_of(final(document), final(log)) == outcome_of(
            old(document),
            old(log),
        ).with_file_parts(node.children@, *settings),
{
    let ghost start = outcome_of(document, log);
    let ghost parts = node.children@;
    let mut i: usize = 0;
    assert(parts.take(0) =~= Seq::empty());
    while i < node.children.len()
        invariant
            i <= node.children.len(),
            node.conforms(),
            parts == node.children@,
            outcome_of(document, log) == start.with_file_parts(parts.take(i as int), *settings),
        decreases node.children.len() - i,
    {
        let part = &node.children[i];
        proof {
            lemma_prefix_step(parts, i as int);
            assert(part.conforms());
        }
        match part.rule {
            Rule::Proxy => {
                parse_proxy(part, settings, document, log);
            },
            Rule::Snippet => {
                match parse_snippet(part) {
                    Some(snippet) => {
                        let held = document.snippets.contains_key(snippet.id.as_str());
                        report(log, held, OverwriteKind::Snippet, &snippet.id);
                        document.snippets.insert(snippet.id, snippet.content);
                    },
                    None => {},
                }
            },
            Rule::Element => {
                let mut found: Vec<Snippet> = Vec::new();
                assert(found.deep_view() =~= Seq::empty());
                let element = parse_element(part, Visibility::Public, settings, &mut found);
                assert(found.deep_view() =~= element_snippets(*part));
                register_snippets(document, log, &found);
                admit_element(document, log, element, settings);
            },
            _ => {},
        }
        i += 1;
    }
    assert(parts.take(i as int) =~= parts);
}

/// Reads the tree of a header into the document, and returns the reports
/// of what was overwritten on the way. A tree that does not have the shape
/// that the grammar gives its trees is refused, and the document stays as
/// it is.
pub fn parse_unreal_cpp_header(
    file: &ParseNode,
    document: &mut Document,
    settings: &Settings,
) -> (r: Result<Vec<Overwrite>, GrammarError>)
    ensures
        match r {
            Ok(log) => file.conforms() && outcome_of(final(document), &log) == header_outcome(
                *file,
                old(document)@,
                *settings,
            ),
            Err(error) => !file.conforms() && error == GrammarError::Malformed && *final(document)
                == *old(document),
        },
{
    if !file.is_conforming() {
        return Err(GrammarError::Malformed);
    }
    let mut log: Vec<Overwrite> = Vec::new();
    assert(log.deep_view() =~= Seq::empty());
    if file.rule == Rule::File {
        parse_file(file, document, settings, &mut log);
    }
    Ok(log)
}

/// What reading a single element at file scope gives: what the element is,
/// and the document once the snippets below the element are registered.
pub fn parse_unreal_cpp_element(
    element: &ParseNode,
    document: &mut Document,
    settings: &Settings,
) -> (r: Result<(Element, Vec<Overwrite>), GrammarError>)
    ensures
        match r {
            Ok((item, log)) => element.conforms() && element.rule == Rule::Element && item@
                == element_of(*element, Visibility::Public, *settings) && outcome_of(
                final(document),
                &log,
            ) == (Outcome { document: old(document)@, log: Seq::empty() }).with_snippets(
                element_snippets(*element),
            ),
            Err(error) => !(element.conforms() && element.rule == Rule::Element) && error
                == GrammarError::Malformed && *final(document) == *old(document),
        },
{
    if element.rule != Rule::Element || !element.is_conforming() {
        return Err(GrammarError::Malformed);
    }
    let mut log: Vec<Overwrite> = Vec::new();
    assert(log.deep_view() =~= Seq::empty());
    let mut found: Vec<Snippet> = Vec::new();
    assert(found.deep_view() =~= Seq::empty());
    let item = parse_element(element, Visibility::Public, settings, &mut found);
    assert(found.deep_view() =~= element_snippets(*element));
    register_snippets(document, &mut log, &found);
    Ok((item, log))
}

} // verus!
