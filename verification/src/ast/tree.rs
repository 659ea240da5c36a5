//! The parse tree of a header, as the grammar hands it over.
//!
//! A node carries the rule that matched, the text that it matched and the
//! nodes of the rules that matched inside it. The node of a proxy carries
//! one thing more: behind the children that the grammar gave it stands the
//! tree of its inline text, read as a single element.

use crate::text::str_eq;
use vstd::prelude::*;

verus! {

/// The rules of the grammar that carry meaning. Every other rule is `Other`.
#[derive(Debug, Clone, Copy, PartialEq, Eq, Structural)]
pub enum Rule {
    File,
    Element,
    Proxy,
    ProxyTags,
    ProxyLineContent,
    Snippet,
    SnippetInner,
    DocCommentLines,
    Identifier,
    ElementEnum,
    ElementStruct,
    ElementClass,
    ElementProperty,
    ElementFunction,
    SpecifierSingle,
    SpecifierPair,
    SpecifierMeta,
    Uenum,
    Ustruct,
    Uclass,
    Uproperty,
    Ufunction,
    EnumSignature,
    EnumBody,
    StructSignature,
    ClassSignature,
    StructClassBody,
    TemplateDeclaration,
    Api,
    Inheritances,
    Visibility,
    Inject,
    PropertySignature,
    PropertyArray,
    ValueType,
    DefaultValue,
    Staticness,
    Virtualness,
    Constness,
    Overrideness,
    FunctionSignature,
    ConstructorSignature,
    FunctionArguments,
    FunctionArgument,
    FunctionBody,
    Operator,
    Other,
}

/// One node of the parse tree.
#[derive(Debug)]
pub struct ParseNode {
    pub rule: Rule,
    pub text: String,
    pub children: Vec<ParseNode>,
}

/// The tree does not have the shape that the grammar gives its trees.
#[derive(Debug, Clone, Copy, PartialEq, Eq, Structural)]
pub enum GrammarError {
    /// A node lacks a child that its rule always has, a base type names no
    /// visibility, or a proxy lacks the tree of its inline text.
    Malformed,
}

/// Whether `text` is one of the three visibility keywords.
pub open spec fn is_visibility_keyword(text: Seq<char>) -> bool {
    text == "private"@ || text == "protected"@ || text == "public"@
}

/// Whether `node` is one base type of an inheritance list: a visibility
/// keyword and a type.
pub open spec fn is_inheritance(node: ParseNode) -> bool {
    node.children@.len() >= 2 && is_visibility_keyword(node.children@[0].text@)
}

/// Whether one of the nodes has the rule.
pub open spec fn has_rule(nodes: Seq<ParseNode>, rule: Rule) -> bool {
    exists|i: int| 0 <= i < nodes.len() && (#[trigger] nodes[i]).rule == rule
}

impl ParseNode {
    /// Whether the node itself has what its rule always has.
    pub open spec fn well_shaped(self) -> bool {
        match self.rule {
            Rule::SpecifierSingle | Rule::EnumSignature | Rule::DefaultValue => self.children@.len()
                >= 1,
            Rule::SpecifierPair => self.children@.len() >= 2,
            Rule::Inheritances => forall|i: int|
                0 <= i < self.children@.len() ==> is_inheritance(#[trigger] self.children@[i]),
            Rule::Proxy => has_rule(self.children@, Rule::Element),
            _ => true,
        }
    }

    /// Whether the node and every node below it has what its rule always
    /// has.
    pub open spec fn conforms(self) -> bool
        decreases self,
    {
        self.well_shaped() && forall|i: int|
            0 <= i < self.children@.len() ==> (#[trigger] self.children@[i]).conforms()
    }

    /// A node without children.
    pub fn leaf(rule: Rule, text: &str) -> (r: ParseNode)
        ensures
            r.rule == rule,
            r.text@ == text@,
            r.children@.len() == 0,
    {
        ParseNode { rule, text: text.to_owned(), children: Vec::new() }
    }

    /// A node with children.
    pub fn branch(rule: Rule, text: &str, children: Vec<ParseNode>) -> (r: ParseNode)
        ensures
            r.rule == rule,
            r.text@ == text@,
            r.children == children,
    {
        ParseNode { rule, text: text.to_owned(), children }
    }

    /// Whether the node itself has what its rule always has.
    pub fn is_well_shaped(&self) -> (r: bool)
        ensures
            r == self.well_shaped(),
    {
        match self.rule {
            Rule::SpecifierSingle | Rule::EnumSignature | Rule::DefaultValue => self.children.len()
                >= 1,
            Rule::SpecifierPair => self.children.len() >= 2,
            Rule::Inheritances => {
                let mut i: usize = 0;
                while i < self.children.len()
                    invariant
                        i <= self.children.len(),
                        self.rule == Rule::Inheritances,
                        forall|k: int| 0 <= k < i ==> is_inheritance(#[trigger] self.children@[k]),
                    decreases self.children.len() - i,
                {
                    let entry = &self.children[i];
                    if entry.children.len() < 2 {
                        assert(!is_inheritance(self.children@[i as int]));
                        return false;
                    }
                    let keyword = entry.children[0].text.as_str();
                    if !(str_eq(keyword, "private") || str_eq(keyword, "protected") || str_eq(
                        keyword,
                        "public",
                    )) {
                        assert(!is_inheritance(self.children@[i as int]));
                        return false;
                    }
                    i += 1;
                }
                true
            },
            Rule::Proxy => {
                let mut i: usize = 0;
                while i < self.children.len()
                    invariant
                        i <= self.children.len(),
                        self.rule == Rule::Proxy,
                        forall|k: int|
                            0 <= k < i ==> (#[trigger] self.children@[k]).rule != Rule::Element,
                    decreases self.children.len() - i,
                {
                    if self.children[i].rule == Rule::Element {
                        assert(self.children@[i as int].rule == Rule::Element);
                        return true;
                    }
                    i += 1;
                }
                false
            },
            _ => true,
        }
    }

    /// Whether the node and every node below it has what its rule always
    /// has.
    pub fn is_conforming(&self) -> (r: bool)
        ensures
            r == self.conforms(),
        decreases self,
    {
        if !self.is_well_shaped() {
            return false;
        }
        let mut i: usize = 0;
        while i < self.children.len()
            invariant
                i <= self.children.len(),
                forall|k: int| 0 <= k < i ==> (#[trigger] self.children@[k]).conforms(),
            decreases self.children.len() - i,
        {
            if !self.children[i].is_conforming() {
                return false;
            }
            i += 1;
        }
        true
    }
}

/// The texts of the nodes, in order.
pub open spec fn texts_of(nodes: Seq<ParseNode>) -> Seq<Seq<char>> {
    nodes.map_values(|node: ParseNode| node.text@)
}

/// The last of the nodes that has the rule.
pub open spec fn last_with_rule(nodes: Seq<ParseNode>, rule: Rule) -> Option<ParseNode>
    decreases nodes.len(),
{
    if nodes.len() == 0 {
        None
    } else if nodes.last().rule == rule {
        Some(nodes.last())
    } else {
        last_with_rule(nodes.drop_last(), rule)
    }
}

/// The last of the nodes that has the rule is one of them and has the rule;
/// there is one exactly where a node has the rule.
pub proof fn lemma_last_with_rule(nodes: Seq<ParseNode>, rule: Rule)
    ensures
        match last_with_rule(nodes, rule) {
            Some(node) => node.rule == rule && nodes.contains(node),
            None => !has_rule(nodes, rule),
        },
    decreases nodes.len(),
{
    if nodes.len() > 0 {
        if nodes.last().rule == rule {
            assert(nodes[nodes.len() - 1] == nodes.last());
        } else {
            let front = nodes.drop_last();
            lemma_last_with_rule(front, rule);
            match last_with_rule(front, rule) {
                Some(node) => {
                    let k = choose|k: int| 0 <= k < front.len() && front[k] == node;
                    assert(nodes[k] == node);
                },
                None => {
                    assert forall|i: int| 0 <= i < nodes.len() implies (#[trigger] nodes[i]).rule
                        != rule by {
                        if i < front.len() {
                            assert(front[i] == nodes[i]);
                        }
                    }
                },
            }
        }
    }
}

} // verus!
