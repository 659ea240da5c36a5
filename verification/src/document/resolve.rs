//! The two passes that change what the entities hold: detached members join
//! the structs and classes that carry one of their tags, and the self-name
//! placeholder in doc comments gives way to the name of the owner.

use crate::document::model::{
    Argument, ArgumentView, Document, DocumentView, Enum, EnumView, Function, FunctionView,
    Property, PropertyView, Proxy, ProxyView, StructClass, StructClassView,
};
use crate::text::{chars_of, replace_chars, replaced, string_of};
use vstd::prelude::*;

verus! {

/// The placeholder that stands for the name of the owner.
pub open spec fn self_name() -> Seq<char> {
    "$Self$"@
}

/// `content` with every placeholder replaced by `owner`.
pub fn replace_self_names(content: &str, owner: &str) -> (r: String)
    ensures
        r@ == replaced(content@, self_name(), owner@),
{
    let text = chars_of(content);
    let pattern = chars_of("$Self$");
    let name = chars_of(owner);
    let result = replace_chars(&text, &pattern, &name);
    string_of(&result)
}

/// The doc comments of an entity once the placeholder is resolved: under an
/// owner every placeholder is replaced by the owner's name; without an owner
/// the text stays as it is.
pub open spec fn resolved_comments(
    comments: Option<Seq<char>>,
    owner: Option<Seq<char>>,
) -> Option<Seq<char>> {
    match (owner, comments) {
        (Some(name), Some(content)) => Some(replaced(content, self_name(), name)),
        _ => comments,
    }
}

/// Resolves the placeholder in optional doc comments.
fn resolve_comments(comments: &mut Option<String>, owner: Option<&str>)
    ensures
        final(comments).deep_view() == resolved_comments(
            old(comments).deep_view(),
            match owner {
                Some(name) => Some(name@),
                None => None,
            },
        ),
{
    if let Some(name) = owner {
        let next = match comments {
            Some(content) => Some(replace_self_names(content.as_str(), name)),
            None => None,
        };
        *comments = next;
    }
}

/// The view of an optional owner.
pub open spec fn owner_view(owner: Option<&str>) -> Option<Seq<char>> {
    match owner {
        Some(name) => Some(name@),
        None => None,
    }
}

impl ArgumentView {
    /// The argument with the placeholder resolved in its doc comments.
    pub open spec fn with_self_names(self, owner: Option<Seq<char>>) -> ArgumentView {
        ArgumentView { doc_comments: resolved_comments(self.doc_comments, owner), ..self }
    }
}

impl Argument {
    /// Resolves the placeholder in the doc comments of the argument.
    pub fn resolve_self_names_in_docs(&mut self, owner: Option<&str>)
        ensures
            final(self)@ == old(self)@.with_self_names(owner_view(owner)),
    {
        resolve_comments(&mut self.doc_comments, owner);
    }
}

impl FunctionView {
    /// The function with the placeholder resolved in its doc comments and in
    /// those of its arguments.
    pub open spec fn with_self_names(self, owner: Option<Seq<char>>) -> FunctionView {
        FunctionView {
            doc_comments: resolved_comments(self.doc_comments, owner),
            arguments: self.arguments.map_values(
                |item: ArgumentView| item.with_self_names(owner),
            ),
            ..self
        }
    }
}

impl Function {
    /// Resolves the placeholder in the doc comments of the function and of
    /// its arguments. A free function has no owner.
    pub fn resolve_self_names_in_docs(&mut self, owner: Option<&str>)
        ensures
            final(self)@ == old(self)@.with_self_names(owner_view(owner)),
    {
        let ghost start = self.arguments.deep_view();
        resolve_comments(&mut self.doc_comments, owner);
        let mut i: usize = 0;
        while i < self.arguments.len()
            invariant
                i <= self.arguments.len(),
                self.arguments.len() == start.len(),
                forall|k: int|
                    0 <= k < i ==> self.arguments@[k]@ == (#[trigger] start[k]).with_self_names(
                        owner_view(owner),
                    ),
                forall|k: int| i <= k < start.len() ==> self.arguments@[k]@ == #[trigger] start[k],
                self.doc_comments.deep_view() == resolved_comments(
                    old(self).doc_comments.deep_view(),
                    owner_view(owner),
                ),
                self.specifiers == old(self).specifiers,
                self.name == old(self).name,
                self.return_type == old(self).return_type,
                self.visibility == old(self).visibility,
                self.template == old(self).template,
                self.is_static == old(self).is_static,
                self.is_virtual == old(self).is_virtual,
                self.is_const_this == old(self).is_const_this,
                self.is_override == old(self).is_override,
            decreases self.arguments.len() - i,
        {
            self.arguments[i].resolve_self_names_in_docs(owner);
            i += 1;
        }
        assert(self.arguments.deep_view() =~= start.map_values(
            |item: ArgumentView| item.with_self_names(owner_view(owner)),
        ));
    }
}

impl PropertyView {
    /// The property with the placeholder resolved in its doc comments.
    pub open spec fn with_self_names(self, owner: Seq<char>) -> PropertyView {
        PropertyView { doc_comments: resolved_comments(self.doc_comments, Some(owner)), ..self }
    }
}

impl Property {
    /// Resolves the placeholder in the doc comments of the property.
    pub fn resolve_self_names_in_docs(&mut self, owner: &str)
        ensures
            final(self)@ == old(self)@.with_self_names(owner@),
    {
        resolve_comments(&mut self.doc_comments, Some(owner));
    }
}

impl EnumView {
    /// The enum with the placeholder resolved to its name.
    pub open spec fn with_self_names(self) -> EnumView {
        EnumView { doc_comments: resolved_comments(self.doc_comments, Some(self.name)), ..self }
    }
}

impl Enum {
    /// Resolves the placeholder in the doc comments of the enum to its name.
    pub fn resolve_self_names_in_docs(&mut self)
        ensures
            final(self)@ == old(self)@.with_self_names(),
    {
        let name = self.name.clone();
        resolve_comments(&mut self.doc_comments, Some(name.as_str()));
    }
}

impl StructClassView {
    /// The struct or class with the placeholder resolved to its name, in its
    /// own doc comments and in those of its members.
    pub open spec fn with_self_names(self) -> StructClassView {
        StructClassView {
            doc_comments: resolved_comments(self.doc_comments, Some(self.name)),
            properties: self.properties.map_values(
                |item: PropertyView| item.with_self_names(self.name),
            ),
            methods: self.methods.map_values(
                |item: FunctionView| item.with_self_names(Some(self.name)),
            ),
            ..self
        }
    }
}

impl StructClass {
    /// Resolves the placeholder in the doc comments of the struct or class
    /// and of its members to its name.
    pub fn resolve_self_names_in_docs(&mut self)
        ensures
            final(self)@ == old(self)@.with_self_names(),
    {
        let name = self.name.clone();
        let ghost start = self@;
        resolve_comments(&mut self.doc_comments, Some(name.as_str()));
        let mut i: usize = 0;
        while i < self.properties.len()
            invariant
                i <= self.properties.len(),
                self.properties.len() == start.properties.len(),
                name@ == start.name,
                forall|k: int|
                    0 <= k < i ==> self.properties@[k]@ == (
                    #[trigger] start.properties[k]).with_self_names(start.name),
                forall|k: int|
                    i <= k < start.properties.len() ==> self.properties@[k]@
                        == #[trigger] start.properties[k],
                self@ == (StructClassView {
                    properties: self.properties.deep_view(),
                    doc_comments: resolved_comments(start.doc_comments, Some(start.name)),
                    ..start
                }),
            decreases self.properties.len() - i,
        {
            self.properties[i].resolve_self_names_in_docs(name.as_str());
            i += 1;
        }
        assert(self.properties.deep_view() =~= start.properties.map_values(
            |item: PropertyView| item.with_self_names(start.name),
        ));
        let mut j: usize = 0;
        while j < self.methods.len()
            invariant
                j <= self.methods.len(),
                self.methods.len() == start.methods.len(),
                name@ == start.name,
                forall|k: int|
                    0 <= k < j ==> self.methods@[k]@ == (
                    #[trigger] start.methods[k]).with_self_names(Some(start.name)),
                forall|k: int|
                    j <= k < start.methods.len() ==> self.methods@[k]@
                        == #[trigger] start.methods[k],
                self@ == (StructClassView {
                    methods: self.methods.deep_view(),
                    ..start.with_self_names()
                }),
            decreases self.methods.len() - j,
        {
            self.methods[j].resolve_self_names_in_docs(Some(name.as_str()));
            j += 1;
        }
        assert(self.methods.deep_view() =~= start.methods.map_values(
            |item: FunctionView| item.with_self_names(Some(start.name)),
        ));
    }
}

impl DocumentView {
    /// The document with the placeholder resolved in every doc comment:
    /// to the name of the enum, struct or class that owns it. Free functions
    /// have no owner and stay as they are.
    pub open spec fn with_self_names(self) -> DocumentView {
        DocumentView {
            enums: self.enums.map_values(|item: EnumView| item.with_self_names()),
            classes: self.classes.map_values(|item: StructClassView| item.with_self_names()),
            structs: self.structs.map_values(|item: StructClassView| item.with_self_names()),
            functions: self.functions.map_values(|item: FunctionView| item.with_self_names(None)),
            ..self
        }
    }
}

/// Resolves the placeholder in every struct or class of `items`.
fn resolve_self_names_in_types(items: &mut Vec<StructClass>)
    ensures
        final(items).deep_view() == old(items).deep_view().map_values(
            |item: StructClassView| item.with_self_names(),
        ),
{
    let ghost start = items.deep_view();
    let mut i: usize = 0;
    while i < items.len()
        invariant
            i <= items.len(),
            items.len() == start.len(),
            forall|k: int| 0 <= k < i ==> items@[k]@ == (#[trigger] start[k]).with_self_names(),
            forall|k: int| i <= k < items.len() ==> items@[k]@ == #[trigger] start[k],
        decreases items.len() - i,
    {
        items[i].resolve_self_names_in_docs();
        i += 1;
    }
    assert(items.deep_view() =~= start.map_values(|item: StructClassView| item.with_self_names()));
}

impl Document {
    /// Resolves the placeholder in the doc comments of every enum, struct,
    /// class and function of the document.
    pub fn resolve_self_names_in_docs(&mut self)
        ensures
            final(self)@ == old(self)@.with_self_names(),
    {
        let ghost start = self@;
        let mut i: usize = 0;
        while i < self.enums.len()
            invariant
                i <= self.enums.len(),
                self.enums.len() == start.enums.len(),
                forall|k: int|
                    0 <= k < i ==> self.enums@[k]@ == (#[trigger] start.enums[k]).with_self_names(),
                forall|k: int|
                    i <= k < self.enums.len() ==> self.enums@[k]@ == #[trigger] start.enums[k],
                self@ == (DocumentView { enums: self.enums.deep_view(), ..start }),
            decreases self.enums.len() - i,
        {
            self.enums[i].resolve_self_names_in_docs();
            i += 1;
        }
        assert(self.enums.deep_view() =~= start.enums.map_values(
            |item: EnumView| item.with_self_names(),
        ));
        resolve_self_names_in_types(&mut self.classes);
        resolve_self_names_in_types(&mut self.structs);
        let ghost middle = self@;
        let mut j: usize = 0;
        while j < self.functions.len()
            invariant
                j <= self.functions.len(),
                self.functions.len() == start.functions.len(),
                forall|k: int|
                    0 <= k < j ==> self.functions@[k]@ == (
                    #[trigger] start.functions[k]).with_self_names(None),
                forall|k: int|
                    j <= k < self.functions.len() ==> self.functions@[k]@
                        == #[trigger] start.functions[k],
                self@ == (DocumentView { functions: self.functions.deep_view(), ..middle }),
                middle == (DocumentView { functions: start.functions, ..start.with_self_names() }),
            decreases self.functions.len() - j,
        {
            self.functions[j].resolve_self_names_in_docs(None);
            j += 1;
        }
        assert(self.functions.deep_view() =~= start.functions.map_values(
            |item: FunctionView| item.with_self_names(None),
        ));
    }
}

/// Whether a detached member with the tags `proxy_tags` joins a type with
/// the tags `tags`: whether the two sets share a tag.
pub open spec fn tags_meet(proxy_tags: Set<Seq<char>>, tags: Set<Seq<char>>) -> bool {
    exists|tag: Seq<char>| tags.contains(tag) && proxy_tags.contains(tag)
}

/// The items of those of `proxies` that share a tag with `tags`, in the
/// order of `proxies`.
pub open spec fn injected<V>(proxies: Seq<ProxyView<V>>, tags: Set<Seq<char>>) -> Seq<V>
    decreases proxies.len(),
{
    if proxies.len() == 0 {
        Seq::empty()
    } else if tags_meet(proxies.last().tags, tags) {
        injected(proxies.drop_last(), tags).push(proxies.last().item)
    } else {
        injected(proxies.drop_last(), tags)
    }
}

impl StructClassView {
    /// The struct or class once the detached members that share a tag with
    /// it have joined its own, behind them; its tags are used up.
    pub open spec fn with_injects(
        self,
        functions: Seq<ProxyView<FunctionView>>,
        properties: Seq<ProxyView<PropertyView>>,
    ) -> StructClassView {
        StructClassView {
            methods: self.methods + injected(functions, self.injects),
            properties: self.properties + injected(properties, self.injects),
            injects: Set::empty(),
            ..self
        }
    }
}

impl StructClass {
    /// Appends a copy of every detached function and property that shares a
    /// tag with this struct or class, and empties its set of tags.
    pub fn resolve_injects(
        &mut self,
        functions: &[Proxy<Function>],
        properties: &[Proxy<Property>],
    )
        ensures
            final(self)@ == old(self)@.with_injects(
                functions.deep_view(),
                properties.deep_view(),
            ),
    {
        let ghost start = self@;
        let tags = self.injects.take();
        let mut i: usize = 0;
        assert(functions.deep_view().take(0) =~= Seq::empty());
        assert(self.methods.deep_view() =~= start.methods + Seq::empty());
        while i < functions.len()
            invariant
                i <= functions.len(),
                tags@ == start.injects,
                self.methods.deep_view() == start.methods + injected(
                    functions.deep_view().take(i as int),
                    start.injects,
                ),
                self@ == (StructClassView {
                    methods: self.methods.deep_view(),
                    injects: Set::empty(),
                    ..start
                }),
            decreases functions.len() - i,
        {
            let ghost before = self.methods.deep_view();
            let ghost done = functions.deep_view().take(i as int);
            let ghost next = functions.deep_view().take(i + 1);
            assert(next.drop_last() =~= done);
            assert(next.last() == functions@[i as int]@);
            if tags.intersects(&functions[i].tags) {
                self.methods.push(functions[i].item.clone());
                assert(self.methods.deep_view() =~= before.push(functions@[i as int]@.item));
                assert(self.methods.deep_view() =~= start.methods + injected(next, start.injects));
            }
            i += 1;
        }
        assert(functions.deep_view().take(i as int) =~= functions.deep_view());
        let ghost middle = self@;
        let mut j: usize = 0;
        assert(properties.deep_view().take(0) =~= Seq::empty());
        assert(self.properties.deep_view() =~= start.properties + Seq::empty());
        while j < properties.len()
            invariant
                j <= properties.len(),
                tags@ == start.injects,
                self.properties.deep_view() == start.properties + injected(
                    properties.deep_view().take(j as int),
                    start.injects,
                ),
                self@ == (StructClassView { properties: self.properties.deep_view(), ..middle }),
            decreases properties.len() - j,
        {
            let ghost before = self.properties.deep_view();
            let ghost done = properties.deep_view().take(j as int);
            let ghost next = properties.deep_view().take(j + 1);
            assert(next.drop_last() =~= done);
            assert(next.last() == properties@[j as int]@);
            if tags.intersects(&properties[j].tags) {
                self.properties.push(properties[j].item.clone());
                assert(self.properties.deep_view() =~= before.push(properties@[j as int]@.item));
                assert(self.properties.deep_view() =~= start.properties + injected(
                    next,
                    start.injects,
                ));
            }
            j += 1;
        }
        assert(properties.deep_view().take(j as int) =~= properties.deep_view());
    }
}

impl DocumentView {
    /// The document once every detached member has joined the structs and
    /// classes that share a tag with it. The detached members are used up,
    /// whether or not they found a type.
    pub open spec fn with_injects(self) -> DocumentView {
        DocumentView {
            classes: self.classes.map_values(
                |item: StructClassView|
                    item.with_injects(self.proxy_functions, self.proxy_properties),
            ),
            structs: self.structs.map_values(
                |item: StructClassView|
                    item.with_injects(self.proxy_functions, self.proxy_properties),
            ),
            proxy_functions: Seq::empty(),
            proxy_properties: Seq::empty(),
            ..self
        }
    }
}

/// Injects the detached members into every struct or class of `items`.
fn resolve_injects_in_types(
    items: &mut Vec<StructClass>,
    functions: &Vec<Proxy<Function>>,
    properties: &Vec<Proxy<Property>>,
)
    ensures
        final(items).deep_view() == old(items).deep_view().map_values(
            |item: StructClassView|
                item.with_injects(functions.deep_view(), properties.deep_view()),
        ),
{
    let ghost start = items.deep_view();
    let mut i: usize = 0;
    while i < items.len()
        invariant
            i <= items.len(),
            items.len() == start.len(),
            forall|k: int|
                0 <= k < i ==> items@[k]@ == (#[trigger] start[k]).with_injects(
                    functions.deep_view(),
                    properties.deep_view(),
                ),
            forall|k: int| i <= k < items.len() ==> items@[k]@ == #[trigger] start[k],
        decreases items.len() - i,
    {
        items[i].resolve_injects(functions.as_slice(), properties.as_slice());
        i += 1;
    }
    assert(items.deep_view() =~= start.map_values(
        |item: StructClassView| item.with_injects(functions.deep_view(), properties.deep_view()),
    ));
}

impl Document {
    /// Injects every detached member into the structs and classes that share
    /// a tag with it, and empties the two lists of detached members.
    pub fn resolve_injects(&mut self)
        ensures
            final(self)@ == old(self)@.with_injects(),
    {
        let mut proxy_functions: Vec<Proxy<Function>> = Vec::new();
        let mut proxy_properties: Vec<Proxy<Property>> = Vec::new();
        assert(proxy_functions.deep_view() =~= Seq::empty());
        assert(proxy_properties.deep_view() =~= Seq::empty());
        std::mem::swap(&mut self.proxy_functions, &mut proxy_functions);
        std::mem::swap(&mut self.proxy_properties, &mut proxy_properties);
        resolve_injects_in_types(&mut self.classes, &proxy_functions, &proxy_properties);
        resolve_injects_in_types(&mut self.structs, &proxy_functions, &proxy_properties);
    }
}

/// Injection leaves no detached member and no tag behind.
pub proof fn lemma_injects_used_up(document: DocumentView)
    ensures
        document.with_injects().proxy_functions.len() == 0,
        document.with_injects().proxy_properties.len() == 0,
        forall|i: int|
            0 <= i < document.with_injects().classes.len()
                ==> document.with_injects().classes[i].injects == Set::<Seq<char>>::empty(),
        forall|i: int|
            0 <= i < document.with_injects().structs.len()
                ==> document.with_injects().structs[i].injects == Set::<Seq<char>>::empty(),
{
}

/// Injecting a second time changes nothing.
pub proof fn lemma_injects_twice(document: DocumentView)
    ensures
        document.with_injects().with_injects() == document.with_injects(),
{
    let once = document.with_injects();
    let twice = once.with_injects();
    assert forall|item: StructClassView| item.injects == Set::<Seq<char>>::empty() implies (
    #[trigger] item.with_injects(once.proxy_functions, once.proxy_properties)) == item by {
        assert(item.methods + Seq::<FunctionView>::empty() =~= item.methods);
        assert(item.properties + Seq::<PropertyView>::empty() =~= item.properties);
    }
    assert(twice.classes =~= once.classes);
    assert(twice.structs =~= once.structs);
}

/// A detached member joins a struct or class exactly where the two share a
/// tag: the members that injection appends are those of the detached members
/// that meet the tags, in their order.
pub proof fn lemma_injected_members<V>(proxies: Seq<ProxyView<V>>, tags: Set<Seq<char>>, item: V)
    ensures
        injected(proxies, tags).contains(item) <==> exists|i: int|
            0 <= i < proxies.len() && (#[trigger] proxies[i]).item == item && tags_meet(
                proxies[i].tags,
                tags,
            ),
    decreases proxies.len(),
{
    if proxies.len() > 0 {
        let front = proxies.drop_last();
        lemma_injected_members(front, tags, item);
        let result = injected(proxies, tags);
        if result.contains(item) {
            let k = choose|k: int| 0 <= k < result.len() && result[k] == item;
            if tags_meet(proxies.last().tags, tags) && k == result.len() - 1 {
                assert(proxies[proxies.len() - 1].item == item);
            } else {
                assert(injected(front, tags)[k] == item);
                assert(injected(front, tags).contains(item));
                let i = choose|i: int|
                    0 <= i < front.len() && (#[trigger] front[i]).item == item && tags_meet(
                        front[i].tags,
                        tags,
                    );
                assert(proxies[i] == front[i]);
            }
        }
        if exists|i: int|
            0 <= i < proxies.len() && (#[trigger] proxies[i]).item == item && tags_meet(
                proxies[i].tags,
                tags,
            ) {
            let i = choose|i: int|
                0 <= i < proxies.len() && (#[trigger] proxies[i]).item == item && tags_meet(
                    proxies[i].tags,
                    tags,
                );
            if i == proxies.len() - 1 {
                assert(result[result.len() - 1] == item);
            } else {
                assert(front[i] == proxies[i]);
                assert(injected(front, tags).contains(item));
                let k = choose|k: int|
                    0 <= k < injected(front, tags).len() && injected(front, tags)[k] == item;
                assert(result[k] == item);
            }
        }
    }
}

} // verus!
