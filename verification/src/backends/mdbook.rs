//! The pages of the reference: one page of Markdown for each enum, struct,
//! class and function of the document.

use crate::document::model::{
    Argument, ArgumentView, Attribute, AttributeView, Enum, EnumView, Function, FunctionView,
    Property, PropertyView, Specifiers, SpecifiersView, StructClass, StructClassMode,
    StructClassView,
};
use crate::text::{
    chars_of, extend_chars, join_chars, joined, lemma_prefix_step, lines_of, split_lines, string_of,
    views_of,
};
use vstd::prelude::*;
use vstd::string::StringExecFns;

verus! {

/// `count` spaces.
pub open spec fn spaces(count: nat) -> Seq<char> {
    Seq::new(count, |i: int| ' ')
}

/// `content` with `prefix` before every line, and one line feed between
/// each two lines.
pub open spec fn prefixed(prefix: Seq<char>, content: Seq<char>) -> Seq<char> {
    joined(lines_of(content).map_values(|line: Seq<char>| prefix + line), "\n"@)
}

/// `content` with `prefix` before every line.
pub fn prefix_lines(prefix: &Vec<char>, content: &Vec<char>) -> (r: Vec<char>)
    ensures
        r@ == prefixed(prefix@, content@),
{
    let lines = split_lines(content);
    let separator = chars_of("\n");
    let mut moved: Vec<Vec<char>> = Vec::new();
    let mut i: usize = 0;
    while i < lines.len()
        invariant
            i <= lines.len(),
            moved.len() == i,
            forall|k: int| 0 <= k < i ==> moved@[k]@ == prefix@ + (#[trigger] lines@[k])@,
        decreases lines.len() - i,
    {
        let mut line: Vec<char> = Vec::new();
        extend_chars(&mut line, prefix);
        extend_chars(&mut line, &lines[i]);
        assert(line@ =~= prefix@ + lines@[i as int]@);
        moved.push(line);
        i += 1;
    }
    assert(views_of(moved@) =~= lines_of(content@).map_values(|line: Seq<char>| prefix@ + line))
        by {
        assert(views_of(lines@) == lines_of(content@));
        assert forall|k: int| 0 <= k < lines.len() implies views_of(moved@)[k] == prefix@
            + lines_of(content@)[k] by {
            assert(views_of(lines@)[k] == lines@[k]@);
        }
    }
    join_chars(&moved, &separator)
}

/// `content` with every line moved `level` spaces to the right, and one
/// line feed between each two lines. Level 0 leaves the content as it is.
pub open spec fn indented(level: nat, content: Seq<char>) -> Seq<char> {
    if level > 0 {
        prefixed(spaces(level), content)
    } else {
        content
    }
}

/// `count` spaces.
pub fn margin_of(count: usize) -> (r: Vec<char>)
    ensures
        r@ == spaces(count as nat),
{
    let mut margin: Vec<char> = Vec::new();
    let mut n: usize = 0;
    while n < count
        invariant
            n <= count,
            margin@ == spaces(n as nat),
        decreases count - n,
    {
        margin.push(' ');
        n += 1;
        assert(margin@ =~= spaces(n as nat));
    }
    margin
}

/// `content` with every line moved `level` spaces to the right.
pub fn indent(level: usize, content: &str) -> (r: String)
    ensures
        r@ == indented(level as nat, content@),
{
    if level > 0 {
        let text = chars_of(content);
        let margin = margin_of(level);
        let result = prefix_lines(&margin, &text);
        string_of(&result)
    } else {
        content.to_owned()
    }
}

/// A block of C++ code.
pub open spec fn code_block(code: Seq<char>) -> Seq<char> {
    "```cpp\n"@ + code + "\n```\n\n"@
}

/// The text, or nothing where there is none.
pub open spec fn text_or_empty(text: Option<Seq<char>>) -> Seq<char> {
    match text {
        Some(content) => content,
        None => Seq::empty(),
    }
}

/// One attribute as an item of a list.
pub open spec fn attribute_line(attribute: AttributeView) -> Seq<char> {
    match attribute {
        AttributeView::Single(name) => "- **"@ + name + "**\n"@,
        AttributeView::Pair { key, value } => "- **"@ + key + "** = _"@ + value + "_\n"@,
    }
}

/// The attributes as the items of a list.
pub open spec fn attribute_lines(attributes: Seq<AttributeView>) -> Seq<char>
    decreases attributes.len(),
{
    if attributes.len() == 0 {
        Seq::empty()
    } else {
        attribute_lines(attributes.drop_last()) + attribute_line(attributes.last())
    }
}

/// The attributes under a title; nothing where there are none.
pub open spec fn attribute_section(title: Seq<char>, attributes: Seq<AttributeView>) -> Seq<char> {
    if attributes.len() > 0 {
        title + attribute_lines(attributes)
    } else {
        Seq::empty()
    }
}

/// What a page says of a specifier block.
pub open spec fn specifiers_text(specifiers: SpecifiersView) -> Seq<char> {
    "**_Reflection-enabled_**\n"@ + attribute_section(
        "\n### Specifiers:\n"@,
        specifiers.attributes,
    ) + attribute_section("\n### Meta Specifiers:\n"@, specifiers.meta) + "\n"@
}

/// Appends the attributes as the items of a list.
fn bake_attributes(attributes: &Vec<Attribute>, content: &mut String)
    ensures
        final(content)@ == old(content)@ + attribute_lines(attributes.deep_view()),
{
    let ghost start = content@;
    let ghost all = attributes.deep_view();
    let mut i: usize = 0;
    assert(all.take(0) =~= Seq::empty());
    assert(start + Seq::empty() =~= start);
    while i < attributes.len()
        invariant
            i <= attributes.len(),
            all == attributes.deep_view(),
            content@ == start + attribute_lines(all.take(i as int)),
        decreases attributes.len() - i,
    {
        proof {
            lemma_prefix_step(all, i as int);
        }
        match &attributes[i] {
            Attribute::Single(name) => {
                content.append("- **");
                content.append(name.as_str());
                content.append("**\n");
            },
            Attribute::Pair { key, value } => {
                content.append("- **");
                content.append(key.as_str());
                content.append("** = _");
                content.append(value.as_str());
                content.append("_\n");
            },
        }
        i += 1;
        assert(content@ =~= start + attribute_lines(all.take(i as int)));
    }
    assert(all.take(i as int) =~= all);
}

/// Appends what a page says of a specifier block.
pub fn bake_specifiers(specifiers: &Specifiers, content: &mut String)
    ensures
        final(content)@ == old(content)@ + specifiers_text(specifiers@),
{
    let ghost start = content@;
    content.append("**_Reflection-enabled_**\n");
    let ghost s1 = content@;
    if specifiers.attributes.len() > 0 {
        content.append("\n### Specifiers:\n");
        bake_attributes(&specifiers.attributes, content);
    }
    assert(content@ =~= s1 + attribute_section("\n### Specifiers:\n"@, specifiers@.attributes));
    let ghost s2 = content@;
    if specifiers.meta.len() > 0 {
        content.append("\n### Meta Specifiers:\n");
        bake_attributes(&specifiers.meta, content);
    }
    assert(content@ =~= s2 + attribute_section("\n### Meta Specifiers:\n"@, specifiers@.meta));
    content.append("\n");
    assert(content@ =~= start + specifiers_text(specifiers@));
}

/// What a page says of an entity behind its declaration: its specifier
/// block, where it has one, and its doc comments.
pub open spec fn description(
    specifiers: Option<SpecifiersView>,
    doc_comments: Option<Seq<char>>,
) -> Seq<char> {
    (match specifiers {
        Some(block) => "---\n\n"@ + specifiers_text(block),
        None => Seq::empty(),
    }) + "---\n\n"@ + text_or_empty(doc_comments) + "\n\n"@
}

/// Appends the specifier block and the doc comments of an entity.
fn bake_description(
    specifiers: &Option<Specifiers>,
    doc_comments: &Option<String>,
    content: &mut String,
)
    ensures
        final(content)@ == old(content)@ + description(
            specifiers.deep_view(),
            doc_comments.deep_view(),
        ),
{
    let ghost start = content@;
    if let Some(block) = specifiers {
        content.append("---\n\n");
        bake_specifiers(block, content);
    }
    content.append("---\n\n");
    if let Some(text) = doc_comments {
        content.append(text.as_str());
    }
    content.append("\n\n");
    assert(content@ =~= start + description(specifiers.deep_view(), doc_comments.deep_view()));
}

/// Appends a block of C++ code.
fn bake_code(code: &str, content: &mut String)
    ensures
        final(content)@ == old(content)@ + code_block(code@),
{
    let ghost start = content@;
    content.append("```cpp\n");
    content.append(code);
    content.append("\n```\n\n");
    assert(content@ =~= start + code_block(code@));
}

/// The page of an enum.
pub open spec fn enum_text(item: EnumView) -> Seq<char> {
    "# **Enum: `"@ + item.name + "`**\n\n"@ + code_block(item.signature()) + description(
        item.specifiers,
        item.doc_comments,
    )
}

/// Appends the page of an enum.
pub fn bake_enum(item: &Enum, content: &mut String)
    ensures
        final(content)@ == old(content)@ + enum_text(item@),
{
    let ghost start = content@;
    content.append("# **Enum: `");
    content.append(item.name.as_str());
    content.append("`**\n\n");
    bake_code(item.signature().as_str(), content);
    bake_description(&item.specifiers, &item.doc_comments, content);
    assert(content@ =~= start + enum_text(item@));
}

/// What a page says of an argument: an item of a list, with the
/// declaration and the doc comments moved four spaces to the right.
pub open spec fn argument_text(item: ArgumentView) -> Seq<char> {
    (match item.name {
        Some(name) => "* ## __`"@ + name + "`__\n\n"@,
        None => "* _Unnamed_\n\n"@,
    }) + indented(4, code_block(item.signature()) + text_or_empty(item.doc_comments) + "\n\n"@)
        + "\n\n"@
}

/// Appends what a page says of an argument.
pub fn bake_function_argument(item: &Argument, content: &mut String)
    ensures
        final(content)@ == old(content)@ + argument_text(item@),
{
    let ghost start = content@;
    if let Some(name) = &item.name {
        content.append("* ## __`");
        content.append(name.as_str());
        content.append("`__\n\n");
    } else {
        content.append("* _Unnamed_\n\n");
    }
    let mut inner = String::new();
    bake_code(item.signature().as_str(), &mut inner);
    if let Some(text) = &item.doc_comments {
        inner.append(text.as_str());
    }
    inner.append("\n\n");
    assert(inner@ =~= code_block(item@.signature()) + text_or_empty(item@.doc_comments) + "\n\n"@);
    let moved = indent(4, inner.as_str());
    content.append(moved.as_str());
    content.append("\n\n");
    assert(content@ =~= start + argument_text(item@));
}

/// What a page says of the arguments, one after the other.
pub open spec fn argument_texts(arguments: Seq<ArgumentView>) -> Seq<char>
    decreases arguments.len(),
{
    if arguments.len() == 0 {
        Seq::empty()
    } else {
        argument_texts(arguments.drop_last()) + argument_text(arguments.last())
    }
}

/// The heading of a property or function: that of a member is an item of a
/// list, that of a page of its own names the kind.
pub open spec fn heading(member: bool, kind: Seq<char>, name: Seq<char>) -> Seq<char> {
    if member {
        "* # __`"@ + name + "`__\n\n"@
    } else {
        "# **"@ + kind + ": `"@ + name + "`**\n\n"@
    }
}

/// How far the text of a member stands to the right of its heading.
pub open spec fn member_level(member: bool) -> nat {
    if member {
        4
    } else {
        0
    }
}

/// Appends the heading of a property or function.
fn bake_heading(member: bool, kind: &str, name: &str, content: &mut String)
    ensures
        final(content)@ == old(content)@ + heading(member, kind@, name@),
{
    let ghost start = content@;
    if member {
        content.append("* # __`");
        content.append(name);
        content.append("`__\n\n");
    } else {
        content.append("# **");
        content.append(kind);
        content.append(": `");
        content.append(name);
        content.append("`**\n\n");
    }
    assert(content@ =~= start + heading(member, kind@, name@));
}

/// What a page says of a property, as a member of a type or on a page of
/// its own.
pub open spec fn property_text(item: PropertyView, member: bool) -> Seq<char> {
    heading(member, "Property"@, item.name) + indented(
        member_level(member),
        code_block(item.signature()) + description(item.specifiers, item.doc_comments),
    ) + "\n\n"@
}

/// Appends what a page says of a property.
pub fn bake_property(item: &Property, content: &mut String, member: bool)
    ensures
        final(content)@ == old(content)@ + property_text(item@, member),
{
    let ghost start = content@;
    bake_heading(member, "Property", item.name.as_str(), content);
    let level: usize = if member {
        4
    } else {
        0
    };
    let mut inner = String::new();
    bake_code(item.signature().as_str(), &mut inner);
    bake_description(&item.specifiers, &item.doc_comments, &mut inner);
    assert(inner@ =~= code_block(item@.signature()) + description(
        item@.specifiers,
        item@.doc_comments,
    ));
    let moved = indent(level, inner.as_str());
    content.append(moved.as_str());
    content.append("\n\n");
    assert(content@ =~= start + property_text(item@, member));
}

/// What a page says of the arguments of a function: nothing where it has
/// none.
pub open spec fn arguments_section(arguments: Seq<ArgumentView>) -> Seq<char> {
    if arguments.len() > 0 {
        "---\n\n# **Arguments**\n\n"@ + argument_texts(arguments) + "\n\n"@
    } else {
        Seq::empty()
    }
}

/// Appends what a page says of the arguments of a function.
fn bake_arguments(arguments: &Vec<Argument>, content: &mut String)
    ensures
        final(content)@ == old(content)@ + arguments_section(arguments.deep_view()),
{
    let ghost start = content@;
    if arguments.len() > 0 {
        content.append("---\n\n# **Arguments**\n\n");
        let ghost head = content@;
        let ghost all = arguments.deep_view();
        let mut i: usize = 0;
        assert(all.take(0) =~= Seq::empty());
        assert(head + Seq::empty() =~= head);
        while i < arguments.len()
            invariant
                i <= arguments.len(),
                all == arguments.deep_view(),
                content@ == head + argument_texts(all.take(i as int)),
            decreases arguments.len() - i,
        {
            proof {
                lemma_prefix_step(all, i as int);
            }
            let ghost before = content@;
            bake_function_argument(&arguments[i], content);
            i += 1;
            assert(content@ == before + argument_text(all[i - 1]));
            assert(content@ =~= head + argument_texts(all.take(i as int)));
        }
        assert(all.take(i as int) =~= all);
        content.append("\n\n");
        assert(content@ =~= start + arguments_section(all));
    } else {
        assert(content@ =~= start + arguments_section(arguments.deep_view()));
    }
}

/// The mark that opens or closes the part of a member that can be folded
/// away; nothing on a page of its own.
pub open spec fn fold_mark(member: bool, mark: Seq<char>) -> Seq<char> {
    if member {
        mark
    } else {
        Seq::empty()
    }
}

/// The text of a function under its heading, before it is moved to the
/// right.
pub open spec fn function_body_text(item: FunctionView, member: bool) -> Seq<char> {
    code_block(item.signature()) + fold_mark(member, "<details>\n\n"@) + description(
        item.specifiers,
        item.doc_comments,
    ) + arguments_section(item.arguments) + fold_mark(member, "</details>\n\n"@)
}

/// What a page says of a function, as a member of a type or on a page of
/// its own.
pub open spec fn function_text(item: FunctionView, member: bool) -> Seq<char> {
    heading(member, "Function"@, item.name) + indented(
        member_level(member),
        function_body_text(item, member),
    ) + "\n\n"@
}

/// The text of a function under its heading.
fn function_body(item: &Function, member: bool) -> (r: String)
    ensures
        r@ == function_body_text(item@, member),
{
    let mut inner = String::new();
    bake_code(item.signature().as_str(), &mut inner);
    let ghost s0 = inner@;
    if member {
        inner.append("<details>\n\n");
    }
    assert(inner@ =~= s0 + fold_mark(member, "<details>\n\n"@));
    bake_description(&item.specifiers, &item.doc_comments, &mut inner);
    bake_arguments(&item.arguments, &mut inner);
    let ghost s1 = inner@;
    if member {
        inner.append("</details>\n\n");
    }
    assert(inner@ =~= s1 + fold_mark(member, "</details>\n\n"@));
    assert(s0 =~= code_block(item@.signature()));
    inner
}

/// Appends what a page says of a function.
pub fn bake_function(item: &Function, content: &mut String, member: bool)
    ensures
        final(content)@ == old(content)@ + function_text(item@, member),
{
    let ghost start = content@;
    bake_heading(member, "Function", item.name.as_str(), content);
    let level: usize = if member {
        4
    } else {
        0
    };
    let inner = function_body(item, member);
    let moved = indent(level, inner.as_str());
    content.append(moved.as_str());
    content.append("\n\n");
    assert(content@ =~= start + function_text(item@, member));
}

/// What a page says of the properties of a type, one after the other.
pub open spec fn property_texts(properties: Seq<PropertyView>) -> Seq<char>
    decreases properties.len(),
{
    if properties.len() == 0 {
        Seq::empty()
    } else {
        property_texts(properties.drop_last()) + property_text(properties.last(), true)
    }
}

/// What a page says of the methods of a type, one after the other.
pub open spec fn method_texts(methods: Seq<FunctionView>) -> Seq<char>
    decreases methods.len(),
{
    if methods.len() == 0 {
        Seq::empty()
    } else {
        method_texts(methods.drop_last()) + function_text(methods.last(), true)
    }
}

/// What the page of a type says of its properties: nothing where it has
/// none.
pub open spec fn properties_section(properties: Seq<PropertyView>) -> Seq<char> {
    if properties.len() > 0 {
        "---\n\n# **Properties**\n\n"@ + property_texts(properties) + "\n\n"@
    } else {
        Seq::empty()
    }
}

/// What the page of a type says of its methods: nothing where it has none.
pub open spec fn methods_section(methods: Seq<FunctionView>) -> Seq<char> {
    if methods.len() > 0 {
        "---\n\n# **Methods**\n\n"@ + method_texts(methods) + "\n\n"@
    } else {
        Seq::empty()
    }
}

/// Appends what the page of a type says of its properties.
fn bake_properties(properties: &Vec<Property>, content: &mut String)
    ensures
        final(content)@ == old(content)@ + properties_section(properties.deep_view()),
{
    let ghost start = content@;
    if properties.len() > 0 {
        content.append("---\n\n# **Properties**\n\n");
        let ghost head = content@;
        let ghost all = properties.deep_view();
        let mut i: usize = 0;
        assert(all.take(0) =~= Seq::empty());
        assert(head + Seq::empty() =~= head);
        while i < properties.len()
            invariant
                i <= properties.len(),
                all == properties.deep_view(),
                content@ == head + property_texts(all.take(i as int)),
            decreases properties.len() - i,
        {
            proof {
                lemma_prefix_step(all, i as int);
            }
            let ghost before = content@;
            bake_property(&properties[i], content, true);
            i += 1;
            assert(content@ == before + property_text(all[i - 1], true));
            assert(content@ =~= head + property_texts(all.take(i as int)));
        }
        assert(all.take(i as int) =~= all);
        content.append("\n\n");
        assert(content@ =~= start + properties_section(all));
    } else {
        assert(content@ =~= start + properties_section(properties.deep_view()));
    }
}

/// Appends what the page of a type says of its methods.
fn bake_methods(methods: &Vec<Function>, content: &mut String)
    ensures
        final(content)@ == old(content)@ + methods_section(methods.deep_view()),
{
    let ghost start = content@;
    if methods.len() > 0 {
        content.append("---\n\n# **Methods**\n\n");
        let ghost head = content@;
        let ghost all = methods.deep_view();
        let mut i: usize = 0;
        assert(all.take(0) =~= Seq::empty());
        assert(head + Seq::empty() =~= head);
        while i < methods.len()
            invariant
                i <= methods.len(),
                all == methods.deep_view(),
                content@ == head + method_texts(all.take(i as int)),
            decreases methods.len() - i,
        {
            proof {
                lemma_prefix_step(all, i as int);
            }
            let ghost before = content@;
            bake_function(&methods[i], content, true);
            i += 1;
            assert(content@ == before + function_text(all[i - 1], true));
            assert(content@ =~= head + method_texts(all.take(i as int)));
        }
        assert(all.take(i as int) =~= all);
        content.append("\n\n");
        assert(content@ =~= start + methods_section(all));
    } else {
        assert(content@ =~= start + methods_section(methods.deep_view()));
    }
}

/// The title of the page of a struct or class.
pub open spec fn struct_class_title(item: StructClassView) -> Seq<char> {
    (match item.mode {
        StructClassMode::Struct => "# **Struct: `"@,
        StructClassMode::Class => "# **Class: `"@,
    }) + item.name + "`**\n\n"@
}

/// The page of a struct or class.
pub open spec fn struct_class_text(item: StructClassView) -> Seq<char> {
    struct_class_title(item) + code_block(item.signature()) + description(
        item.specifiers,
        item.doc_comments,
    ) + properties_section(item.properties) + methods_section(item.methods)
}

/// Appends the title of the page of a struct or class.
fn bake_struct_class_title(item: &StructClass, content: &mut String)
    ensures
        final(content)@ == old(content)@ + struct_class_title(item@),
{
    let ghost start = content@;
    match item.mode {
        StructClassMode::Struct => content.append("# **Struct: `"),
        StructClassMode::Class => content.append("# **Class: `"),
    }
    content.append(item.name.as_str());
    content.append("`**\n\n");
    assert(content@ =~= start + struct_class_title(item@));
}

/// Appends the page of a struct or class.
pub fn bake_struct_class(item: &StructClass, content: &mut String)
    ensures
        final(content)@ == old(content)@ + struct_class_text(item@),
{
    let ghost start = content@;
    bake_struct_class_title(item, content);
    bake_code(item.signature().as_str(), content);
    bake_description(&item.specifiers, &item.doc_comments, content);
    bake_properties(&item.properties, content);
    bake_methods(&item.methods, content);
    assert(content@ =~= start + struct_class_text(item@));
}

} // verus!
