use unreal_doc::backends::book::include_book_index;
use unreal_doc::backends::manifest::{book_manifest, manifest, BookFold};
use unreal_doc::backends::mdbook::{
    bake_enum, bake_function, bake_function_argument, bake_property, bake_specifiers,
    bake_struct_class, indent,
};
use unreal_doc::backends::pages::{book_pages, finish_page};
use unreal_doc::backends::references::{
    block_of_snippet, fill_in_snippets, link_code_references, link_of_reference,
    preprocess_content, replace_code_references, replace_snippets, splice,
};
use unreal_doc::collections::StringMap;
use unreal_doc::config::{Backend, BackendMdBook, Config, Settings};
use unreal_doc::document::{
    Argument, Attribute, Document, Enum, Function, Property, Specifiers, StructClass,
    StructClassMode,
};
use unreal_doc::files::{classify_file, relative_page_path, strip_mark, FileKind};

const CLOSING: &str = "_Documentation built with [**`Unreal-Doc`**](https://github.com/PsichiX/unreal-doc) tool by [**`PsichiX`**](https://github.com/PsichiX)_";

fn text(s: &str) -> String {
    s.to_owned()
}

fn status_enum() -> Enum {
    let mut item = Enum::default();
    item.name = text("EStatus");
    item.variants = vec![text("Idle"), text("Busy")];
    item.doc_comments = Some(text("Status."));
    item
}

fn specifiers() -> Specifiers {
    Specifiers {
        attributes: vec![
            Attribute::Single(text("BlueprintType")),
            Attribute::Pair { key: text("Category"), value: text("Game") },
        ],
        meta: vec![Attribute::Single(text("Hidden"))],
    }
}

fn count_argument() -> Argument {
    let mut item = Argument::default();
    item.value_type = text("int32");
    item.name = Some(text("Count"));
    item.doc_comments = Some(text("How many."));
    item
}

fn sample_document() -> Document {
    let mut document = Document::default();
    document.enums.push(status_enum());
    let mut class = StructClass::default();
    class.mode = StructClassMode::Class;
    class.name = text("AFoo");
    document.classes.push(class);
    let mut free = Function::default();
    free.name = text("Free");
    document.functions.push(free);
    document.snippets.insert(text("demo"), text("a();\n  b();"));
    document
}

fn groups(items: &[Option<&str>]) -> Vec<Option<String>> {
    items.iter().map(|item| item.map(text)).collect()
}

fn map_of(entries: &[(&str, &str)]) -> StringMap {
    let mut map = StringMap::new();
    for (key, value) in entries {
        map.insert(text(key), text(value));
    }
    map
}

#[test]
fn indent_moves_every_line() {
    assert_eq!(indent(4, "a\n\nb\n"), "    a\n    \n    b");
    assert_eq!(indent(2, "x"), "  x");
    assert_eq!(indent(3, ""), "");
    assert_eq!(indent(0, "a\n\nb\n"), "a\n\nb\n");
    assert_eq!(indent(1, "a\r\nb"), " a\n b");
}

#[test]
fn specifiers_page_text() {
    let mut content = text(">");
    bake_specifiers(&specifiers(), &mut content);
    assert_eq!(
        content,
        ">**_Reflection-enabled_**\n\n### Specifiers:\n- **BlueprintType**\n- **Category** = _Game_\n\n### Meta Specifiers:\n- **Hidden**\n\n"
    );
    let mut content = String::new();
    bake_specifiers(&Specifiers::default(), &mut content);
    assert_eq!(content, "**_Reflection-enabled_**\n\n");
    let mut content = String::new();
    let only_meta = Specifiers { attributes: vec![], meta: vec![Attribute::Single(text("M"))] };
    bake_specifiers(&only_meta, &mut content);
    assert_eq!(content, "**_Reflection-enabled_**\n\n### Meta Specifiers:\n- **M**\n\n");
}

#[test]
fn enum_page_text() {
    let mut content = String::new();
    bake_enum(&status_enum(), &mut content);
    assert_eq!(
        content,
        "# **Enum: `EStatus`**\n\n```cpp\nenum class EStatus : uint8 {\n    Idle,\n    Busy\n};\n```\n\n---\n\nStatus.\n\n"
    );
    let mut item = status_enum();
    item.specifiers = Some(specifiers());
    item.doc_comments = None;
    let mut content = String::new();
    bake_enum(&item, &mut content);
    assert_eq!(
        content,
        "# **Enum: `EStatus`**\n\n```cpp\nenum class EStatus : uint8 {\n    Idle,\n    Busy\n};\n```\n\n---\n\n**_Reflection-enabled_**\n\n### Specifiers:\n- **BlueprintType**\n- **Category** = _Game_\n\n### Meta Specifiers:\n- **Hidden**\n\n---\n\n\n\n"
    );
}

#[test]
fn argument_page_text() {
    let mut content = String::new();
    bake_function_argument(&count_argument(), &mut content);
    assert_eq!(
        content,
        "* ## __`Count`__\n\n    ```cpp\n    int32 Count\n    ```\n    \n    How many.\n    \n\n"
    );
    let mut unnamed = Argument::default();
    unnamed.value_type = text("bool");
    let mut content = String::new();
    bake_function_argument(&unnamed, &mut content);
    assert_eq!(content, "* _Unnamed_\n\n    ```cpp\n    bool\n    ```\n    \n    \n    \n\n");
}

#[test]
fn property_page_text() {
    let mut item = Property::default();
    item.name = text("Id");
    item.value_type = text("FGuid");
    item.doc_comments = Some(text("The id."));
    let mut content = String::new();
    bake_property(&item, &mut content, false);
    assert_eq!(
        content,
        "# **Property: `Id`**\n\n```cpp\npublic:\nFGuid Id;\n```\n\n---\n\nThe id.\n\n\n\n"
    );
    let mut content = String::new();
    bake_property(&item, &mut content, true);
    assert_eq!(
        content,
        "* # __`Id`__\n\n    ```cpp\n    public:\n    FGuid Id;\n    ```\n    \n    ---\n    \n    The id.\n    \n\n"
    );
}

#[test]
fn function_page_text() {
    let mut item = Function::default();
    item.name = text("Run");
    item.return_type = Some(text("void"));
    item.doc_comments = Some(text("Runs."));
    let mut content = String::new();
    bake_function(&item, &mut content, false);
    assert_eq!(
        content,
        "# **Function: `Run`**\n\n```cpp\npublic:\nvoid Run();\n```\n\n---\n\nRuns.\n\n\n\n"
    );
    item.arguments.push(count_argument());
    let mut content = String::new();
    bake_function(&item, &mut content, false);
    assert_eq!(
        content,
        "# **Function: `Run`**\n\n```cpp\npublic:\nvoid Run(\n    int32 Count\n);\n```\n\n---\n\nRuns.\n\n---\n\n# **Arguments**\n\n* ## __`Count`__\n\n    ```cpp\n    int32 Count\n    ```\n    \n    How many.\n    \n\n\n\n\n\n"
    );
    let mut content = String::new();
    bake_function(&item, &mut content, true);
    let inner = "```cpp\npublic:\nvoid Run(\n    int32 Count\n);\n```\n\n<details>\n\n---\n\nRuns.\n\n---\n\n# **Arguments**\n\n* ## __`Count`__\n\n    ```cpp\n    int32 Count\n    ```\n    \n    How many.\n    \n\n\n\n</details>\n\n";
    let moved: Vec<String> = inner.lines().map(|line| format!("    {}", line)).collect();
    assert_eq!(content, format!("* # __`Run`__\n\n{}\n\n", moved.join("\n")));
}

#[test]
fn struct_class_page_text() {
    let mut item = StructClass::default();
    item.name = text("FData");
    item.doc_comments = Some(text("Data."));
    let mut content = String::new();
    bake_struct_class(&item, &mut content);
    assert_eq!(content, "# **Struct: `FData`**\n\n```cpp\nstruct FData;\n```\n\n---\n\nData.\n\n");

    let mut id = Property::default();
    id.name = text("Id");
    id.value_type = text("FGuid");
    let mut run = Function::default();
    run.name = text("Run");
    item.mode = StructClassMode::Class;
    item.properties.push(id);
    item.methods.push(run);
    let mut content = String::new();
    bake_struct_class(&item, &mut content);
    let mut expected = text("# **Class: `FData`**\n\n```cpp\nclass FData;\n```\n\n---\n\nData.\n\n");
    expected.push_str("---\n\n# **Properties**\n\n");
    bake_property(&item.properties[0], &mut expected, true);
    expected.push_str("\n\n");
    expected.push_str("---\n\n# **Methods**\n\n");
    bake_function(&item.methods[0], &mut expected, true);
    expected.push_str("\n\n");
    assert_eq!(content, expected);
}

#[test]
fn splice_puts_inserts_between_pieces() {
    let pieces = vec![text("a"), text("b"), text("c")];
    assert_eq!(splice(&pieces, &vec![text("1"), text("2")]), "a1b2c");
    assert_eq!(splice(&pieces, &vec![text("1")]), "a1bc");
    assert_eq!(splice(&pieces, &vec![text("1"), text("2"), text("3")]), "a1b2c");
    assert_eq!(splice(&vec![text("only")], &vec![text("1")]), "only");
    assert_eq!(splice(&Vec::new(), &vec![text("1")]), "");
    assert_eq!(splice(&vec![text(""), text("")], &vec![text("x")]), "x");
}

#[test]
fn reference_becomes_a_link() {
    let document = sample_document();
    let link = |items: &[Option<&str>]| link_of_reference(&groups(items), &document);
    assert_eq!(
        link(&[Some("[`class: AFoo`]()"), Some("class"), Some("AFoo"), None, None]),
        "[**`AFoo`**](/reference/classes/AFoo.md)"
    );
    assert_eq!(
        link(&[Some("m"), Some("enum"), Some("EStatus"), Some(":: Busy"), Some("Busy")]),
        "[**`EStatus::Busy`**](/reference/enums/EStatus.md#busy)"
    );
    assert_eq!(
        link(&[Some("m"), Some("function"), Some("Free"), Some("::ArgÉ"), Some("ArgÉ")]),
        "[**`Free::ArgÉ`**](/reference/functions/Free.md#argé)"
    );
    assert_eq!(link(&[Some("m"), Some("struct"), Some("AFoo"), None, None]), "**`AFoo`**");
    assert_eq!(
        link(&[Some("m"), Some("struct"), Some("FNone"), Some("::X"), Some("X")]),
        "**`FNone::X`**"
    );
    assert_eq!(link(&[Some("m"), Some("macro"), Some("AFoo"), None, None]), "**`AFoo`**");
    assert_eq!(link(&[Some("m"), Some(" class "), Some(" AFoo ")]), "[**`AFoo`**](/reference/classes/AFoo.md)");
    assert_eq!(link(&[]), "**``**");
}

#[test]
fn references_are_linked_in_a_text() {
    let document = sample_document();
    let linked = link_code_references(
        &vec![text("See "), text(" and "), text(".")],
        &vec![
            groups(&[Some("x"), Some("class"), Some("AFoo"), None, None]),
            groups(&[Some("y"), Some("enum"), Some("ENone"), None, None]),
        ],
        &document,
    );
    assert_eq!(linked, "See [**`AFoo`**](/reference/classes/AFoo.md) and **`ENone`**.");
}

#[test]
fn references_are_found_by_the_pattern() {
    let document = sample_document();
    assert_eq!(
        replace_code_references(
            "See [`class: AFoo`]() and [`enum : EStatus :: Busy`]() or [`struct: FMissing`]() and [`function:Free::Args`]( ).",
            &document
        ),
        "See [**`AFoo`**](/reference/classes/AFoo.md) and [**`EStatus::Busy`**](/reference/enums/EStatus.md#busy) or **`FMissing`** and [**`Free::Args`**](/reference/functions/Free.md#args)."
    );
    assert_eq!(replace_code_references("[`enum: ENope::X`]()", &document), "**`ENope::X`**");
    assert_eq!(
        replace_code_references("[`class: AFoo`](target) and [class: AFoo]()", &document),
        "[`class: AFoo`](target) and [class: AFoo]()"
    );
    assert_eq!(replace_code_references("", &document), "");
    assert_eq!(
        replace_code_references("[`class: AFoo`]()[`class: AFoo`]()", &document),
        "[**`AFoo`**](/reference/classes/AFoo.md)[**`AFoo`**](/reference/classes/AFoo.md)"
    );
}

#[test]
fn snippet_block_holds_the_code() {
    let document = sample_document();
    assert_eq!(
        block_of_snippet(&groups(&[Some("m"), Some(""), Some("demo")]), &document),
        "```cpp\na();\n  b();\n```"
    );
    assert_eq!(
        block_of_snippet(&groups(&[Some("m"), Some("   // "), Some("demo")]), &document),
        "```cpp\n   // a();\n   //   b();\n   // ```"
    );
    assert_eq!(
        block_of_snippet(&groups(&[Some("m"), Some("> "), Some("nope")]), &document),
        "```\n> Missing snippet: nope\n> ```"
    );
    assert_eq!(
        fill_in_snippets(
            &vec![text("A\n"), text("\nB")],
            &vec![groups(&[Some("m"), Some(""), Some("demo")])],
            &document
        ),
        "A\n```cpp\na();\n  b();\n```\nB"
    );
}

#[test]
fn snippets_are_found_by_the_pattern() {
    let document = sample_document();
    assert_eq!(
        replace_snippets("Intro\n```snippet\ndemo\n```\nEnd", &document),
        "Intro\n```cpp\na();\n  b();\n```\nEnd"
    );
    assert_eq!(
        replace_snippets("```  snippet\r\n    // demo\r\n  ```", &document),
        "```cpp\n    // a();\n    //   b();\n    // ```"
    );
    assert_eq!(
        replace_snippets("```snippet\nnope\n```", &document),
        "```\nMissing snippet: nope\n```"
    );
    assert_eq!(replace_snippets("```cpp\ndemo\n```", &document), "```cpp\ndemo\n```");
}

#[test]
fn content_is_preprocessed_in_two_steps() {
    let mut document = sample_document();
    document.snippets.insert(text("ref"), text("[`class: AFoo`]()"));
    assert_eq!(
        preprocess_content("[`class: AFoo`]()\n```snippet\nref\n```\n", &document),
        "[**`AFoo`**](/reference/classes/AFoo.md)\n```cpp\n[`class: AFoo`]()\n```\n"
    );
    assert_eq!(preprocess_content("plain text", &document), "plain text");
}

#[test]
fn book_index_lists_pages_and_directories() {
    let input = map_of(&[
        ("index.txt", "# comment\nintro.md: Introduction\n\nguide\nmissing.md\n  plain.md  \n"),
        ("index.md", "Welcome"),
        ("intro.md", "# Intro title\nBody"),
        ("plain.md", "##  Plain Title  \ntext"),
        ("guide/index.txt", "setup.md\ndeep : Deep Dive"),
        ("guide/setup.md", "Setup"),
        ("guide/deep/index.txt", "x.md:X"),
        ("guide/deep/x.md", "x body"),
        ("unlisted.md", "never shown"),
    ]);
    let mut output = StringMap::new();
    let mut index = text("start\n");
    include_book_index(None, &input, &mut output, &mut index, 1);
    assert_eq!(
        index,
        "start\n  - [Introduction](book/intro.md)\n  - [guide](book/guide/index.md)\n    - [Setup](book/guide/setup.md)\n    - [Deep Dive](book/guide/deep/index.md)\n      - [X](book/guide/deep/x.md)\n    - [Plain Title](book/plain.md)\n"
    );
    let expected: Vec<(String, String)> = [
        ("src/book/intro.md", "# Intro title\nBody"),
        ("src/book/guide/setup.md", "Setup"),
        ("src/book/guide/deep/x.md", "x body"),
        ("src/book/guide/deep/index.md", "# Pages\n\n- [X](x.md)\n"),
        ("src/book/guide/index.md", "# Pages\n\n- [Setup](setup.md)\n"),
        ("src/book/plain.md", "##  Plain Title  \ntext"),
        (
            "src/book/index.md",
            "Welcome\n\n# Pages\n\n- [Introduction](intro.md)\n- [Plain Title](plain.md)\n",
        ),
    ]
    .iter()
    .map(|(key, value)| (text(key), text(value)))
    .collect();
    assert_eq!(output.entries(), &expected);
}

#[test]
fn book_index_of_a_directory() {
    let input = map_of(&[
        ("guide/index.txt", "a.md\nempty.md\nsub"),
        ("guide/a.md", "\n# Late title"),
        ("guide/empty.md", ""),
    ]);
    let mut output = StringMap::new();
    let mut index = String::new();
    include_book_index(Some("guide"), &input, &mut output, &mut index, 0);
    assert_eq!(
        index,
        "- [](book/guide/a.md)\n- [empty.md](book/guide/empty.md)\n- [sub](book/guide/sub/index.md)\n"
    );
    assert_eq!(
        output.get("src/book/guide/index.md"),
        Some(&text("# Pages\n\n- [](a.md)\n- [empty.md](empty.md)\n"))
    );
    assert_eq!(output.get("src/book/guide/sub/index.md"), None);

    let mut output = StringMap::new();
    let mut index = String::new();
    include_book_index(Some("nowhere"), &input, &mut output, &mut index, 3);
    assert_eq!(index, "");
    assert!(output.entries().is_empty());
    include_book_index(None, &StringMap::new(), &mut output, &mut index, 1);
    assert_eq!(index, "");
    assert!(output.entries().is_empty());
}

#[test]
fn book_pages_of_a_document() {
    let mut document = sample_document();
    document.functions.clear();
    let pages = book_pages(&document);
    assert_eq!(
        pages.index,
        "# Index\n\n[Documentation](documentation.md)\n\n- [C++ API Reference](reference.md)\n  - [Enums](reference/enums.md)\n    - [EStatus](reference/enums/EStatus.md)\n  - [Classes](reference/classes.md)\n    - [AFoo](reference/classes/AFoo.md)\n"
    );
    let keys: Vec<&str> = pages.files.entries().iter().map(|entry| entry.0.as_str()).collect();
    assert_eq!(
        keys,
        vec![
            "src/reference/enums/EStatus.md",
            "src/reference/enums.md",
            "src/reference/classes/AFoo.md",
            "src/reference/classes.md",
            "src/reference.md",
            "src/documentation.md",
        ]
    );
    assert_eq!(
        pages.files.get("src/reference.md"),
        Some(&text(
            "# C++ API Reference\n\n## Enums\n- [`EStatus`](reference/enums/EStatus.md)\n\n## Classes\n- [`AFoo`](reference/classes/AFoo.md)\n"
        ))
    );
    assert_eq!(
        pages.files.get("src/reference/enums.md"),
        Some(&text("# Enums\n\n- [`EStatus`](reference/enums/EStatus.md)\n"))
    );
    assert_eq!(
        pages.files.get("src/documentation.md"),
        Some(&text("# Contents\n- [C++ API Reference](/reference.md)\n"))
    );
    let mut page = String::new();
    bake_enum(&document.enums[0], &mut page);
    assert_eq!(pages.files.get("src/reference/enums/EStatus.md"), Some(&page));
    let mut page = String::new();
    bake_struct_class(&document.classes[0], &mut page);
    assert_eq!(pages.files.get("src/reference/classes/AFoo.md"), Some(&page));
}

#[test]
fn book_pages_with_a_written_book() {
    let mut document = Document::default();
    document.book.insert(text("documentation.md"), text("About."));
    document.book.insert(text("index.txt"), text("intro.md"));
    document.book.insert(text("intro.md"), text("# Intro"));
    let mut free = Function::default();
    free.name = text("Free");
    document.functions.push(free);
    let mut data = StructClass::default();
    data.name = text("FData");
    document.structs.push(data);
    let pages = book_pages(&document);
    assert_eq!(
        pages.index,
        "# Index\n\n[Documentation](documentation.md)\n\n- [Book](book/index.md)\n  - [Intro](book/intro.md)\n\n- [C++ API Reference](reference.md)\n  - [Structs](reference/structs.md)\n    - [FData](reference/structs/FData.md)\n  - [Functions](reference/functions.md)\n    - [Free](reference/functions/Free.md)\n"
    );
    assert_eq!(
        pages.files.get("src/documentation.md"),
        Some(&text("About.\n\n# Contents\n- [Book](/book/index.md)\n- [C++ API Reference](/reference.md)\n"))
    );
    assert_eq!(pages.files.get("src/book/intro.md"), Some(&text("# Intro")));
    assert_eq!(pages.files.get("src/book/index.md"), Some(&text("# Pages\n\n- [Intro](intro.md)\n")));
    let mut page = String::new();
    bake_function(&document.functions[0], &mut page, false);
    assert_eq!(pages.files.get("src/reference/functions/Free.md"), Some(&page));
    assert_eq!(
        pages.files.get("src/reference/functions.md"),
        Some(&text("# Functions\n\n- [`Free`](reference/functions/Free.md)\n"))
    );
}

#[test]
fn later_page_of_a_name_replaces_the_earlier() {
    let mut document = Document::default();
    let mut first = status_enum();
    first.doc_comments = Some(text("First."));
    document.enums.push(first);
    document.enums.push(status_enum());
    let pages = book_pages(&document);
    let mut page = String::new();
    bake_enum(&document.enums[1], &mut page);
    assert_eq!(pages.files.get("src/reference/enums/EStatus.md"), Some(&page));
    assert_eq!(
        pages.files.get("src/reference/enums.md"),
        Some(&text(
            "# Enums\n\n- [`EStatus`](reference/enums/EStatus.md)\n- [`EStatus`](reference/enums/EStatus.md)\n"
        ))
    );
}

#[test]
fn finished_page_has_header_footer_and_closing_line() {
    let document = sample_document();
    assert_eq!(
        finish_page(Some("H"), "See [`class: AFoo`]().", Some("F"), &document),
        format!("H\nSee [**`AFoo`**](/reference/classes/AFoo.md).\nF\n---\n{}", CLOSING)
    );
    assert_eq!(finish_page(None, "c", None, &document), format!("c\n---\n{}", CLOSING));
    assert_eq!(finish_page(Some(""), "", Some(""), &document), format!("\n\n\n---\n{}", CLOSING));
}

#[test]
fn manifest_of_the_standard_book() {
    let book = manifest(&BackendMdBook::default());
    assert_eq!(book.book.title, "Documentation");
    assert_eq!(book.book.language, "en");
    assert_eq!(book.book.src, "src");
    assert!(book.book.authors.is_empty());
    assert!(!book.book.multilingual);
    assert_eq!(book.output.html.theme, "ayu");
    assert_eq!(book.output.html.default_theme, "ayu");
    assert_eq!(book.output.html.preferred_dark_theme, "ayu");
    assert!(book.output.html.mathjax_support);
    assert!(book.output.html.no_section_label);
    assert_eq!(book.output.html.site_url, "/");
    assert_eq!(book.output.html.fold, BookFold { enable: false, level: 0 });
    assert_eq!(book_manifest(&Config::default()), book);
}

#[test]
fn manifest_of_a_configured_book() {
    let mut mdbook = BackendMdBook::default();
    mdbook.title = text("Game API");
    mdbook.authors = vec![text("A"), text("B")];
    mdbook.language = text("pl");
    mdbook.multilingual = true;
    mdbook.site_url = Some(text("/docs/"));
    let mut config = Config::default();
    config.backend_mdbook = Some(mdbook);
    let book = book_manifest(&config);
    assert_eq!(book.book.title, "Game API");
    assert_eq!(book.book.authors, vec!["A", "B"]);
    assert_eq!(book.book.language, "pl");
    assert!(book.book.multilingual);
    assert_eq!(book.output.html.site_url, "/docs/");
}

#[test]
fn configuration_defaults() {
    assert_eq!(Backend::default(), Backend::Json);
    assert_eq!(BackendMdBook::default_title(), "Documentation");
    assert_eq!(BackendMdBook::default_language(), "en");
    let mdbook = BackendMdBook::default();
    assert!(!mdbook.build && !mdbook.cleanup && !mdbook.multilingual);
    assert!(mdbook.header.is_none() && mdbook.footer.is_none() && mdbook.assets.is_none());
    assert!(mdbook.site_url.is_none() && mdbook.authors.is_empty());
    let config = Config::default();
    assert!(config.dependencies.is_empty() && config.input_dirs.is_empty());
    assert_eq!(config.output_dir, "");
    assert_eq!(config.backend, Backend::Json);
    assert_eq!(config.settings, Settings::default());
    assert!(config.backend_mdbook.is_none());
}

#[test]
fn files_are_classified() {
    assert_eq!(classify_file("h", "Actor.h"), FileKind::Header);
    assert_eq!(classify_file("md", "intro.md"), FileKind::Page);
    assert_eq!(classify_file("txt", "index.txt"), FileKind::Page);
    assert_eq!(classify_file("txt", "notes.txt"), FileKind::Other);
    assert_eq!(classify_file("cpp", "Actor.cpp"), FileKind::Other);
    assert_eq!(classify_file("H", "Actor.H"), FileKind::Other);
    assert_eq!(classify_file("h", "index.txt"), FileKind::Header);
}

#[test]
fn byte_order_mark_is_stripped_once() {
    assert_eq!(strip_mark("\u{FEFF}#pragma once"), "#pragma once");
    assert_eq!(strip_mark("#pragma once"), "#pragma once");
    assert_eq!(strip_mark("\u{FEFF}\u{FEFF}x"), "\u{FEFF}x");
    assert_eq!(strip_mark(""), "");
    assert_eq!(strip_mark("\u{FEFF}"), "");
}

#[test]
fn page_key_is_the_path_below_the_root() {
    assert_eq!(relative_page_path("/docs/book/a.md", "/docs"), "book/a.md");
    assert_eq!(relative_page_path("C:\\docs\\book\\a.md", "C:\\docs"), "book/a.md");
    assert_eq!(relative_page_path("/docs//\\book\\a.md", "/docs"), "book/a.md");
    assert_eq!(relative_page_path("abab/x", "ab"), "x");
    assert_eq!(relative_page_path("/other/a.md", "/docs"), "other/a.md");
    assert_eq!(relative_page_path("/docs", "/docs"), "");
    assert_eq!(relative_page_path("a/b", ""), "a/b");
    assert_eq!(relative_page_path("", "/docs"), "");
    let separators: &[char] = &['/', '\\'];
    for (path, root) in [
        ("/docs/book/a.md", "/docs"),
        ("C:\\docs\\book\\a.md", "C:\\docs"),
        ("abab/x", "ab"),
        ("a/b", ""),
        ("/docs/index.txt", "/docs/"),
        ("aaa", "a"),
        ("é/é/x\\y", "é/"),
    ] {
        let expected =
            path.trim_start_matches(root).trim_start_matches(separators).replace("\\", "/");
        assert_eq!(relative_page_path(path, root), expected);
    }
}
