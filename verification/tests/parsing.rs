use unreal_doc::ast::declarations::parse_snippet;
use unreal_doc::ast::tree::{GrammarError, ParseNode, Rule};
use unreal_doc::ast::unreal_cpp_header::{
    parse_unreal_cpp_element, parse_unreal_cpp_header, parse_visibility, proxy_content, Element,
    Overwrite, OverwriteKind,
};
use unreal_doc::config::Settings;
use unreal_doc::document::{
    Argument, Attribute, Document, Enum, Function, Property, PropertyArray, StructClassMode,
    Visibility,
};

fn leaf(rule: Rule, text: &str) -> ParseNode {
    ParseNode::leaf(rule, text)
}

fn node(rule: Rule, children: Vec<ParseNode>) -> ParseNode {
    ParseNode::branch(rule, "", children)
}

fn id(name: &str) -> ParseNode {
    leaf(Rule::Identifier, name)
}

fn docs(text: &str) -> ParseNode {
    leaf(Rule::DocCommentLines, text)
}

fn value_type(text: &str) -> ParseNode {
    leaf(Rule::ValueType, text)
}

fn default_value(text: &str) -> ParseNode {
    node(Rule::DefaultValue, vec![leaf(Rule::Other, text)])
}

/// `docs? enum class Name { variants }`
fn enum_element(doc_comments: Option<&str>, name: &str, variants: &[&str]) -> ParseNode {
    let mut children = Vec::new();
    if let Some(text) = doc_comments {
        children.push(docs(text));
    }
    children.push(node(
        Rule::ElementEnum,
        vec![
            node(Rule::EnumSignature, vec![id(name)]),
            node(Rule::EnumBody, variants.iter().map(|name| id(name)).collect()),
        ],
    ));
    node(Rule::Element, children)
}

/// `docs? void Name(arguments) { body }`
fn function_element(
    doc_comments: Option<&str>,
    name: &str,
    arguments: Vec<ParseNode>,
    body: Vec<ParseNode>,
) -> ParseNode {
    let mut children = Vec::new();
    if let Some(text) = doc_comments {
        children.push(docs(text));
    }
    children.push(node(
        Rule::ElementFunction,
        vec![
            node(
                Rule::FunctionSignature,
                vec![value_type("void "), id(name), node(Rule::FunctionArguments, arguments)],
            ),
            node(Rule::FunctionBody, body),
        ],
    ));
    node(Rule::Element, children)
}

/// `docs? int32 Name;`
fn property_element(doc_comments: Option<&str>, name: &str) -> ParseNode {
    let mut children = Vec::new();
    if let Some(text) = doc_comments {
        children.push(docs(text));
    }
    children.push(node(
        Rule::ElementProperty,
        vec![node(Rule::PropertySignature, vec![value_type("int32 "), id(name)])],
    ));
    node(Rule::Element, children)
}

fn type_element(
    mode: StructClassMode,
    doc_comments: Option<&str>,
    name: &str,
    body: Vec<ParseNode>,
) -> ParseNode {
    let (element, signature) = match mode {
        StructClassMode::Struct => (Rule::ElementStruct, Rule::StructSignature),
        StructClassMode::Class => (Rule::ElementClass, Rule::ClassSignature),
    };
    let mut children = Vec::new();
    if let Some(text) = doc_comments {
        children.push(docs(text));
    }
    children.push(node(
        element,
        vec![node(signature, vec![id(name)]), node(Rule::StructClassBody, body)],
    ));
    node(Rule::Element, children)
}

fn snippet(name: &str, code: &str) -> ParseNode {
    node(Rule::Snippet, vec![id(name), leaf(Rule::SnippetInner, code)])
}

fn file(children: Vec<ParseNode>) -> ParseNode {
    node(Rule::File, children)
}

fn read(tree: &ParseNode, settings: &Settings) -> (Document, Vec<Overwrite>) {
    let mut document = Document::default();
    let log = parse_unreal_cpp_header(tree, &mut document, settings).unwrap();
    (document, log)
}

fn classify(tree: &ParseNode) -> Element {
    let mut document = Document::default();
    parse_unreal_cpp_element(tree, &mut document, &Settings::default()).unwrap().0
}

fn read_enum(tree: ParseNode) -> Enum {
    match classify(&tree) {
        Element::Enum(item) => item,
        other => panic!("not an enum: {:?}", other),
    }
}

fn read_property(tree: ParseNode) -> Property {
    match classify(&tree) {
        Element::Property(item) => item,
        other => panic!("not a property: {:?}", other),
    }
}

fn read_function(tree: ParseNode) -> Function {
    match classify(&tree) {
        Element::Function(item) => item,
        other => panic!("not a function: {:?}", other),
    }
}

fn read_argument(argument: ParseNode) -> Argument {
    let mut item = read_function(function_element(None, "F", vec![argument], vec![]));
    assert_eq!(item.arguments.len(), 1);
    item.arguments.remove(0)
}

fn private_too() -> Settings {
    Settings { show_all: false, document_protected: false, document_private: true }
}

#[test]
fn test_parsing() {
    let tree = file(vec![
        leaf(Rule::Other, "#pragma once"),
        enum_element(Some("/// Status of a task."), "EStatus", &["Idle", "Busy"]),
        type_element(
            StructClassMode::Class,
            Some("/// An actor."),
            "AFoo",
            vec![
                leaf(Rule::Visibility, "public"),
                function_element(Some("/// Does the thing."), "DoThing", vec![], vec![]),
                property_element(Some("/// The count."), "Count"),
            ],
        ),
        function_element(Some("/// Free."), "Free", vec![], vec![snippet("free", "  return;")]),
        snippet("top", "    int x;\n    int y;"),
    ]);
    let mut document = Document::default();
    let result = parse_unreal_cpp_header(&tree, &mut document, &Default::default());
    assert!(result.is_ok());
    assert_eq!(result.unwrap(), Vec::new());
    assert_eq!(document.enums.len(), 1);
    assert_eq!(document.classes.len(), 1);
    assert_eq!(document.functions.len(), 1);
    assert_eq!(document.snippets.get("free"), Some(&"return;".to_owned()));
    assert_eq!(document.snippets.get("top"), Some(&"int x;\nint y;".to_owned()));
}

#[test]
fn visibility_keywords() {
    assert_eq!(parse_visibility("private"), Some(Visibility::Private));
    assert_eq!(parse_visibility("protected"), Some(Visibility::Protected));
    assert_eq!(parse_visibility("public"), Some(Visibility::Public));
    assert_eq!(parse_visibility("Public"), None);
    assert_eq!(parse_visibility(""), None);
    assert_eq!(parse_visibility("public:"), None);
}

#[test]
fn struct_members_are_public_and_class_members_private() {
    let body = || vec![property_element(Some("/// First."), "First")];
    let everything = Settings { show_all: true, document_protected: true, document_private: true };
    let tree = file(vec![
        type_element(StructClassMode::Struct, None, "FData", body()),
        type_element(StructClassMode::Class, None, "AData", body()),
    ]);
    let (document, _) = read(&tree, &everything);
    assert_eq!(document.structs[0].properties[0].visibility, Visibility::Public);
    assert_eq!(document.classes[0].properties[0].visibility, Visibility::Private);
    assert_eq!(document.structs[0].mode, StructClassMode::Struct);
    assert_eq!(document.classes[0].mode, StructClassMode::Class);
}

#[test]
fn visibility_sections_change_what_follows() {
    let tree = file(vec![type_element(
        StructClassMode::Class,
        Some("/// A class."),
        "AFoo",
        vec![
            property_element(Some("/// a"), "A"),
            leaf(Rule::Visibility, "protected"),
            property_element(Some("/// b"), "B"),
            leaf(Rule::Visibility, "public"),
            property_element(Some("/// c"), "C"),
            leaf(Rule::Visibility, "friend"),
            property_element(Some("/// d"), "D"),
            leaf(Rule::Visibility, "private"),
            function_element(Some("/// e"), "E", vec![], vec![]),
        ],
    )]);
    let everything = Settings { show_all: false, document_protected: true, document_private: true };
    let (document, _) = read(&tree, &everything);
    let members: Vec<(&str, Visibility)> = document.classes[0]
        .properties
        .iter()
        .map(|item| (item.name.as_str(), item.visibility))
        .collect();
    assert_eq!(
        members,
        vec![
            ("A", Visibility::Private),
            ("B", Visibility::Protected),
            ("C", Visibility::Public),
            ("D", Visibility::Public),
        ]
    );
    assert_eq!(document.classes[0].methods[0].visibility, Visibility::Private);

    let (document, _) = read(&tree, &Settings::default());
    let names: Vec<&str> =
        document.classes[0].properties.iter().map(|item| item.name.as_str()).collect();
    assert_eq!(names, vec!["C", "D"]);
    assert!(document.classes[0].methods.is_empty());
}

#[test]
fn class_exports_only_its_documented_method() {
    let tree = file(vec![type_element(
        StructClassMode::Class,
        None,
        "AFoo",
        vec![
            function_element(Some("/// Does the thing."), "DoThing", vec![], vec![]),
            function_element(None, "Helper", vec![], vec![]),
        ],
    )]);
    let (document, log) = read(&tree, &private_too());
    assert!(log.is_empty());
    assert_eq!(document.classes.len(), 1);
    let class = &document.classes[0];
    assert_eq!(class.name, "AFoo");
    assert_eq!(class.doc_comments, None);
    assert_eq!(class.methods.len(), 1);
    assert_eq!(class.methods[0].name, "DoThing");
    assert_eq!(class.methods[0].doc_comments, Some("Does the thing.".to_owned()));
    assert_eq!(class.methods[0].visibility, Visibility::Private);
    assert!(class.can_export(&private_too()));

    let (document, _) = read(&tree, &Settings::default());
    assert!(document.classes.is_empty());
}

#[test]
fn public_section_exports_under_default_settings() {
    let tree = file(vec![type_element(
        StructClassMode::Class,
        None,
        "AFoo",
        vec![
            leaf(Rule::Visibility, "public"),
            function_element(Some("/// Does the thing."), "DoThing", vec![], vec![]),
            function_element(None, "Helper", vec![], vec![]),
        ],
    )]);
    let (document, _) = read(&tree, &Settings::default());
    assert_eq!(document.classes.len(), 1);
    assert_eq!(document.classes[0].methods.len(), 1);
    assert_eq!(document.classes[0].methods[0].name, "DoThing");
}

#[test]
fn second_enum_of_a_name_is_reported() {
    let first = file(vec![enum_element(Some("/// First."), "EStatus", &["A"])]);
    let second = file(vec![enum_element(Some("/// Second."), "EStatus", &["B", "C"])]);
    let mut document = Document::default();
    let settings = Settings::default();
    let log = parse_unreal_cpp_header(&first, &mut document, &settings).unwrap();
    assert!(log.is_empty());
    let log = parse_unreal_cpp_header(&second, &mut document, &settings).unwrap();
    assert_eq!(log, vec![Overwrite { kind: OverwriteKind::Enum, name: "EStatus".to_owned() }]);
    assert_eq!(log[0].message(), "Overwriting existing enum: EStatus");
    assert_eq!(document.enums.len(), 2);
    let last = document.enums.last().unwrap();
    assert_eq!(last.name, "EStatus");
    assert_eq!(last.variants, vec!["B", "C"]);
    assert_eq!(last.doc_comments, Some("Second.".to_owned()));
    assert_eq!(document.enums[0].variants, vec!["A"]);
}

#[test]
fn overwrites_of_each_kind() {
    let tree = file(vec![
        type_element(StructClassMode::Struct, Some("/// s"), "Same", vec![]),
        type_element(StructClassMode::Class, Some("/// c"), "Same", vec![]),
        function_element(Some("/// f"), "Same", vec![], vec![snippet("Same", "a")]),
        enum_element(Some("/// e"), "Same", &[]),
        snippet("Same", "b"),
        type_element(StructClassMode::Struct, Some("/// s"), "Same", vec![]),
        type_element(StructClassMode::Class, Some("/// c"), "Same", vec![]),
        function_element(Some("/// f"), "Same", vec![], vec![snippet("Same", "c")]),
        enum_element(None, "Same", &[]),
        enum_element(Some("/// e"), "Other", &[]),
    ]);
    let (document, log) = read(&tree, &Settings::default());
    let kinds: Vec<OverwriteKind> = log.iter().map(|entry| entry.kind).collect();
    assert_eq!(
        kinds,
        vec![
            OverwriteKind::Snippet,
            OverwriteKind::Struct,
            OverwriteKind::Class,
            OverwriteKind::Snippet,
            OverwriteKind::Function,
        ]
    );
    let messages: Vec<String> = log.iter().map(|entry| entry.message()).collect();
    assert_eq!(
        messages,
        vec![
            "Overwriting existing snippet: Same",
            "Overwriting existing struct: Same",
            "Overwriting existing class: Same",
            "Overwriting existing snippet: Same",
            "Overwriting existing function: Same",
        ]
    );
    assert_eq!(document.structs.len(), 2);
    assert_eq!(document.classes.len(), 2);
    assert_eq!(document.functions.len(), 2);
    assert_eq!(document.enums.len(), 2);
    assert_eq!(document.snippets.entries().len(), 1);
    assert_eq!(document.snippets.get("Same"), Some(&"c".to_owned()));
}

#[test]
fn undocumented_top_level_declarations_are_dropped() {
    let tree = file(vec![
        enum_element(None, "EHidden", &["A"]),
        function_element(None, "Hidden", vec![], vec![snippet("kept", "x")]),
        type_element(StructClassMode::Struct, None, "FHidden", vec![property_element(None, "P")]),
        property_element(Some("/// Loose."), "Loose"),
    ]);
    let (document, _) = read(&tree, &Settings::default());
    assert!(document.enums.is_empty());
    assert!(document.functions.is_empty());
    assert!(document.structs.is_empty());
    assert_eq!(document.snippets.get("kept"), Some(&"x".to_owned()));

    let show_all = Settings { show_all: true, document_protected: false, document_private: false };
    let (document, _) = read(&tree, &show_all);
    assert_eq!(document.enums.len(), 1);
    assert!(document.functions.is_empty());
    assert_eq!(document.structs.len(), 1);
    assert!(document.structs[0].properties.is_empty());
}

#[test]
fn specifiers_keep_attributes_and_meta_apart() {
    let annotation = node(
        Rule::Uproperty,
        vec![node(
            Rule::Other,
            vec![
                node(Rule::SpecifierSingle, vec![id("EditAnywhere")]),
                node(Rule::SpecifierPair, vec![id("Category"), id("Game")]),
                node(
                    Rule::SpecifierMeta,
                    vec![
                        node(Rule::SpecifierPair, vec![id("ClampMin"), id("0")]),
                        node(Rule::SpecifierSingle, vec![id("Hidden")]),
                        leaf(Rule::Other, ","),
                    ],
                ),
                node(Rule::SpecifierSingle, vec![id("Replicated")]),
            ],
        )],
    );
    let signature = node(Rule::PropertySignature, vec![value_type("int32"), id("P")]);
    let tree = node(Rule::Element, vec![node(Rule::ElementProperty, vec![annotation, signature])]);
    let specifiers = read_property(tree).specifiers.unwrap();
    assert_eq!(
        specifiers.attributes,
        vec![
            Attribute::Single("EditAnywhere".to_owned()),
            Attribute::Pair { key: "Category".to_owned(), value: "Game".to_owned() },
            Attribute::Single("Replicated".to_owned()),
        ]
    );
    assert_eq!(
        specifiers.meta,
        vec![
            Attribute::Pair { key: "ClampMin".to_owned(), value: "0".to_owned() },
            Attribute::Single("Hidden".to_owned()),
        ]
    );
    let bare = node(
        Rule::Element,
        vec![node(Rule::ElementProperty, vec![node(Rule::Uproperty, vec![])])],
    );
    let specifiers = read_property(bare).specifiers.unwrap();
    assert!(specifiers.attributes.is_empty() && specifiers.meta.is_empty());
}

#[test]
fn enum_keeps_variants_in_source_order() {
    let tree = node(
        Rule::Element,
        vec![
            docs("/// Colors."),
            node(
                Rule::ElementEnum,
                vec![
                    node(
                        Rule::Uenum,
                        vec![node(
                            Rule::Other,
                            vec![node(Rule::SpecifierSingle, vec![id("BlueprintType")])],
                        )],
                    ),
                    node(Rule::EnumSignature, vec![id("EColor")]),
                    node(Rule::EnumBody, vec![id("Red"), id("Green"), id("Blue")]),
                ],
            ),
        ],
    );
    let item = read_enum(tree);
    assert_eq!(item.name, "EColor");
    assert_eq!(item.variants, vec!["Red", "Green", "Blue"]);
    assert_eq!(item.doc_comments, Some("Colors.".to_owned()));
    assert_eq!(
        item.specifiers.unwrap().attributes,
        vec![Attribute::Single("BlueprintType".to_owned())]
    );
    let bare = read_enum(node(Rule::Element, vec![node(Rule::ElementEnum, vec![])]));
    assert_eq!(bare.name, "");
    assert!(bare.variants.is_empty() && bare.specifiers.is_none() && bare.doc_comments.is_none());
}

#[test]
fn property_signature_parts() {
    let tree = node(
        Rule::Element,
        vec![
            docs("/// Docs."),
            node(
                Rule::ElementProperty,
                vec![node(
                    Rule::PropertySignature,
                    vec![
                        leaf(Rule::Staticness, "static"),
                        value_type("  const TArray<int32> "),
                        id("Values"),
                        node(Rule::PropertyArray, vec![leaf(Rule::Other, " MAX_COUNT ")]),
                        default_value("{ 1, 2 }"),
                    ],
                )],
            ),
        ],
    );
    let item = read_property(tree);
    assert_eq!(item.name, "Values");
    assert_eq!(item.value_type, "const TArray<int32>");
    assert_eq!(item.array, PropertyArray::Sized("MAX_COUNT".to_owned()));
    assert_eq!(item.default_value, Some("{ 1, 2 }".to_owned()));
    assert!(item.is_static);
    assert_eq!(item.visibility, Visibility::Public);
    assert_eq!(item.doc_comments, Some("Docs.".to_owned()));
    assert_eq!(item.specifiers, None);

    let unsized_array = node(
        Rule::Element,
        vec![node(
            Rule::ElementProperty,
            vec![node(
                Rule::PropertySignature,
                vec![value_type("int32"), id("Raw"), node(Rule::PropertyArray, vec![])],
            )],
        )],
    );
    let item = read_property(unsized_array);
    assert_eq!(item.array, PropertyArray::Unsized);
    assert!(!item.is_static);
    assert_eq!(item.default_value, None);
    assert_eq!(read_property(property_element(None, "Plain")).array, PropertyArray::Scalar);
}

#[test]
fn function_argument_parts() {
    let tree = node(
        Rule::FunctionArgument,
        vec![
            docs("/// The name\n/// of the thing."),
            value_type(" const FString& "),
            id("Name"),
            default_value("TEXT(\"x\")"),
        ],
    );
    let item = read_argument(tree);
    assert_eq!(item.doc_comments, Some("The name\nof the thing.".to_owned()));
    assert_eq!(item.value_type, "const FString&");
    assert_eq!(item.name, Some("Name".to_owned()));
    assert_eq!(item.default_value, Some("TEXT(\"x\")".to_owned()));
    assert_eq!(item.signature(), "const FString& Name = TEXT(\"x\")");

    let unnamed = read_argument(node(Rule::FunctionArgument, vec![value_type("int32")]));
    assert_eq!(unnamed.name, None);
    assert_eq!(unnamed.value_type, "int32");
    assert_eq!(unnamed.doc_comments, None);
}

#[test]
fn function_signature_parts() {
    let tree = file(vec![node(
        Rule::Element,
        vec![
            docs("/// Makes a thing."),
            node(
                Rule::ElementFunction,
                vec![
                    node(Rule::Ufunction, vec![]),
                    node(
                        Rule::FunctionSignature,
                        vec![
                            leaf(Rule::TemplateDeclaration, " template <typename T> "),
                            leaf(Rule::Staticness, "static"),
                            leaf(Rule::Virtualness, "virtual"),
                            value_type("T* "),
                            leaf(Rule::Operator, "operator+"),
                            node(
                                Rule::FunctionArguments,
                                vec![
                                    node(Rule::FunctionArgument, vec![value_type("int32"), id("A")]),
                                    leaf(Rule::Other, ","),
                                    node(Rule::FunctionArgument, vec![value_type("bool")]),
                                ],
                            ),
                            leaf(Rule::Constness, "const"),
                            leaf(Rule::Overrideness, "override"),
                        ],
                    ),
                ],
            ),
        ],
    )]);
    let (document, _) = read(&tree, &Settings::default());
    let item = &document.functions[0];
    assert_eq!(item.name, "operator+");
    assert_eq!(item.template, Some("template <typename T>".to_owned()));
    assert_eq!(item.return_type, Some("T*".to_owned()));
    assert!(item.is_static && item.is_virtual && item.is_const_this && item.is_override);
    assert_eq!(item.arguments.len(), 2);
    assert_eq!(item.arguments[0].name, Some("A".to_owned()));
    assert_eq!(item.arguments[1].name, None);
    assert_eq!(item.visibility, Visibility::Public);
    assert_eq!(item.doc_comments, Some("Makes a thing.".to_owned()));
    let specifiers = item.specifiers.as_ref().unwrap();
    assert!(specifiers.attributes.is_empty() && specifiers.meta.is_empty());
    assert_eq!(
        item.signature(),
        "public:\ntemplate <typename T>\nstatic virtual T* operator+(\n    int32 A,\n    bool\n) const override;"
    );
}

#[test]
fn struct_signature_parts() {
    let tree = file(vec![node(
        Rule::Element,
        vec![
            docs("/// A vector."),
            node(
                Rule::ElementStruct,
                vec![
                    node(Rule::Ustruct, vec![node(Rule::Other, vec![node(Rule::SpecifierSingle, vec![id("BlueprintType")])])]),
                    node(
                        Rule::StructSignature,
                        vec![
                            leaf(Rule::TemplateDeclaration, "template <typename T>\n"),
                            leaf(Rule::Api, "CORE_API"),
                            id("TVec"),
                            node(
                                Rule::Inheritances,
                                vec![
                                    node(Rule::Other, vec![leaf(Rule::Visibility, "public"), value_type(" FBase ")]),
                                    node(Rule::Other, vec![leaf(Rule::Visibility, "private"), value_type("TMixin<T>")]),
                                ],
                            ),
                        ],
                    ),
                    node(
                        Rule::StructClassBody,
                        vec![
                            node(Rule::Inject, vec![id("serializable"), id("net")]),
                            property_element(Some("/// x"), "X"),
                            node(Rule::Inject, vec![id("net")]),
                        ],
                    ),
                ],
            ),
        ],
    )]);
    let (document, _) = read(&tree, &Settings::default());
    let item = &document.structs[0];
    assert_eq!(item.name, "TVec");
    assert_eq!(item.mode, StructClassMode::Struct);
    assert_eq!(item.api, Some("CORE_API".to_owned()));
    assert_eq!(item.template, Some("template <typename T>".to_owned()));
    assert_eq!(
        item.inherits,
        vec![
            (Visibility::Public, "FBase".to_owned()),
            (Visibility::Private, "TMixin<T>".to_owned())
        ]
    );
    assert_eq!(item.injects.tags(), &vec!["serializable".to_owned(), "net".to_owned()]);
    assert_eq!(item.properties.len(), 1);
    assert_eq!(item.properties[0].visibility, Visibility::Public);
    assert_eq!(item.doc_comments, Some("A vector.".to_owned()));
    assert_eq!(
        item.signature(),
        "template <typename T>\nstruct CORE_API TVec\n    : public FBase\n    , private TMixin<T>;"
    );
}

#[test]
fn snippets_need_a_name_and_code() {
    let both = parse_snippet(&snippet("demo", "    a();\n      b();")).unwrap();
    assert_eq!(both.id, "demo");
    assert_eq!(both.content, "a();\n  b();");
    assert_eq!(parse_snippet(&node(Rule::Snippet, vec![id("demo")])), None);
    assert_eq!(parse_snippet(&node(Rule::Snippet, vec![leaf(Rule::SnippetInner, "x")])), None);
    assert_eq!(parse_snippet(&node(Rule::Snippet, vec![])), None);
}

#[test]
fn snippets_are_found_wherever_they_stand() {
    let tree = file(vec![type_element(
        StructClassMode::Class,
        None,
        "AFoo",
        vec![
            function_element(None, "Helper", vec![], vec![snippet("inner", "  x;"), leaf(Rule::Other, "}")]),
            type_element(
                StructClassMode::Struct,
                None,
                "FNested",
                vec![function_element(None, "Deep", vec![], vec![snippet("deep", "y;")])],
            ),
        ],
    )]);
    let (document, log) = read(&tree, &Settings::default());
    assert!(log.is_empty());
    assert!(document.classes.is_empty());
    assert!(document.structs.is_empty());
    assert_eq!(
        document.snippets.entries(),
        &vec![
            ("inner".to_owned(), "x;".to_owned()),
            ("deep".to_owned(), "y;".to_owned())
        ]
    );
}

fn proxy(doc_comments: Option<&str>, tags: &[&str], lines: &[&str], inline: ParseNode) -> ParseNode {
    let mut children = Vec::new();
    if let Some(text) = doc_comments {
        children.push(docs(text));
    }
    children.push(node(Rule::ProxyTags, tags.iter().map(|tag| id(tag)).collect()));
    for line in lines {
        children.push(leaf(Rule::ProxyLineContent, line));
    }
    children.push(inline);
    node(Rule::Proxy, children)
}

#[test]
fn proxy_content_joins_the_content_lines() {
    let tree = proxy(
        Some("/// d"),
        &["t"],
        &["UPROPERTY()\n", "FGuid Id;\n"],
        property_element(None, "Id"),
    );
    assert_eq!(proxy_content(&tree), "UPROPERTY()\nFGuid Id;\n");
    assert_eq!(proxy_content(&node(Rule::Proxy, vec![])), "");
}

#[test]
fn proxies_are_registered_with_their_tags() {
    let tree = file(vec![
        proxy(
            Some("/// The id."),
            &["serializable", "net"],
            &["FGuid Id;"],
            property_element(None, "Id"),
        ),
        proxy(
            Some("/// Saves."),
            &["serializable"],
            &["void Save();"],
            function_element(Some("/// Inner docs."), "Save", vec![], vec![snippet("save", "s;")]),
        ),
        proxy(None, &["serializable"], &["void Lost();"], function_element(None, "Lost", vec![], vec![])),
        proxy(Some("/// An enum."), &["serializable"], &["enum E {};"], enum_element(None, "E", &[])),
    ]);
    let (document, log) = read(&tree, &Settings::default());
    assert!(log.is_empty());
    assert_eq!(document.proxy_properties.len(), 1);
    assert_eq!(document.proxy_properties[0].item.name, "Id");
    assert_eq!(document.proxy_properties[0].item.doc_comments, Some("The id.".to_owned()));
    assert_eq!(
        document.proxy_properties[0].tags.tags(),
        &vec!["serializable".to_owned(), "net".to_owned()]
    );
    assert_eq!(document.proxy_functions.len(), 1);
    assert_eq!(document.proxy_functions[0].item.name, "Save");
    assert_eq!(document.proxy_functions[0].item.doc_comments, Some("Saves.".to_owned()));
    assert_eq!(document.proxy_functions[0].item.visibility, Visibility::Public);
    assert!(document.enums.is_empty() && document.functions.is_empty());
    assert_eq!(document.snippets.get("save"), Some(&"s;".to_owned()));
}

#[test]
fn proxy_reaches_tagged_types_after_parsing() {
    let tagged = |mode, name: &str, tag: &str| {
        type_element(
            mode,
            Some("/// A type."),
            name,
            vec![node(Rule::Inject, vec![id(tag)])],
        )
    };
    let tree = file(vec![
        tagged(StructClassMode::Class, "ASaved", "serializable"),
        tagged(StructClassMode::Struct, "FSaved", "serializable"),
        tagged(StructClassMode::Class, "ANet", "net"),
        type_element(StructClassMode::Class, Some("/// Plain."), "APlain", vec![]),
        proxy(Some("/// Id of $Self$."), &["serializable"], &["FGuid Id;"], property_element(None, "Id")),
    ]);
    let (mut document, _) = read(&tree, &Settings::default());
    document.resolve_injects();
    document.resolve_self_names_in_docs();
    document.sort_items_by_name();
    let summary: Vec<(&str, Vec<&str>)> = document
        .classes
        .iter()
        .chain(document.structs.iter())
        .map(|item| {
            (item.name.as_str(), item.properties.iter().map(|p| p.name.as_str()).collect())
        })
        .collect();
    assert_eq!(
        summary,
        vec![
            ("ANet", vec![]),
            ("APlain", vec![]),
            ("ASaved", vec!["Id"]),
            ("FSaved", vec!["Id"]),
        ]
    );
    assert_eq!(document.classes[2].properties[0].doc_comments, Some("Id of ASaved.".to_owned()));
    assert_eq!(document.structs[0].properties[0].doc_comments, Some("Id of FSaved.".to_owned()));
    assert!(document.proxy_properties.is_empty());
}

#[test]
fn malformed_trees_are_refused() {
    let broken: Vec<ParseNode> = vec![
        file(vec![node(Rule::Element, vec![node(Rule::ElementEnum, vec![node(Rule::EnumSignature, vec![])])])]),
        file(vec![node(Rule::SpecifierSingle, vec![])]),
        file(vec![node(Rule::SpecifierPair, vec![id("Key")])]),
        file(vec![node(Rule::DefaultValue, vec![])]),
        file(vec![node(Rule::Inheritances, vec![node(Rule::Other, vec![leaf(Rule::Visibility, "public")])])]),
        file(vec![node(
            Rule::Inheritances,
            vec![node(Rule::Other, vec![leaf(Rule::Visibility, "friend"), value_type("FBase")])],
        )]),
        file(vec![node(Rule::Proxy, vec![docs("/// d"), leaf(Rule::ProxyLineContent, "int x;")])]),
        node(Rule::Other, vec![node(Rule::DefaultValue, vec![])]),
    ];
    for tree in &broken {
        assert!(!tree.is_conforming());
        let mut document = Document::default();
        document.snippets.insert("kept".to_owned(), "1".to_owned());
        let result = parse_unreal_cpp_header(tree, &mut document, &Settings::default());
        assert_eq!(result, Err(GrammarError::Malformed));
        assert!(document.enums.is_empty());
        assert_eq!(document.snippets.entries().len(), 1);
    }
}

#[test]
fn tree_without_file_root_changes_nothing() {
    let tree = enum_element(Some("/// d"), "E", &["A"]);
    assert!(tree.is_conforming());
    let mut document = Document::default();
    let log = parse_unreal_cpp_header(&tree, &mut document, &Settings::default()).unwrap();
    assert!(log.is_empty());
    assert!(document.enums.is_empty());
}

#[test]
fn single_element_is_classified() {
    let mut document = Document::default();
    let settings = Settings::default();
    let tree = function_element(None, "Run", vec![], vec![snippet("run", "r;"), snippet("run", "again;")]);
    let (element, log) = parse_unreal_cpp_element(&tree, &mut document, &settings).unwrap();
    match element {
        Element::Function(item) => {
            assert_eq!(item.name, "Run");
            assert_eq!(item.return_type, Some("void".to_owned()));
            assert_eq!(item.doc_comments, None);
        },
        other => panic!("not a function: {:?}", other),
    }
    assert_eq!(log, vec![Overwrite { kind: OverwriteKind::Snippet, name: "run".to_owned() }]);
    assert_eq!(document.snippets.get("run"), Some(&"again;".to_owned()));

    let (element, _) =
        parse_unreal_cpp_element(&node(Rule::Element, vec![]), &mut document, &settings).unwrap();
    assert!(matches!(element, Element::Nothing));
    let (element, _) =
        parse_unreal_cpp_element(&enum_element(None, "E", &[]), &mut document, &settings).unwrap();
    assert!(matches!(element, Element::Enum(_)));
    let (element, _) =
        parse_unreal_cpp_element(&property_element(None, "P"), &mut document, &settings).unwrap();
    assert!(matches!(element, Element::Property(_)));
    let (element, _) = parse_unreal_cpp_element(
        &type_element(StructClassMode::Class, None, "A", vec![]),
        &mut document,
        &settings,
    )
    .unwrap();
    assert!(matches!(element, Element::StructClass(_)));

    let not_an_element = file(vec![]);
    assert!(matches!(
        parse_unreal_cpp_element(&not_an_element, &mut document, &settings),
        Err(GrammarError::Malformed)
    ));
}

#[test]
fn doc_comments_attach_to_the_declaration_behind_them() {
    let tree = file(vec![node(
        Rule::Element,
        vec![
            docs("/// First."),
            docs("/// Second."),
            node(Rule::ElementEnum, vec![node(Rule::EnumSignature, vec![id("E")])]),
        ],
    )]);
    let (document, _) = read(&tree, &Settings::default());
    assert_eq!(document.enums[0].doc_comments, Some("Second.".to_owned()));
}

#[test]
fn inject_leaves_the_visibility_as_it_is() {
    let tree = file(vec![type_element(
        StructClassMode::Class,
        Some("/// A class."),
        "AFoo",
        vec![
            leaf(Rule::Visibility, "protected"),
            node(Rule::Inject, vec![id("serializable")]),
            property_element(Some("/// a"), "A"),
        ],
    )]);
    let everything = Settings { show_all: false, document_protected: true, document_private: true };
    let (document, _) = read(&tree, &everything);
    assert_eq!(document.classes[0].properties[0].visibility, Visibility::Protected);
    assert_eq!(document.classes[0].injects.tags(), &vec!["serializable".to_owned()]);
}
