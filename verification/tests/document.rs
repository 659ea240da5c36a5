use unreal_doc::collections::TagSet;
use unreal_doc::config::Settings;
use unreal_doc::document::sort::sort_by_name;
use unreal_doc::document::{
    Argument, Attribute, Document, Enum, Function, Property, PropertyArray, Proxy, Specifiers,
    StructClass, StructClassMode, Visibility,
};

fn settings(show_all: bool, document_protected: bool, document_private: bool) -> Settings {
    Settings { show_all, document_protected, document_private }
}

fn every_setting() -> Vec<Settings> {
    let mut all = Vec::new();
    for bits in 0..8 {
        all.push(settings(bits & 1 != 0, bits & 2 != 0, bits & 4 != 0));
    }
    all
}

fn documented(text: &str) -> Option<String> {
    Some(text.to_owned())
}

fn function(name: &str, doc_comments: Option<String>, visibility: Visibility) -> Function {
    let mut item = Function::default();
    item.name = name.to_owned();
    item.doc_comments = doc_comments;
    item.visibility = visibility;
    item
}

fn property(name: &str, doc_comments: Option<String>, visibility: Visibility) -> Property {
    let mut item = Property::default();
    item.name = name.to_owned();
    item.value_type = "int32".to_owned();
    item.doc_comments = doc_comments;
    item.visibility = visibility;
    item
}

fn class(name: &str) -> StructClass {
    let mut item = StructClass::default();
    item.mode = StructClassMode::Class;
    item.name = name.to_owned();
    item
}

fn tags(names: &[&str]) -> TagSet {
    let mut set = TagSet::new();
    for name in names {
        set.insert((*name).to_owned());
    }
    set
}

fn names_of_functions(items: &[Function]) -> Vec<&str> {
    items.iter().map(|item| item.name.as_str()).collect()
}

fn names_of_properties(items: &[Property]) -> Vec<&str> {
    items.iter().map(|item| item.name.as_str()).collect()
}

#[test]
fn defaults_are_empty() {
    let s = Settings::default();
    assert!(!s.show_all && !s.document_protected && !s.document_private);
    assert_eq!(Visibility::default(), Visibility::Public);
    assert_eq!(StructClassMode::default(), StructClassMode::Struct);
    assert_eq!(PropertyArray::default(), PropertyArray::Scalar);
    let document = Document::default();
    assert!(document.enums.is_empty() && document.classes.is_empty());
    assert!(document.structs.is_empty() && document.functions.is_empty());
    assert!(document.book.entries().is_empty() && document.snippets.entries().is_empty());
    assert!(document.proxy_functions.is_empty() && document.proxy_properties.is_empty());
    let f = Function::default();
    assert_eq!(f.name, "");
    assert_eq!(f.visibility, Visibility::Public);
    assert!(f.arguments.is_empty() && f.doc_comments.is_none() && f.return_type.is_none());
    let c = StructClass::default();
    assert_eq!(c.mode, StructClassMode::Struct);
    assert!(c.injects.is_empty());
}

#[test]
fn visibility_export_follows_the_settings() {
    for s in every_setting() {
        assert!(Visibility::Public.can_export(&s));
        assert_eq!(Visibility::Protected.can_export(&s), s.document_protected);
        assert_eq!(Visibility::Private.can_export(&s), s.document_private);
    }
}

#[test]
fn default_visibility_of_each_mode() {
    assert_eq!(StructClassMode::Struct.default_visibility(), Visibility::Public);
    assert_eq!(StructClassMode::Class.default_visibility(), Visibility::Private);
}

#[test]
fn undocumented_declarations_are_not_exported() {
    for s in every_setting() {
        for visibility in [Visibility::Public, Visibility::Protected, Visibility::Private] {
            assert!(!function("F", None, visibility).can_export(&s));
            assert!(!property("P", None, visibility).can_export(&s));
        }
        let mut item = Enum::default();
        item.name = "E".to_owned();
        assert_eq!(item.can_export(&s), s.show_all);
        let mut host = class("AFoo");
        host.methods.push(function("Helper", None, Visibility::Public));
        host.properties.push(property("Count", None, Visibility::Public));
        assert_eq!(host.can_export(&s), s.show_all);
    }
}

#[test]
fn documented_members_are_exported_by_visibility() {
    for s in every_setting() {
        assert!(function("F", documented("d"), Visibility::Public).can_export(&s));
        assert_eq!(
            function("F", documented("d"), Visibility::Protected).can_export(&s),
            s.document_protected
        );
        assert_eq!(
            property("P", documented("d"), Visibility::Private).can_export(&s),
            s.document_private
        );
        let mut item = Enum::default();
        item.doc_comments = documented("d");
        assert!(item.can_export(&s));
    }
}

#[test]
fn class_with_documented_member_is_exported() {
    let s = Settings::default();
    let mut host = class("AFoo");
    assert!(!host.can_export(&s));
    host.methods.push(function("Helper", None, Visibility::Public));
    assert!(!host.can_export(&s));
    host.methods.push(function("DoThing", documented("Does it."), Visibility::Public));
    assert!(host.can_export(&s));
    let mut other = class("ABar");
    other.properties.push(property("Id", documented("The id."), Visibility::Private));
    assert!(!other.can_export(&s));
    assert!(other.can_export(&settings(false, false, true)));
    other.doc_comments = documented("A bar.");
    assert!(other.can_export(&s));
}

#[test]
fn keyword_signatures() {
    assert_eq!(Visibility::Public.signature(), "public");
    assert_eq!(Visibility::Protected.signature(), "protected");
    assert_eq!(Visibility::Private.signature(), "private");
    assert_eq!(StructClassMode::Struct.signature(), "struct");
    assert_eq!(StructClassMode::Class.signature(), "class");
}

#[test]
fn enum_signature_lists_the_variants() {
    let mut item = Enum::default();
    item.name = "EStatus".to_owned();
    assert_eq!(item.signature(), "enum class EStatus : uint8 {\n\n};");
    item.variants.push("Idle".to_owned());
    assert_eq!(item.signature(), "enum class EStatus : uint8 {\n    Idle\n};");
    item.variants.push("Busy".to_owned());
    item.variants.push("Done".to_owned());
    assert_eq!(
        item.signature(),
        "enum class EStatus : uint8 {\n    Idle,\n    Busy,\n    Done\n};"
    );
}

#[test]
fn struct_class_signature_with_everything() {
    let mut item = class("AFoo");
    assert_eq!(item.signature(), "class AFoo;");
    item.api = Some("GAME_API".to_owned());
    assert_eq!(item.signature(), "class GAME_API AFoo;");
    item.template = Some("template <typename T>".to_owned());
    item.inherits.push((Visibility::Public, "AActor".to_owned()));
    assert_eq!(
        item.signature(),
        "template <typename T>\nclass GAME_API AFoo\n    : public AActor;"
    );
    item.inherits.push((Visibility::Private, "IBar".to_owned()));
    item.inherits.push((Visibility::Protected, "TBaz<T>".to_owned()));
    assert_eq!(
        item.signature(),
        "template <typename T>\nclass GAME_API AFoo\n    : public AActor\n    , private IBar\n    , protected TBaz<T>;"
    );
    let mut plain = StructClass::default();
    plain.name = "FVec".to_owned();
    plain.inherits.push((Visibility::Public, "FBase".to_owned()));
    assert_eq!(plain.signature(), "struct FVec\n    : public FBase;");
}

#[test]
fn property_signature_with_array_and_static() {
    let mut item = property("Count", None, Visibility::Public);
    assert_eq!(item.signature(), "public:\nint32 Count;");
    item.is_static = true;
    item.visibility = Visibility::Protected;
    assert_eq!(item.signature(), "protected:\nstatic int32 Count;");
    item.array = PropertyArray::Unsized;
    assert_eq!(item.signature(), "protected:\nstatic int32 Count[];");
    item.array = PropertyArray::Sized("MAX + 1".to_owned());
    item.is_static = false;
    item.visibility = Visibility::Private;
    item.default_value = Some("0".to_owned());
    assert_eq!(item.signature(), "private:\nint32 Count[MAX + 1];");
}

#[test]
fn argument_signature_with_optional_parts() {
    let mut item = Argument::default();
    item.value_type = "const FString&".to_owned();
    assert_eq!(item.signature(), "const FString&");
    item.default_value = Some("TEXT(\"\")".to_owned());
    assert_eq!(item.signature(), "const FString& = TEXT(\"\")");
    item.name = Some("Name".to_owned());
    assert_eq!(item.signature(), "const FString& Name = TEXT(\"\")");
    item.default_value = None;
    assert_eq!(item.signature(), "const FString& Name");
}

#[test]
fn function_signature_without_arguments() {
    let mut item = function("Tick", None, Visibility::Public);
    assert_eq!(item.signature(), "public:\nTick();");
    item.return_type = Some("void".to_owned());
    assert_eq!(item.signature(), "public:\nvoid Tick();");
    item.is_virtual = true;
    item.is_const_this = true;
    item.is_override = true;
    assert_eq!(item.signature(), "public:\nvirtual void Tick() const override;");
}

#[test]
fn function_signature_with_everything() {
    let mut item = function("Make", None, Visibility::Protected);
    item.template = Some("template <typename T>".to_owned());
    item.is_static = true;
    item.is_virtual = true;
    item.return_type = Some("T*".to_owned());
    let mut first = Argument::default();
    first.value_type = "UObject*".to_owned();
    first.name = Some("Outer".to_owned());
    let mut second = Argument::default();
    second.value_type = "int32".to_owned();
    second.name = Some("Count".to_owned());
    second.default_value = Some("1".to_owned());
    let mut third = Argument::default();
    third.value_type = "bool".to_owned();
    item.arguments.push(first);
    assert_eq!(
        item.signature(),
        "protected:\ntemplate <typename T>\nstatic virtual T* Make(\n    UObject* Outer\n);"
    );
    item.arguments.push(second);
    item.arguments.push(third);
    item.is_override = true;
    assert_eq!(
        item.signature(),
        "protected:\ntemplate <typename T>\nstatic virtual T* Make(\n    UObject* Outer,\n    int32 Count = 1,\n    bool\n) override;"
    );
}

#[test]
fn proxy_is_injected_where_a_tag_is_shared() {
    let mut id = property("Id", documented("The id."), Visibility::Public);
    id.value_type = "FGuid".to_owned();
    let proxies = vec![Proxy { tags: tags(&["serializable"]), item: id }];
    let functions: Vec<Proxy<Function>> = Vec::new();

    let mut with_tag = class("ASaved");
    with_tag.injects.insert("serializable".to_owned());
    with_tag.properties.push(property("Own", documented("Own."), Visibility::Public));
    let mut with_more = class("ABoth");
    with_more.injects.insert("net".to_owned());
    with_more.injects.insert("serializable".to_owned());
    let mut other_tag = class("ANet");
    other_tag.injects.insert("net".to_owned());
    let mut no_tag = class("APlain");

    with_tag.resolve_injects(&functions, &proxies);
    with_more.resolve_injects(&functions, &proxies);
    other_tag.resolve_injects(&functions, &proxies);
    no_tag.resolve_injects(&functions, &proxies);

    assert_eq!(names_of_properties(&with_tag.properties), vec!["Own", "Id"]);
    assert_eq!(with_tag.properties[1], proxies[0].item);
    assert_eq!(names_of_properties(&with_more.properties), vec!["Id"]);
    assert!(other_tag.properties.is_empty());
    assert!(no_tag.properties.is_empty());
    for host in [&with_tag, &with_more, &other_tag, &no_tag] {
        assert!(host.injects.is_empty());
        assert!(host.methods.is_empty());
    }
}

#[test]
fn injects_keep_the_order_of_registration() {
    let functions = vec![
        Proxy { tags: tags(&["b"]), item: function("Zeta", documented("z"), Visibility::Public) },
        Proxy { tags: tags(&["x"]), item: function("Never", documented("n"), Visibility::Public) },
        Proxy { tags: tags(&["a", "b"]), item: function("Alpha", documented("a"), Visibility::Public) },
    ];
    let properties: Vec<Proxy<Property>> = Vec::new();
    let mut host = class("AHost");
    host.injects.insert("a".to_owned());
    host.injects.insert("b".to_owned());
    host.methods.push(function("Own", documented("o"), Visibility::Public));
    host.resolve_injects(&functions, &properties);
    assert_eq!(names_of_functions(&host.methods), vec!["Own", "Zeta", "Alpha"]);
}

#[test]
fn document_injects_into_classes_and_structs_once() {
    let mut document = Document::default();
    let mut saved = class("ASaved");
    saved.injects.insert("serializable".to_owned());
    let mut plain = class("APlain");
    plain.injects.insert("other".to_owned());
    let mut data = StructClass::default();
    data.name = "FData".to_owned();
    data.injects.insert("serializable".to_owned());
    document.classes.push(saved);
    document.classes.push(plain);
    document.structs.push(data);
    document.proxy_properties.push(Proxy {
        tags: tags(&["serializable"]),
        item: property("Id", documented("The id."), Visibility::Public),
    });
    document.proxy_functions.push(Proxy {
        tags: tags(&["serializable", "unused"]),
        item: function("Save", documented("Saves."), Visibility::Public),
    });
    document.proxy_functions.push(Proxy {
        tags: tags(&["nowhere"]),
        item: function("Lost", documented("Lost."), Visibility::Public),
    });

    document.resolve_injects();

    assert!(document.proxy_functions.is_empty());
    assert!(document.proxy_properties.is_empty());
    assert_eq!(names_of_properties(&document.classes[0].properties), vec!["Id"]);
    assert_eq!(names_of_functions(&document.classes[0].methods), vec!["Save"]);
    assert!(document.classes[1].properties.is_empty());
    assert!(document.classes[1].methods.is_empty());
    assert_eq!(names_of_properties(&document.structs[0].properties), vec!["Id"]);
    assert_eq!(names_of_functions(&document.structs[0].methods), vec!["Save"]);
    for host in document.classes.iter().chain(document.structs.iter()) {
        assert!(host.injects.is_empty());
    }

    document.resolve_injects();

    assert!(document.proxy_functions.is_empty());
    assert!(document.proxy_properties.is_empty());
    assert_eq!(names_of_properties(&document.classes[0].properties), vec!["Id"]);
    assert_eq!(names_of_functions(&document.classes[0].methods), vec!["Save"]);
    assert!(document.classes[1].methods.is_empty());
    assert_eq!(names_of_properties(&document.structs[0].properties), vec!["Id"]);
    assert_eq!(names_of_functions(&document.structs[0].methods), vec!["Save"]);
}

#[test]
fn self_names_resolve_to_the_owner() {
    let mut host = class("AFoo");
    host.doc_comments = documented("$Self$ is a foo. Use $Self$ well.");
    host.properties.push(property("Id", documented("Id of $Self$."), Visibility::Public));
    host.properties.push(property("Raw", None, Visibility::Public));
    let mut method = function("DoThing", documented("Makes $Self$ do it."), Visibility::Public);
    let mut argument = Argument::default();
    argument.value_type = "int32".to_owned();
    argument.doc_comments = documented("How often $Self$ does it.");
    method.arguments.push(argument);
    method.arguments.push(Argument::default());
    host.methods.push(method);

    host.resolve_self_names_in_docs();

    assert_eq!(host.doc_comments, documented("AFoo is a foo. Use AFoo well."));
    assert_eq!(host.properties[0].doc_comments, documented("Id of AFoo."));
    assert_eq!(host.properties[1].doc_comments, None);
    assert_eq!(host.methods[0].doc_comments, documented("Makes AFoo do it."));
    assert_eq!(host.methods[0].arguments[0].doc_comments, documented("How often AFoo does it."));
    assert_eq!(host.methods[0].arguments[1].doc_comments, None);
    assert_eq!(host.name, "AFoo");
}

#[test]
fn self_names_in_each_entity() {
    let mut item = Enum::default();
    item.name = "EStatus".to_owned();
    item.doc_comments = documented("Values of $Self$.");
    item.resolve_self_names_in_docs();
    assert_eq!(item.doc_comments, documented("Values of EStatus."));

    let mut p = property("Id", documented("$Self$::Id"), Visibility::Public);
    p.resolve_self_names_in_docs("FData");
    assert_eq!(p.doc_comments, documented("FData::Id"));

    let mut a = Argument::default();
    a.doc_comments = documented("of $Self$");
    a.resolve_self_names_in_docs(None);
    assert_eq!(a.doc_comments, documented("of $Self$"));
    a.resolve_self_names_in_docs(Some("Owner"));
    assert_eq!(a.doc_comments, documented("of Owner"));
}

#[test]
fn free_functions_have_no_owner() {
    let mut document = Document::default();
    let mut free = function("Free", documented("Not in $Self$."), Visibility::Public);
    let mut argument = Argument::default();
    argument.doc_comments = documented("Still $Self$.");
    free.arguments.push(argument);
    document.functions.push(free);
    let mut item = Enum::default();
    item.name = "EKind".to_owned();
    item.doc_comments = documented("$Self$!");
    document.enums.push(item);
    let mut host = class("AFoo");
    host.doc_comments = documented("$Self$");
    document.classes.push(host);
    let mut data = StructClass::default();
    data.name = "FData".to_owned();
    data.methods.push(function("Get", documented("Gets $Self$."), Visibility::Public));
    document.structs.push(data);

    document.resolve_self_names_in_docs();

    assert_eq!(document.functions[0].doc_comments, documented("Not in $Self$."));
    assert_eq!(document.functions[0].arguments[0].doc_comments, documented("Still $Self$."));
    assert_eq!(document.enums[0].doc_comments, documented("EKind!"));
    assert_eq!(document.classes[0].doc_comments, documented("AFoo"));
    assert_eq!(document.structs[0].methods[0].doc_comments, documented("Gets FData."));
}

#[test]
fn sort_orders_by_name_and_keeps_ties() {
    let mut items = vec![
        function("delta", documented("1"), Visibility::Public),
        function("Alpha", documented("2"), Visibility::Public),
        function("charlie", documented("3"), Visibility::Public),
        function("Alpha", documented("4"), Visibility::Public),
        function("Bravo", documented("5"), Visibility::Public),
        function("", documented("6"), Visibility::Public),
        function("Alpha", documented("7"), Visibility::Public),
    ];
    sort_by_name(&mut items);
    assert_eq!(
        names_of_functions(&items),
        vec!["", "Alpha", "Alpha", "Alpha", "Bravo", "charlie", "delta"]
    );
    let comments: Vec<&str> =
        items.iter().map(|item| item.doc_comments.as_deref().unwrap()).collect();
    assert_eq!(comments, vec!["6", "2", "4", "7", "5", "3", "1"]);
    let mut empty: Vec<Function> = Vec::new();
    sort_by_name(&mut empty);
    assert!(empty.is_empty());
}

#[test]
fn sort_agrees_with_the_standard_order() {
    let names = ["b", "a", "ab", "", "B", "é", "z", "aa", "a", "Z", "_x", "A9", "b"];
    let mut items: Vec<Property> =
        names.iter().map(|name| property(name, None, Visibility::Public)).collect();
    sort_by_name(&mut items);
    let mut expected: Vec<&str> = names.to_vec();
    expected.sort();
    assert_eq!(names_of_properties(&items), expected);
}

#[test]
fn document_sorts_members_and_lists() {
    let mut document = Document::default();
    for name in ["EZ", "EA"] {
        let mut item = Enum::default();
        item.name = name.to_owned();
        item.variants.push("Second".to_owned());
        item.variants.push("First".to_owned());
        document.enums.push(item);
    }
    let mut late = class("AZed");
    late.methods.push(function("Walk", None, Visibility::Public));
    late.methods.push(function("Run", None, Visibility::Public));
    late.properties.push(property("Speed", None, Visibility::Public));
    late.properties.push(property("Age", None, Visibility::Public));
    document.classes.push(late);
    document.classes.push(class("AAnt"));
    let mut data = StructClass::default();
    data.name = "FData".to_owned();
    data.properties.push(property("Y", None, Visibility::Public));
    data.properties.push(property("X", None, Visibility::Public));
    document.structs.push(data);
    let mut first = StructClass::default();
    first.name = "FArea".to_owned();
    document.structs.push(first);
    document.functions.push(function("Zip", None, Visibility::Public));
    document.functions.push(function("Add", None, Visibility::Public));

    document.sort_items_by_name();

    assert_eq!(document.enums[0].name, "EA");
    assert_eq!(document.enums[1].name, "EZ");
    assert_eq!(document.enums[0].variants, vec!["Second", "First"]);
    assert_eq!(document.classes[0].name, "AAnt");
    assert_eq!(document.classes[1].name, "AZed");
    assert_eq!(names_of_functions(&document.classes[1].methods), vec!["Run", "Walk"]);
    assert_eq!(names_of_properties(&document.classes[1].properties), vec!["Age", "Speed"]);
    assert_eq!(document.structs[0].name, "FArea");
    assert_eq!(document.structs[1].name, "FData");
    assert_eq!(names_of_properties(&document.structs[1].properties), vec!["X", "Y"]);
    assert_eq!(names_of_functions(&document.functions), vec!["Add", "Zip"]);
}

#[test]
fn struct_class_sorts_its_members() {
    let mut host = class("AFoo");
    host.methods.push(function("b", None, Visibility::Public));
    host.methods.push(function("a", None, Visibility::Public));
    host.properties.push(property("y", None, Visibility::Public));
    host.properties.push(property("x", None, Visibility::Public));
    host.sort_items_by_name();
    assert_eq!(names_of_functions(&host.methods), vec!["a", "b"]);
    assert_eq!(names_of_properties(&host.properties), vec!["x", "y"]);
    host.sort_items_by_name();
    assert_eq!(names_of_functions(&host.methods), vec!["a", "b"]);
    assert_eq!(names_of_properties(&host.properties), vec!["x", "y"]);
}

#[test]
fn injected_members_take_part_in_the_order() {
    let mut document = Document::default();
    let mut host = class("AFoo");
    host.injects.insert("t".to_owned());
    host.methods.push(function("Middle", documented("m"), Visibility::Public));
    document.classes.push(host);
    document.proxy_functions.push(Proxy {
        tags: tags(&["t"]),
        item: function("Zulu", documented("z of $Self$"), Visibility::Public),
    });
    document.proxy_functions.push(Proxy {
        tags: tags(&["t"]),
        item: function("Able", documented("a of $Self$"), Visibility::Public),
    });
    document.resolve_injects();
    document.resolve_self_names_in_docs();
    document.sort_items_by_name();
    assert_eq!(names_of_functions(&document.classes[0].methods), vec!["Able", "Middle", "Zulu"]);
    assert_eq!(document.classes[0].methods[0].doc_comments, documented("a of AFoo"));
    assert_eq!(document.classes[0].methods[2].doc_comments, documented("z of AFoo"));
}

#[test]
fn clones_are_equal() {
    let mut item = function("Make", documented("d"), Visibility::Protected);
    let mut argument = Argument::default();
    argument.value_type = "int32".to_owned();
    argument.name = Some("n".to_owned());
    item.arguments.push(argument);
    item.specifiers = Some(Specifiers {
        attributes: vec![
            Attribute::Single("BlueprintCallable".to_owned()),
            Attribute::Pair { key: "Category".to_owned(), value: "Game".to_owned() },
        ],
        meta: vec![Attribute::Single("Hidden".to_owned())],
    });
    assert_eq!(item.clone(), item);
    let mut p = property("P", documented("d"), Visibility::Private);
    p.array = PropertyArray::Sized("4".to_owned());
    p.default_value = Some("{}".to_owned());
    assert_eq!(p.clone(), p);
}

#[test]
fn resolve_runs_the_three_passes_in_order() {
    let build = || {
        let mut document = Document::default();
        let mut host = class("AZed");
        host.injects.insert("t".to_owned());
        host.doc_comments = documented("$Self$.");
        host.methods.push(function("Middle", documented("m"), Visibility::Public));
        document.classes.push(host);
        document.classes.push(class("AAnt"));
        document.proxy_functions.push(Proxy {
            tags: tags(&["t"]),
            item: function("Able", documented("a of $Self$"), Visibility::Public),
        });
        document
    };
    let mut at_once = build();
    at_once.resolve();
    let mut by_steps = build();
    by_steps.resolve_injects();
    by_steps.resolve_self_names_in_docs();
    by_steps.sort_items_by_name();
    assert_eq!(at_once.classes.len(), 2);
    assert_eq!(at_once.classes[0].name, "AAnt");
    assert_eq!(at_once.classes[1].name, "AZed");
    assert_eq!(at_once.classes[1].doc_comments, documented("AZed."));
    assert_eq!(names_of_functions(&at_once.classes[1].methods), vec!["Able", "Middle"]);
    assert_eq!(at_once.classes[1].methods[0].doc_comments, documented("a of AZed"));
    assert!(at_once.proxy_functions.is_empty());
    assert!(at_once.classes[1].injects.is_empty());
    for (a, b) in at_once.classes.iter().zip(by_steps.classes.iter()) {
        assert_eq!(a.name, b.name);
        assert_eq!(a.doc_comments, b.doc_comments);
        assert_eq!(a.methods, b.methods);
        assert_eq!(a.properties, b.properties);
    }
    at_once.resolve();
    assert_eq!(names_of_functions(&at_once.classes[1].methods), vec!["Able", "Middle"]);
    assert_eq!(at_once.classes[1].doc_comments, documented("AZed."));
}
