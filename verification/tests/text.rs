use unreal_doc::ast::comments::{parse_doc_comments, parse_snippet_inner};
use unreal_doc::collections::{StringMap, TagSet};
use unreal_doc::document::resolve::replace_self_names;
use unreal_doc::text::{
    char_is_whitespace, chars_of, find, join_chars, replace_chars, split_lines, str_eq, str_le,
    string_of, trim,
};

fn lines(text: &str) -> Vec<String> {
    split_lines(&chars_of(text)).iter().map(string_of).collect()
}

#[test]
fn chars_and_back() {
    let chars = chars_of("héllo");
    assert_eq!(chars, vec!['h', 'é', 'l', 'l', 'o']);
    assert_eq!(string_of(&chars), "héllo");
    assert_eq!(string_of(&chars_of("")), "");
}

#[test]
fn whitespace_is_the_unicode_property() {
    for c in [' ', '\t', '\n', '\r', '\u{0B}', '\u{0C}', '\u{85}', '\u{A0}', '\u{1680}', '\u{2003}', '\u{2028}', '\u{2029}', '\u{202F}', '\u{205F}', '\u{3000}'] {
        assert!(char_is_whitespace(c));
        assert!(c.is_whitespace());
    }
    for c in ['a', '_', '0', '\u{200B}', '\u{180E}', '\u{FEFF}'] {
        assert!(!char_is_whitespace(c));
        assert!(!c.is_whitespace());
    }
}

#[test]
fn whitespace_agrees_on_every_character() {
    for code in 0..=0x10FFFFu32 {
        if let Some(c) = char::from_u32(code) {
            assert_eq!(char_is_whitespace(c), c.is_whitespace());
        }
    }
}

#[test]
fn trim_removes_both_ends_only() {
    assert_eq!(trim("  a b \t\n"), "a b");
    assert_eq!(trim(" \t\r\n"), "");
    assert_eq!(trim(""), "");
    assert_eq!(trim("x"), "x");
    assert_eq!(trim("\u{A0}const FVector&\u{3000}"), "const FVector&");
    assert_eq!(trim("  TArray< int32 >  "), "  TArray< int32 >  ".trim());
}

#[test]
fn lines_split_at_line_feeds() {
    assert_eq!(lines("a\nb\r\nc"), vec!["a", "b", "c"]);
    assert_eq!(lines("a\n"), vec!["a"]);
    assert_eq!(lines(""), Vec::<String>::new());
    assert_eq!(lines("\n"), vec![""]);
    assert_eq!(lines("a\n\nb"), vec!["a", "", "b"]);
    assert_eq!(lines("a\r"), vec!["a\r"]);
    assert_eq!(lines("a\r\r\nb"), vec!["a\r", "b"]);
    for text in ["a\nb\r\nc", "a\n", "", "\n", "a\n\nb", "a\r", "x\r\n\r\ny\n\n"] {
        let expected: Vec<String> = text.lines().map(|line| line.to_owned()).collect();
        assert_eq!(lines(text), expected);
    }
}

#[test]
fn join_puts_the_separator_between() {
    let parts = vec![chars_of("a"), chars_of(""), chars_of("bc")];
    assert_eq!(string_of(&join_chars(&parts, &chars_of(", "))), "a, , bc");
    assert_eq!(string_of(&join_chars(&Vec::new(), &chars_of(", "))), "");
    assert_eq!(string_of(&join_chars(&vec![chars_of("one")], &chars_of(", "))), "one");
}

#[test]
fn find_gives_the_first_occurrence() {
    assert_eq!(find("ab///cd///", "///"), Some(2));
    assert_eq!(find("//ab/", "///"), None);
    assert_eq!(find("héllo: world", ":"), Some(5));
    assert_eq!(find("ab", "abc"), None);
    assert_eq!(find("abc", "abc"), Some(0));
    assert_eq!(find("abc", ""), Some(0));
    assert_eq!(find("", ""), Some(0));
    assert_eq!(find("", "a"), None);
    assert_eq!(find("aab", "ab"), Some(1));
}

#[test]
fn replace_takes_every_occurrence_from_the_left() {
    let replace = |text: &str, pat: &str, to: &str| {
        string_of(&replace_chars(&chars_of(text), &chars_of(pat), &chars_of(to)))
    };
    assert_eq!(replace("aXbXc", "X", "--"), "a--b--c");
    assert_eq!(replace("aaa", "aa", "b"), "ba");
    assert_eq!(replace("abc", "abcd", "x"), "abc");
    assert_eq!(replace("abc", "", "x"), "abc");
    assert_eq!(replace("", "a", "x"), "");
    assert_eq!(replace("abab", "ab", ""), "");
}

#[test]
fn self_name_replaces_every_placeholder() {
    assert_eq!(
        replace_self_names("$Self$ owns a $Self$; see $Self$.", "AFoo"),
        "AFoo owns a AFoo; see AFoo."
    );
    assert_eq!(replace_self_names("$Self$", "AFoo"), "AFoo");
    assert_eq!(replace_self_names("$Self$Self$", "X"), "XSelf$");
    assert_eq!(replace_self_names("$Self$$Self$", "X"), "XX");
}

#[test]
fn self_name_leaves_other_text_alone() {
    assert_eq!(replace_self_names("No placeholder here.", "AFoo"), "No placeholder here.");
    assert_eq!(replace_self_names("$Self and Self$ and $self$", "AFoo"), "$Self and Self$ and $self$");
    assert_eq!(replace_self_names("", "AFoo"), "");
}

#[test]
fn names_are_ordered_by_code_point() {
    assert!(str_le("a", "b"));
    assert!(!str_le("b", "a"));
    assert!(str_le("a", "a"));
    assert!(str_le("", "a"));
    assert!(!str_le("a", ""));
    assert!(str_le("ab", "b"));
    assert!(str_le("a", "ab"));
    assert!(!str_le("ab", "a"));
    assert!(str_le("Z", "a"));
    assert!(str_le("z", "é"));
    assert!(str_le("é", "\u{10000}"));
    assert!(str_le("\u{FFFF}", "\u{10000}"));
    let names = ["", "A", "AFoo", "Aa", "B", "a", "é", "\u{FFFF}", "\u{10000}"];
    for a in names {
        for b in names {
            assert_eq!(str_le(a, b), a <= b);
        }
    }
}

#[test]
fn equal_texts() {
    assert!(str_eq("public", "public"));
    assert!(!str_eq("public", "Public"));
    assert!(!str_eq("public", "public "));
    assert!(str_eq("", ""));
}

#[test]
fn doc_comments_lose_their_markers() {
    assert_eq!(
        parse_doc_comments("/// Hello\n    ///   World  \n///\n/// end"),
        "Hello\nWorld\n\nend"
    );
    assert_eq!(parse_doc_comments("/// One line"), "One line");
    assert_eq!(parse_doc_comments("///"), "");
    assert_eq!(parse_doc_comments(""), "");
}

#[test]
fn doc_comment_line_without_marker_is_blank() {
    assert_eq!(parse_doc_comments("/// a\nno marker\n/// b"), "a\n\nb");
    assert_eq!(parse_doc_comments("/// a /// b"), "a /// b");
    assert_eq!(parse_doc_comments("/// a\r\n/// b\r\n"), "a\nb");
}

#[test]
fn dedent_strips_the_least_indentation() {
    assert_eq!(parse_snippet_inner("    a\n  b\n      c"), "  a\nb\n    c");
}

#[test]
fn dedent_edge_cases() {
    assert_eq!(parse_snippet_inner(""), "");
    assert_eq!(parse_snippet_inner("a\n  b"), "a\n  b");
    assert_eq!(parse_snippet_inner("    a\n\n    b"), "    a\n\n    b");
    assert_eq!(parse_snippet_inner("\t\tx\n\ty\n"), "\tx\ny");
    assert_eq!(parse_snippet_inner("   \n     z"), "\n  z");
    assert_eq!(parse_snippet_inner("\u{A0}\u{A0}p\n\u{A0}q"), "\u{A0}p\nq");
}

#[test]
fn tag_set_holds_each_tag_once() {
    let mut tags = TagSet::new();
    assert!(tags.is_empty());
    tags.insert("serializable".to_owned());
    tags.insert("net".to_owned());
    tags.insert("serializable".to_owned());
    assert!(!tags.is_empty());
    assert_eq!(tags.tags(), &vec!["serializable".to_owned(), "net".to_owned()]);
    assert!(tags.contains("net"));
    assert!(!tags.contains("Net"));
    let copy = tags.clone();
    let taken = tags.take();
    assert!(tags.is_empty());
    assert_eq!(taken.tags(), copy.tags());
}

#[test]
fn tag_sets_meet_on_a_shared_tag() {
    let mut a = TagSet::new();
    let mut b = TagSet::new();
    assert!(!a.intersects(&b));
    a.insert("x".to_owned());
    a.insert("y".to_owned());
    assert!(!a.intersects(&b));
    b.insert("z".to_owned());
    assert!(!a.intersects(&b));
    assert!(!b.intersects(&a));
    b.insert("y".to_owned());
    assert!(a.intersects(&b));
    assert!(b.intersects(&a));
}

#[test]
fn string_map_overwrites_in_place() {
    let mut map = StringMap::new();
    assert_eq!(map.get("a"), None);
    assert!(!map.insert("a".to_owned(), "1".to_owned()));
    assert!(!map.insert("b".to_owned(), "2".to_owned()));
    assert!(map.insert("a".to_owned(), "3".to_owned()));
    assert_eq!(map.get("a"), Some(&"3".to_owned()));
    assert_eq!(map.get("b"), Some(&"2".to_owned()));
    assert!(map.contains_key("b"));
    assert!(!map.contains_key("c"));
    assert_eq!(
        map.entries(),
        &vec![("a".to_owned(), "3".to_owned()), ("b".to_owned(), "2".to_owned())]
    );
    let copy = map.clone();
    assert_eq!(copy.entries(), map.entries());
}
