//! What is decided of a file of the input before it is read into the
//! document: what kind of file it is, under which key a page is kept, and
//! where its text begins.

use crate::text::{chars_of, matches_at, str_eq, string_of, string_of_range};
use vstd::prelude::*;

verus! {

/// What a file of the input is to the document.
#[derive(Debug, Clone, Copy, PartialEq, Eq, Structural)]
pub enum FileKind {
    /// A header, whose declarations are read.
    Header,
    /// A page or an index file of the book, which is kept as it is.
    Page,
    /// Anything else, which is passed over.
    Other,
}

/// The kind of a file with the given extension and name: a header by the
/// extension `h`, a page by the extension `md`, and the file `index.txt`.
pub open spec fn kind_of_file(extension: Seq<char>, file_name: Seq<char>) -> FileKind {
    if extension == "h"@ {
        FileKind::Header
    } else if extension == "md"@ || file_name == "index.txt"@ {
        FileKind::Page
    } else {
        FileKind::Other
    }
}

/// The kind of a file with the given extension and name.
pub fn classify_file(extension: &str, file_name: &str) -> (r: FileKind)
    ensures
        r == kind_of_file(extension@, file_name@),
{
    if str_eq(extension, "h") {
        FileKind::Header
    } else if str_eq(extension, "md") || str_eq(file_name, "index.txt") {
        FileKind::Page
    } else {
        FileKind::Other
    }
}

/// The byte order mark.
pub open spec fn byte_order_mark() -> char {
    '\u{FEFF}'
}

/// The text of a file behind its byte order mark, where it begins with
/// one.
pub open spec fn without_mark(content: Seq<char>) -> Seq<char> {
    if content.len() > 0 && content[0] == byte_order_mark() {
        content.skip(1)
    } else {
        content
    }
}

/// The text of a file behind its byte order mark.
pub fn strip_mark(content: &str) -> (r: String)
    ensures
        r@ == without_mark(content@),
{
    let text = chars_of(content);
    if text.len() > 0 && text[0] == '\u{FEFF}' {
        assert(text@.skip(1) == text@.subrange(1, text.len() as int));
        string_of_range(&text, 1, text.len())
    } else {
        content.to_owned()
    }
}

/// `path` without the copies of `root` that it begins with. An empty root
/// takes nothing away.
pub open spec fn without_root(path: Seq<char>, root: Seq<char>) -> Seq<char>
    decreases path.len(),
{
    if root.len() > 0 && path.len() >= root.len() && path.take(root.len() as int) == root {
        without_root(path.skip(root.len() as int), root)
    } else {
        path
    }
}

/// Whether `c` parts the steps of a path.
pub open spec fn is_separator(c: char) -> bool {
    c == '/' || c == '\\'
}

/// How many separators `s` begins with.
pub open spec fn leading_separators(s: Seq<char>) -> nat
    decreases s.len(),
{
    if s.len() > 0 && is_separator(s[0]) {
        1 + leading_separators(s.skip(1))
    } else {
        0
    }
}

proof fn lemma_leading_separators(s: Seq<char>, n: int)
    requires
        0 <= n <= s.len(),
        forall|i: int| 0 <= i < n ==> is_separator(#[trigger] s[i]),
        n == s.len() || !is_separator(s[n]),
    ensures
        leading_separators(s) == n,
    decreases n,
{
    if n > 0 {
        assert(is_separator(s[0]));
        let t = s.skip(1);
        assert forall|i: int| 0 <= i < n - 1 implies is_separator(#[trigger] t[i]) by {
            assert(t[i] == s[i + 1]);
        }
        lemma_leading_separators(t, n - 1);
    }
}

/// The key of a page: its path below the root, with a slash between each
/// two steps. The root and the separators behind it are taken from the
/// start of the path, and every backslash gives way to a slash.
pub open spec fn page_key(path: Seq<char>, root: Seq<char>) -> Seq<char> {
    let below = without_root(path, root);
    below.skip(leading_separators(below) as int).map_values(
        |c: char|
            if c == '\\' {
                '/'
            } else {
                c
            },
    )
}

/// The key of a page: its path below the root, with a slash between each
/// two steps.
pub fn relative_page_path(path: &str, root: &str) -> (r: String)
    ensures
        r@ == page_key(path@, root@),
{
    let text = chars_of(path);
    let prefix = chars_of(root);
    let mut at: usize = 0;
    assert(text@.skip(0) == text@);
    while prefix.len() > 0 && matches_at(&text, at, &prefix)
        invariant
            at <= text.len(),
            without_root(text@, prefix@) == without_root(text@.skip(at as int), prefix@),
        decreases text.len() - at,
    {
        proof {
            let rest = text@.skip(at as int);
            assert(rest.take(prefix.len() as int) == text@.subrange(
                at as int,
                at + prefix.len(),
            ));
            assert(rest.skip(prefix.len() as int) == text@.skip(at + prefix.len()));
        }
        at += prefix.len();
    }
    proof {
        let rest = text@.skip(at as int);
        if prefix.len() > 0 && rest.len() >= prefix.len() {
            assert(rest.take(prefix.len() as int) == text@.subrange(
                at as int,
                at + prefix.len(),
            ));
        }
        assert(without_root(rest, prefix@) == rest);
    }
    let ghost below = text@.skip(at as int);
    let mut from: usize = at;
    while from < text.len() && (text[from] == '/' || text[from] == '\\')
        invariant
            at <= from <= text.len(),
            forall|k: int| at <= k < from ==> is_separator(#[trigger] text@[k]),
        decreases text.len() - from,
    {
        from += 1;
    }
    proof {
        lemma_leading_separators(below, from - at);
        assert(below.skip(from - at) == text@.skip(from as int));
    }
    let mut key: Vec<char> = Vec::new();
    let mut i: usize = from;
    while i < text.len()
        invariant
            from <= i <= text.len(),
            key.len() == i - from,
            forall|k: int|
                0 <= k < i - from ==> key@[k] == (if text@[from + k] == '\\' {
                    '/'
                } else {
                    text@[from + k]
                }),
        decreases text.len() - i,
    {
        if text[i] == '\\' {
            key.push('/');
        } else {
            key.push(text[i]);
        }
        i += 1;
    }
    assert(key@ =~= page_key(path@, root@));
    string_of(&key)
}

} // verus!
