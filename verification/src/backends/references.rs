//! What a page of the book may hold in place of text: a reference to an
//! entity of the document, which becomes a link, and the name of a
//! snippet, which becomes the code of the snippet.
//!
//! The places are found by regular expressions. What a pattern finds in a
//! text is not stated here; it has a name, and the text that is made of it
//! is stated for whatever was found.

use crate::ast::unreal_cpp_header::{has_name, named_in};
use crate::backends::mdbook::{prefix_lines, prefixed};
use crate::document::model::{Document, DocumentView, Enum, Function, StructClass};
use crate::text::{chars_of, lemma_prefix_step, str_eq, string_of, trim, trimmed};
use regex::Regex;
use vstd::prelude::*;
use vstd::string::StringExecFns;

verus! {

/// What `Regex::captures_iter` finds of a pattern in a text: for each match,
/// from left to right, the text of each group of the pattern, the whole
/// match first; a group that took no part in the match has none. There is
/// nothing where `Regex::new` refuses the pattern.
pub uninterp spec fn pattern_groups(pattern: Seq<char>, content: Seq<char>) -> Option<
    Seq<Seq<Option<Seq<char>>>>,
>;

/// What `Regex::split` leaves of a text: the pieces that the matches of the
/// pattern stand between, from left to right. There is nothing where
/// `Regex::new` refuses the pattern.
pub uninterp spec fn pattern_pieces(pattern: Seq<char>, content: Seq<char>) -> Option<
    Seq<Seq<char>>,
>;

/// What `str::to_lowercase` makes of a text.
pub uninterp spec fn lowercase_of(text: Seq<char>) -> Seq<char>;

/// Calls `Regex::new` and, on the expression that it gives,
/// `Regex::captures_iter`, and copies the text of every group of every
/// match. The result is the one named `pattern_groups`.
#[verifier::external_body]
fn regex_groups(pattern: &str, content: &str) -> (r: Option<Vec<Vec<Option<String>>>>)
    ensures
        r.deep_view() == pattern_groups(pattern@, content@),
{
    let expression = Regex::new(pattern).ok()?;
    Some(
        expression.captures_iter(content).map(
            |found| found.iter().map(|group| group.map(|m| m.as_str().to_owned())).collect(),
        ).collect(),
    )
}

/// Calls `Regex::new` and, on the expression that it gives, `Regex::split`,
/// and copies every piece. The result is the one named `pattern_pieces`.
#[verifier::external_body]
fn regex_pieces(pattern: &str, content: &str) -> (r: Option<Vec<String>>)
    ensures
        r.deep_view() == pattern_pieces(pattern@, content@),
{
    let expression = Regex::new(pattern).ok()?;
    Some(expression.split(content).map(|piece| piece.to_owned()).collect())
}

/// Calls `str::to_lowercase`. The result is the one named `lowercase_of`.
#[verifier::external_body]
fn lowercase(text: &str) -> (r: String)
    ensures
        r@ == lowercase_of(text@),
{
    text.to_lowercase()
}

/// The pieces in order, with the inserts between them: the first insert
/// behind the first piece, and so on. Inserts that no piece follows are left
/// out.
pub open spec fn spliced(pieces: Seq<Seq<char>>, inserts: Seq<Seq<char>>) -> Seq<char>
    decreases pieces.len(),
{
    if pieces.len() == 0 {
        Seq::empty()
    } else if pieces.len() == 1 {
        pieces[0]
    } else {
        spliced(pieces.drop_last(), inserts) + (if pieces.len() - 2 < inserts.len() {
            inserts[pieces.len() - 2]
        } else {
            Seq::empty()
        }) + pieces.last()
    }
}

/// The pieces in order, with the inserts between them.
pub fn splice(pieces: &Vec<String>, inserts: &Vec<String>) -> (r: String)
    ensures
        r@ == spliced(pieces.deep_view(), inserts.deep_view()),
{
    let mut result = String::new();
    let ghost all = pieces.deep_view();
    let mut i: usize = 0;
    assert(all.take(0) =~= Seq::empty());
    while i < pieces.len()
        invariant
            i <= pieces.len(),
            all == pieces.deep_view(),
            result@ == spliced(all.take(i as int), inserts.deep_view()),
        decreases pieces.len() - i,
    {
        proof {
            lemma_prefix_step(all, i as int);
        }
        if i > 0 && i - 1 < inserts.len() {
            result.append(inserts[i - 1].as_str());
        }
        result.append(pieces[i].as_str());
        i += 1;
        proof {
            if i == 1 {
                assert(all.take(1)[0] == pieces@[0]@);
                assert(result@ =~= pieces@[0]@);
            } else {
                assert(result@ =~= spliced(all.take(i as int), inserts.deep_view()));
            }
        }
    }
    assert(all.take(i as int) =~= all);
    result
}

/// The text of a group of a match; nothing where the match has no such
/// group or the group took no part in it.
pub open spec fn group_text(groups: Seq<Option<Seq<char>>>, at: int) -> Option<Seq<char>> {
    if 0 <= at < groups.len() {
        groups[at]
    } else {
        None
    }
}

/// The text of a group of a match.
fn group_of(groups: &Vec<Option<String>>, at: usize) -> (r: Option<&String>)
    ensures
        r.deep_view() == group_text(groups.deep_view(), at as int),
{
    if at < groups.len() {
        groups[at].as_ref()
    } else {
        None
    }
}

/// The text, or nothing where there is none.
pub open spec fn or_empty(text: Option<Seq<char>>) -> Seq<char> {
    match text {
        Some(content) => content,
        None => Seq::empty(),
    }
}

/// The text of an optional text, trimmed.
fn trimmed_or_empty(text: Option<&String>) -> (r: String)
    ensures
        r@ == trimmed(or_empty(text.deep_view())),
{
    match text {
        Some(content) => trim(content.as_str()),
        None => {
            proof {
                assert(trimmed(Seq::<char>::empty()) =~= Seq::<char>::empty());
            }
            String::new()
        },
    }
}

/// The pattern of a reference to an entity: a kind and a name, and a
/// section where one follows two colons, in backticks and square brackets
/// before an empty pair of round brackets.
pub open spec fn reference_pattern() -> Seq<char> {
    "\\[`\\s*(\\w+)\\s*:\\s*(\\w+)\\s*(::\\s*(\\w+))?`\\]s*\\(\\s*\\)"@
}

/// The page of the entity of the kind and name, where the document holds
/// one.
pub open spec fn reference_path(
    kind: Seq<char>,
    name: Seq<char>,
    document: DocumentView,
) -> Option<Seq<char>> {
    if kind == "enum"@ {
        if named_in::<Enum>(document.enums, name) {
            Some("/reference/enums/"@ + name + ".md"@)
        } else {
            None
        }
    } else if kind == "struct"@ {
        if named_in::<StructClass>(document.structs, name) {
            Some("/reference/structs/"@ + name + ".md"@)
        } else {
            None
        }
    } else if kind == "class"@ {
        if named_in::<StructClass>(document.classes, name) {
            Some("/reference/classes/"@ + name + ".md"@)
        } else {
            None
        }
    } else if kind == "function"@ {
        if named_in::<Function>(document.functions, name) {
            Some("/reference/functions/"@ + name + ".md"@)
        } else {
            None
        }
    } else {
        None
    }
}

/// The page of the entity of the kind and name.
fn path_of_reference(kind: &str, name: &String, document: &Document) -> (r: Option<String>)
    ensures
        r.deep_view() == reference_path(kind@, name@, document@),
{
    let mut path = String::new();
    if str_eq(kind, "enum") {
        if !has_name(&document.enums, name) {
            return None;
        }
        path.append("/reference/enums/");
    } else if str_eq(kind, "struct") {
        if !has_name(&document.structs, name) {
            return None;
        }
        path.append("/reference/structs/");
    } else if str_eq(kind, "class") {
        if !has_name(&document.classes, name) {
            return None;
        }
        path.append("/reference/classes/");
    } else if str_eq(kind, "function") {
        if !has_name(&document.functions, name) {
            return None;
        }
        path.append("/reference/functions/");
    } else {
        return None;
    }
    path.append(name.as_str());
    path.append(".md");
    Some(path)
}

/// What stands in the place of a reference. The name is set in bold code,
/// with its section where it has one; where the document holds the entity,
/// the text is a link to its page, and to the section on the page by the
/// section in lower case.
pub open spec fn reference_text(
    groups: Seq<Option<Seq<char>>>,
    document: DocumentView,
) -> Seq<char> {
    let kind = trimmed(or_empty(group_text(groups, 1)));
    let name = trimmed(or_empty(group_text(groups, 2)));
    match (reference_path(kind, name, document), group_text(groups, 4)) {
        (Some(path), Some(found)) => "[**`"@ + name + "::"@ + trimmed(found) + "`**]("@ + path
            + "#"@ + lowercase_of(trimmed(found)) + ")"@,
        (Some(path), None) => "[**`"@ + name + "`**]("@ + path + ")"@,
        (None, Some(found)) => "**`"@ + name + "::"@ + trimmed(found) + "`**"@,
        (None, None) => "**`"@ + name + "`**"@,
    }
}

/// What stands in the place of a reference.
pub fn link_of_reference(groups: &Vec<Option<String>>, document: &Document) -> (r: String)
    ensures
        r@ == reference_text(groups.deep_view(), document@),
{
    let kind = trimmed_or_empty(group_of(groups, 1));
    let name = trimmed_or_empty(group_of(groups, 2));
    let path = path_of_reference(kind.as_str(), &name, document);
    let mut result = String::new();
    match (path, group_of(groups, 4)) {
        (Some(path), Some(found)) => {
            let section = trim(found.as_str());
            result.append("[**`");
            result.append(name.as_str());
            result.append("::");
            result.append(section.as_str());
            result.append("`**](");
            result.append(path.as_str());
            result.append("#");
            result.append(lowercase(section.as_str()).as_str());
            result.append(")");
        },
        (Some(path), None) => {
            result.append("[**`");
            result.append(name.as_str());
            result.append("`**](");
            result.append(path.as_str());
            result.append(")");
        },
        (None, Some(found)) => {
            let section = trim(found.as_str());
            result.append("**`");
            result.append(name.as_str());
            result.append("::");
            result.append(section.as_str());
            result.append("`**");
        },
        (None, None) => {
            result.append("**`");
            result.append(name.as_str());
            result.append("`**");
        },
    }
    assert(result@ =~= reference_text(groups.deep_view(), document@));
    result
}

/// The text of the pieces with a link in the place of each reference.
pub open spec fn with_links(
    pieces: Seq<Seq<char>>,
    found: Seq<Seq<Option<Seq<char>>>>,
    document: DocumentView,
) -> Seq<char> {
    spliced(
        pieces,
        found.map_values(|groups: Seq<Option<Seq<char>>>| reference_text(groups, document)),
    )
}

/// The text of the pieces with a link in the place of each reference:
/// `found` holds the groups of the references, `pieces` the text around
/// them.
pub fn link_code_references(
    pieces: &Vec<String>,
    found: &Vec<Vec<Option<String>>>,
    document: &Document,
) -> (r: String)
    ensures
        r@ == with_links(pieces.deep_view(), found.deep_view(), document@),
{
    let mut links: Vec<String> = Vec::new();
    let mut i: usize = 0;
    while i < found.len()
        invariant
            i <= found.len(),
            links.len() == i,
            forall|k: int|
                0 <= k < i ==> links@[k]@ == reference_text(
                    (#[trigger] found@[k]).deep_view(),
                    document@,
                ),
        decreases found.len() - i,
    {
        links.push(link_of_reference(&found[i], document));
        i += 1;
    }
    assert(links.deep_view() =~= found.deep_view().map_values(
        |groups: Seq<Option<Seq<char>>>| reference_text(groups, document@),
    ));
    splice(pieces, &links)
}

/// `content` with a link in the place of each reference to an entity. The
/// text stays as it is where the pattern is refused.
pub open spec fn code_references_replaced(content: Seq<char>, document: DocumentView) -> Seq<char> {
    match (
        pattern_pieces(reference_pattern(), content),
        pattern_groups(reference_pattern(), content),
    ) {
        (Some(pieces), Some(found)) => with_links(pieces, found, document),
        _ => content,
    }
}

/// `content` with a link in the place of each reference to an entity.
pub fn replace_code_references(content: &str, document: &Document) -> (r: String)
    ensures
        r@ == code_references_replaced(content@, document@),
{
    let pattern = "\\[`\\s*(\\w+)\\s*:\\s*(\\w+)\\s*(::\\s*(\\w+))?`\\]s*\\(\\s*\\)";
    match (regex_pieces(pattern, content), regex_groups(pattern, content)) {
        (Some(pieces), Some(found)) => link_code_references(&pieces, &found, document),
        _ => content.to_owned(),
    }
}

/// The pattern of the place of a snippet: a code block that is marked
/// `snippet` and holds, behind an optional margin, the name of the snippet.
pub open spec fn snippet_pattern() -> Seq<char> {
    "```\\s*snippet[\\n\\r]+([\\s/]*)(\\w+)[\\r\\n]+\\s*```"@
}

/// What stands in the place of a snippet: a block of C++ code that holds
/// the code of the snippet, each line behind the margin that stood before
/// the name. Where the document has no snippet of the name, a block that
/// says so.
pub open spec fn snippet_text(
    groups: Seq<Option<Seq<char>>>,
    snippets: Map<Seq<char>, Seq<char>>,
) -> Seq<char> {
    let margin = or_empty(group_text(groups, 1));
    let name = trimmed(or_empty(group_text(groups, 2)));
    if snippets.contains_key(name) {
        "```cpp\n"@ + prefixed(margin, snippets[name]) + "\n"@ + margin + "```"@
    } else {
        "```\n"@ + margin + "Missing snippet: "@ + name + "\n"@ + margin + "```"@
    }
}

/// What stands in the place of a snippet.
pub fn block_of_snippet(groups: &Vec<Option<String>>, document: &Document) -> (r: String)
    ensures
        r@ == snippet_text(groups.deep_view(), document@.snippets),
{
    let margin = match group_of(groups, 1) {
        Some(text) => text.clone(),
        None => String::new(),
    };
    let name = trimmed_or_empty(group_of(groups, 2));
    let mut result = String::new();
    match document.snippets.get(name.as_str()) {
        Some(code) => {
            let lines = prefix_lines(&chars_of(margin.as_str()), &chars_of(code.as_str()));
            result.append("```cpp\n");
            result.append(string_of(&lines).as_str());
            result.append("\n");
            result.append(margin.as_str());
            result.append("```");
        },
        None => {
            result.append("```\n");
            result.append(margin.as_str());
            result.append("Missing snippet: ");
            result.append(name.as_str());
            result.append("\n");
            result.append(margin.as_str());
            result.append("```");
        },
    }
    assert(result@ =~= snippet_text(groups.deep_view(), document@.snippets));
    result
}

/// The text of the pieces with a block of code in the place of each
/// snippet.
pub open spec fn with_snippet_blocks(
    pieces: Seq<Seq<char>>,
    found: Seq<Seq<Option<Seq<char>>>>,
    snippets: Map<Seq<char>, Seq<char>>,
) -> Seq<char> {
    spliced(
        pieces,
        found.map_values(|groups: Seq<Option<Seq<char>>>| snippet_text(groups, snippets)),
    )
}

/// The text of the pieces with a block of code in the place of each
/// snippet: `found` holds the groups of the places, `pieces` the text
/// around them.
pub fn fill_in_snippets(
    pieces: &Vec<String>,
    found: &Vec<Vec<Option<String>>>,
    document: &Document,
) -> (r: String)
    ensures
        r@ == with_snippet_blocks(pieces.deep_view(), found.deep_view(), document@.snippets),
{
    let mut blocks: Vec<String> = Vec::new();
    let mut i: usize = 0;
    while i < found.len()
        invariant
            i <= found.len(),
            blocks.len() == i,
            forall|k: int|
                0 <= k < i ==> blocks@[k]@ == snippet_text(
                    (#[trigger] found@[k]).deep_view(),
                    document@.snippets,
                ),
        decreases found.len() - i,
    {
        blocks.push(block_of_snippet(&found[i], document));
        i += 1;
    }
    assert(blocks.deep_view() =~= found.deep_view().map_values(
        |groups: Seq<Option<Seq<char>>>| snippet_text(groups, document@.snippets),
    ));
    splice(pieces, &blocks)
}

/// `content` with a block of code in the place of each snippet. The text
/// stays as it is where the pattern is refused.
pub open spec fn snippets_replaced(content: Seq<char>, document: DocumentView) -> Seq<char> {
    match (
        pattern_pieces(snippet_pattern(), content),
        pattern_groups(snippet_pattern(), content),
    ) {
        (Some(pieces), Some(found)) => with_snippet_blocks(pieces, found, document.snippets),
        _ => content,
    }
}

/// `content` with a block of code in the place of each snippet.
pub fn replace_snippets(content: &str, document: &Document) -> (r: String)
    ensures
        r@ == snippets_replaced(content@, document@),
{
    let pattern = "```\\s*snippet[\\n\\r]+([\\s/]*)(\\w+)[\\r\\n]+\\s*```";
    match (regex_pieces(pattern, content), regex_groups(pattern, content)) {
        (Some(pieces), Some(found)) => fill_in_snippets(&pieces, &found, document),
        _ => content.to_owned(),
    }
}

/// `content` as a page shows it: first the references to entities become
/// links, then the places of snippets become their code.
pub open spec fn preprocessed(content: Seq<char>, document: DocumentView) -> Seq<char> {
    snippets_replaced(code_references_replaced(content, document), document)
}

/// `content` as a page shows it.
pub fn preprocess_content(content: &str, document: &Document) -> (r: String)
    ensures
        r@ == preprocessed(content@, document@),
{
    let linked = replace_code_references(content, document);
    replace_snippets(linked.as_str(), document)
}

} // verus!
