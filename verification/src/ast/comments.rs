//! The two texts that are normalised as they are read: doc comments lose
//! their markers, and snippets lose their common left margin.

use crate::text::{
    chars_of, copy_range, count_leading_whitespace, find_in_range, find_sub, is_whitespace,
    join_chars, joined, leading_whitespace, lines_of, split_lines, string_of, trim_range, trimmed,
    views_of,
};
use vstd::prelude::*;

verus! {

/// The marker that opens a doc comment line.
pub open spec fn doc_marker() -> Seq<char> {
    "///"@
}

/// What one line of a doc comment says: the text behind its first marker,
/// without the whitespace at its two ends; nothing where the line has no
/// marker.
pub open spec fn doc_line(line: Seq<char>) -> Seq<char> {
    match find_sub(line, doc_marker()) {
        Some(at) => trimmed(line.skip(at + doc_marker().len())),
        None => Seq::empty(),
    }
}

/// What a run of doc comment lines says: what each line says, in order,
/// with a line feed between each two. Blank lines stay.
pub open spec fn doc_comment_text(text: Seq<char>) -> Seq<char> {
    joined(lines_of(text).map_values(|line: Seq<char>| doc_line(line)), "\n"@)
}

/// What a run of doc comment lines says.
pub fn parse_doc_comments(text: &str) -> (r: String)
    ensures
        r@ == doc_comment_text(text@),
{
    let content = chars_of(text);
    let lines = split_lines(&content);
    let marker = chars_of("///");
    let separator = chars_of("\n");
    let mut said: Vec<Vec<char>> = Vec::new();
    let mut i: usize = 0;
    while i < lines.len()
        invariant
            i <= lines.len(),
            marker@ == doc_marker(),
            said.len() == i,
            forall|k: int| 0 <= k < i ==> said@[k]@ == doc_line(#[trigger] lines@[k]@),
        decreases lines.len() - i,
    {
        let line = &lines[i];
        assert(line@.subrange(0, line.len() as int) == line@);
        let words = match find_in_range(line, 0, line.len(), &marker) {
            Some(at) => {
                assert(line@.skip(at + marker@.len()) == line@.subrange(
                    at + marker@.len(),
                    line.len() as int,
                ));
                trim_range(line, at + marker.len(), line.len())
            },
            None => Vec::new(),
        };
        said.push(words);
        i += 1;
    }
    assert(views_of(said@) =~= lines_of(text@).map_values(|line: Seq<char>| doc_line(line))) by {
        assert(views_of(lines@) == lines_of(text@));
        assert forall|k: int| 0 <= k < lines.len() implies views_of(said@)[k] == doc_line(
            lines_of(text@)[k],
        ) by {
            assert(views_of(lines@)[k] == lines@[k]@);
        }
    }
    let result = join_chars(&said, &separator);
    string_of(&result)
}

/// The least number of whitespace characters that a line of `lines` begins
/// with; 0 where there is no line.
pub open spec fn min_indent(lines: Seq<Seq<char>>) -> nat
    decreases lines.len(),
{
    if lines.len() == 0 {
        0
    } else if lines.len() == 1 {
        leading_whitespace(lines[0])
    } else {
        let rest = min_indent(lines.drop_last());
        let last = leading_whitespace(lines.last());
        if last < rest {
            last
        } else {
            rest
        }
    }
}

/// The text of a snippet without its common left margin: every line loses
/// as many characters at its start as the least indented line begins with
/// whitespace.
pub open spec fn dedented(text: Seq<char>) -> Seq<char> {
    let lines = lines_of(text);
    joined(lines.map_values(|line: Seq<char>| line.skip(min_indent(lines) as int)), "\n"@)
}

/// No line begins with less whitespace than the margin, and one line begins
/// with exactly that much: what every line loses is whitespace, and the
/// least indented line loses all it begins with.
pub proof fn lemma_min_indent(lines: Seq<Seq<char>>)
    ensures
        forall|i: int|
            0 <= i < lines.len() ==> min_indent(lines) <= leading_whitespace(#[trigger] lines[i]),
        lines.len() > 0 ==> exists|i: int|
            0 <= i < lines.len() && leading_whitespace(#[trigger] lines[i]) == min_indent(lines),
    decreases lines.len(),
{
    if lines.len() == 1 {
        assert(leading_whitespace(lines[0]) == min_indent(lines));
    } else if lines.len() > 1 {
        let front = lines.drop_last();
        lemma_min_indent(front);
        assert forall|i: int| 0 <= i < lines.len() implies min_indent(lines) <= leading_whitespace(
            #[trigger] lines[i],
        ) by {
            if i < front.len() {
                assert(front[i] == lines[i]);
            }
        }
        if leading_whitespace(lines.last()) < min_indent(front) {
            assert(leading_whitespace(lines[lines.len() - 1]) == min_indent(lines));
        } else {
            let k = choose|k: int|
                0 <= k < front.len() && leading_whitespace(#[trigger] front[k]) == min_indent(
                    front,
                );
            assert(lines[k] == front[k]);
        }
    }
}

/// The number of whitespace characters a text begins with is at most its
/// length.
pub proof fn lemma_leading_whitespace_bound(s: Seq<char>)
    ensures
        leading_whitespace(s) <= s.len(),
    decreases s.len(),
{
    if s.len() > 0 && is_whitespace(s[0]) {
        lemma_leading_whitespace_bound(s.skip(1));
    }
}

/// The text of a snippet without its common left margin.
pub fn parse_snippet_inner(text: &str) -> (r: String)
    ensures
        r@ == dedented(text@),
{
    let content = chars_of(text);
    let lines = split_lines(&content);
    let separator = chars_of("\n");
    let ghost all = views_of(lines@);
    let mut level: usize = 0;
    let mut i: usize = 0;
    assert(all.take(0) =~= Seq::empty());
    while i < lines.len()
        invariant
            i <= lines.len(),
            all == views_of(lines@),
            level == min_indent(all.take(i as int)),
        decreases lines.len() - i,
    {
        let line = &lines[i];
        assert(line@.subrange(0, line.len() as int) == line@);
        let indent = count_leading_whitespace(line, 0, line.len());
        proof {
            let now = all.take(i + 1);
            assert(now.drop_last() =~= all.take(i as int));
            assert(now.last() == line@);
            if i == 0 {
                assert(now[0] == line@);
            }
        }
        if i == 0 || indent < level {
            level = indent;
        }
        i += 1;
    }
    assert(all.take(i as int) =~= all);
    proof {
        lemma_min_indent(all);
    }
    let mut cut: Vec<Vec<char>> = Vec::new();
    let mut j: usize = 0;
    while j < lines.len()
        invariant
            j <= lines.len(),
            all == views_of(lines@),
            level == min_indent(all),
            forall|k: int|
                0 <= k < all.len() ==> min_indent(all) <= leading_whitespace(#[trigger] all[k]),
            cut.len() == j,
            forall|k: int| 0 <= k < j ==> cut@[k]@ == (#[trigger] lines@[k])@.skip(level as int),
        decreases lines.len() - j,
    {
        let line = &lines[j];
        proof {
            assert(all[j as int] == line@);
            lemma_leading_whitespace_bound(line@);
        }
        let rest = copy_range(line, level, line.len());
        cut.push(rest);
        j += 1;
    }
    assert(views_of(cut@) =~= all.map_values(|line: Seq<char>| line.skip(min_indent(all) as int)))
        by {
        assert forall|k: int| 0 <= k < lines.len() implies views_of(cut@)[k] == all[k].skip(
            min_indent(all) as int,
        ) by {
            assert(all[k] == lines@[k]@);
        }
    }
    let result = join_chars(&cut, &separator);
    string_of(&result)
}

} // verus!
