//! The book: the pages that the authors wrote, listed by the index files
//! of their directories, and the pages of the reference, listed by kind.
//!
//! An index file names, line by line, the pages and the directories of its
//! directory, each with a title where a colon follows the name. Blank lines
//! and lines that begin with `#` say nothing.

use crate::backends::mdbook::spaces;
use crate::collections::StringMap;
use crate::text::{
    chars_end_with, chars_of, count_leading, ends_with, find_in_range, find_sub, leading_run,
    lines_of, split_lines, string_of, trim_range, trimmed, views_of,
};
use vstd::prelude::*;
use vstd::string::StringExecFns;

verus! {

/// The files of the book by their path, and the summary that lists them.
pub struct BookView {
    pub files: Map<Seq<char>, Seq<char>>,
    pub index: Seq<char>,
}

/// What a line of an index file names: a page or a directory, and its
/// title where it gives one.
pub struct IndexEntry {
    pub name: Seq<char>,
    pub title: Option<Seq<char>>,
}

/// Whether a line of an index file, without the whitespace at its ends,
/// names anything.
pub open spec fn is_entry(line: Seq<char>) -> bool {
    line.len() > 0 && line[0] != '#'
}

/// What a line of an index file names: the text before its first colon is
/// the name and the text behind it the title; without a colon, the line is
/// the name.
pub open spec fn index_entry(line: Seq<char>) -> IndexEntry {
    match find_sub(line, ":"@) {
        Some(at) => IndexEntry {
            name: trimmed(line.take(at)),
            title: Some(trimmed(line.skip(at + ":"@.len()))),
        },
        None => IndexEntry { name: line, title: None },
    }
}

/// The title that a page gives itself: its first line, without the `#` at
/// its start and the whitespace at its ends.
pub open spec fn own_title(content: Seq<char>) -> Option<Seq<char>> {
    let lines = lines_of(content);
    if lines.len() > 0 {
        Some(trimmed(lines[0].skip(leading_run(lines[0], '#') as int)))
    } else {
        None
    }
}

/// The title of a page: the one that the index gives it, else the one that
/// it gives itself, else its name.
pub open spec fn page_title(entry: IndexEntry, content: Seq<char>) -> Seq<char> {
    match entry.title {
        Some(title) => title,
        None => match own_title(content) {
            Some(title) => title,
            None => entry.name,
        },
    }
}

/// The title of a directory: the one that the index gives it, else its
/// name.
pub open spec fn directory_title(entry: IndexEntry) -> Seq<char> {
    match entry.title {
        Some(title) => title,
        None => entry.name,
    }
}

/// What the reading of an index file has reached: the book so far, and the
/// page that lists the directory so far.
pub struct DirectoryState {
    pub book: BookView,
    pub listing: Seq<char>,
}

/// The state after one line of an index file. The summary gets the margin
/// for every line that names something. A page that the input holds joins
/// the files, the summary and the listing; one that it lacks is left out. A
/// directory joins the summary, and its own index file is read, one step
/// further to the right.
pub open spec fn book_line(
    input: Map<Seq<char>, Seq<char>>,
    path: Seq<char>,
    margin: Seq<char>,
    line: Seq<char>,
    state: DirectoryState,
    depth: nat,
) -> DirectoryState
    decreases 2 * depth, 0nat,
{
    let text = trimmed(line);
    if depth == 0 || !is_entry(text) {
        state
    } else {
        let entry = index_entry(text);
        let target = path + entry.name;
        let index = state.book.index + margin;
        if ends_with(entry.name, ".md"@) {
            if input.contains_key(target) {
                let title = page_title(entry, input[target]);
                DirectoryState {
                    book: BookView {
                        files: state.book.files.insert("src/book/"@ + target, input[target]),
                        index: index + "- ["@ + title + "](book/"@ + target + ")\n"@,
                    },
                    listing: state.listing + "- ["@ + title + "]("@ + entry.name + ")\n"@,
                }
            } else {
                DirectoryState { book: BookView { index, ..state.book }, ..state }
            }
        } else {
            let entered = BookView {
                index: index + "- ["@ + directory_title(entry) + "](book/"@ + target
                    + "/index.md)\n"@,
                ..state.book
            };
            DirectoryState {
                book: book_under(input, target + "/"@, margin + "  "@, entered, (depth - 1) as nat),
                ..state
            }
        }
    }
}

/// The state after the first `count` lines of an index file.
pub open spec fn book_lines(
    input: Map<Seq<char>, Seq<char>>,
    path: Seq<char>,
    margin: Seq<char>,
    lines: Seq<Seq<char>>,
    count: nat,
    start: DirectoryState,
    depth: nat,
) -> DirectoryState
    decreases 2 * depth, count + 1,
{
    if count == 0 || count > lines.len() {
        start
    } else {
        book_line(
            input,
            path,
            margin,
            lines[count - 1],
            book_lines(input, path, margin, lines, (count - 1) as nat, start, depth),
            depth,
        )
    }
}

/// The page that lists a directory, before its entries: the page
/// `index.md` of the directory, where the input holds one, and the heading
/// of the list.
pub open spec fn listing_head(input: Map<Seq<char>, Seq<char>>, path: Seq<char>) -> Seq<char> {
    (if input.contains_key(path + "index.md"@) {
        input[path + "index.md"@] + "\n\n"@
    } else {
        Seq::empty()
    }) + "# Pages\n\n"@
}

/// The book once the directory at `path` has joined it: what the lines of
/// its index file name, and the page that lists it. A directory without an
/// index file adds nothing. Directories are entered `depth` levels deep at
/// most.
pub open spec fn book_under(
    input: Map<Seq<char>, Seq<char>>,
    path: Seq<char>,
    margin: Seq<char>,
    book: BookView,
    depth: nat,
) -> BookView
    decreases 2 * depth + 1, 0nat,
{
    if depth == 0 || !input.contains_key(path + "index.txt"@) {
        book
    } else {
        let lines = lines_of(input[path + "index.txt"@]);
        let end = book_lines(
            input,
            path,
            margin,
            lines,
            lines.len(),
            DirectoryState { book, listing: listing_head(input, path) },
            depth,
        );
        BookView {
            files: end.book.files.insert("src/book/"@ + path + "index.md"@, end.listing),
            ..end.book
        }
    }
}

/// The two texts one behind the other.
fn concat(a: &str, b: &str) -> (r: String)
    ensures
        r@ == a@ + b@,
{
    let mut result = a.to_owned();
    result.append(b);
    result
}

/// The book that a map of files and a summary stand for.
pub open spec fn book_of(files: &StringMap, index: &String) -> BookView {
    BookView { files: files@, index: index@ }
}

/// What a trimmed line of an index file names.
fn parse_index_entry(text: &Vec<char>) -> (r: (String, Option<String>))
    ensures
        (IndexEntry { name: r.0@, title: r.1.deep_view() }) == index_entry(text@),
{
    let colon = chars_of(":");
    assert(text@.subrange(0, text.len() as int) == text@);
    match find_in_range(text, 0, text.len(), &colon) {
        Some(at) => {
            let name = trim_range(text, 0, at);
            let title = trim_range(text, at + colon.len(), text.len());
            assert(text@.take(at as int) == text@.subrange(0, at as int));
            assert(text@.skip(at + colon@.len()) == text@.subrange(
                at + colon@.len(),
                text.len() as int,
            ));
            (string_of(&name), Some(string_of(&title)))
        },
        None => (string_of(text), None),
    }
}

/// The title that a page gives itself.
fn title_of_page(content: &str) -> (r: Option<String>)
    ensures
        r.deep_view() == own_title(content@),
{
    let lines = split_lines(&chars_of(content));
    if lines.len() > 0 {
        let first = &lines[0];
        assert(views_of(lines@)[0] == first@);
        assert(first@.subrange(0, first.len() as int) == first@);
        let marks = count_leading(first, 0, first.len(), '#');
        assert(first@.skip(marks as int) == first@.subrange(marks as int, first.len() as int));
        let title = trim_range(first, marks, first.len());
        Some(string_of(&title))
    } else {
        None
    }
}

/// Appends an entry of a list: a title that links to a target.
fn push_link(into: &mut String, title: &str, open: &str, target: &str, close: &str)
    ensures
        final(into)@ == old(into)@ + "- ["@ + title@ + open@ + target@ + close@,
{
    let ghost start = into@;
    into.append("- [");
    into.append(title);
    into.append(open);
    into.append(target);
    into.append(close);
    assert(into@ =~= start + "- ["@ + title@ + open@ + target@ + close@);
}

/// Reads one line of an index file.
fn include_book_line(
    input: &StringMap,
    path: &str,
    margin: &str,
    line: &Vec<char>,
    output: &mut StringMap,
    index: &mut String,
    listing: &mut String,
    depth: usize,
)
    requires
        depth > 0,
    ensures
        (DirectoryState { book: book_of(final(output), final(index)), listing: final(listing)@ })
            == book_line(
            input@,
            path@,
            margin@,
            line@,
            DirectoryState { book: book_of(old(output), old(index)), listing: old(listing)@ },
            depth as nat,
        ),
    decreases 2 * depth, 0nat,
{
    assert(line@.subrange(0, line.len() as int) == line@);
    let text = trim_range(line, 0, line.len());
    if text.len() == 0 || text[0] == '#' {
        return ;
    }
    let (name, title) = parse_index_entry(&text);
    let ghost entry = index_entry(text@);
    index.append(margin);
    let target = concat(path, name.as_str());
    let suffix = chars_of(".md");
    if chars_end_with(&chars_of(name.as_str()), &suffix) {
        match input.get(target.as_str()) {
            Some(content) => {
                let shown = match title {
                    Some(given) => given,
                    None => match title_of_page(content.as_str()) {
                        Some(own) => own,
                        None => name.clone(),
                    },
                };
                assert(shown@ == page_title(entry, content@));
                let ghost index_before = index@;
                let ghost listing_before = listing@;
                push_link(index, shown.as_str(), "](book/", target.as_str(), ")\n");
                assert(index@ =~= index_before + "- ["@ + shown@ + "](book/"@ + target@ + ")\n"@);
                output.insert(concat("src/book/", target.as_str()), content.clone());
                push_link(listing, shown.as_str(), "](", name.as_str(), ")\n");
                assert(listing@ =~= listing_before + "- ["@ + shown@ + "]("@ + name@ + ")\n"@);
            },
            None => {},
        }
    } else {
        let shown = match title {
            Some(given) => given,
            None => name.clone(),
        };
        assert(shown@ == directory_title(entry));
        let ghost index_before = index@;
        push_link(index, shown.as_str(), "](book/", target.as_str(), "/index.md)\n");
        assert(index@ =~= index_before + "- ["@ + shown@ + "](book/"@ + target@
            + "/index.md)\n"@);
        let inner_path = concat(target.as_str(), "/");
        let inner_margin = concat(margin, "  ");
        include_book_directory(
            input,
            inner_path.as_str(),
            inner_margin.as_str(),
            output,
            index,
            depth - 1,
        );
    }
}

/// Adds the directory at `path` to the book.
fn include_book_directory(
    input: &StringMap,
    path: &str,
    margin: &str,
    output: &mut StringMap,
    index: &mut String,
    depth: usize,
)
    ensures
        book_of(final(output), final(index)) == book_under(
            input@,
            path@,
            margin@,
            book_of(old(output), old(index)),
            depth as nat,
        ),
    decreases 2 * depth + 1, 0nat,
{
    if depth == 0 {
        return ;
    }
    let key = concat(path, "index.txt");
    let content = match input.get(key.as_str()) {
        Some(content) => content,
        None => {
            return ;
        },
    };
    let mut listing = match input.get(concat(path, "index.md").as_str()) {
        Some(page) => concat(page.as_str(), "\n\n"),
        None => String::new(),
    };
    listing.append("# Pages\n\n");
    assert(listing@ =~= listing_head(input@, path@));
    let lines = split_lines(&chars_of(content.as_str()));
    let ghost all = views_of(lines@);
    let ghost start = DirectoryState { book: book_of(output, index), listing: listing@ };
    let mut i: usize = 0;
    while i < lines.len()
        invariant
            i <= lines.len(),
            depth > 0,
            all == views_of(lines@),
            (DirectoryState { book: book_of(output, index), listing: listing@ }) == book_lines(
                input@,
                path@,
                margin@,
                all,
                i as nat,
                start,
                depth as nat,
            ),
        decreases lines.len() - i,
    {
        assert(all[i as int] == lines@[i as int]@);
        include_book_line(input, path, margin, &lines[i], output, index, &mut listing, depth);
        i += 1;
    }
    let mut target = concat("src/book/", path);
    target.append("index.md");
    assert(target@ =~= "src/book/"@ + path@ + "index.md"@);
    output.insert(target, listing);
}

/// The path of a directory as a prefix of the paths below it: the name of
/// the directory and a slash, or nothing for the root.
pub open spec fn directory_prefix(dir: Option<&str>) -> Seq<char> {
    match dir {
        Some(name) => name@ + "/"@,
        None => Seq::empty(),
    }
}

/// Adds the directory `dir` of the book to the output files and to the
/// summary: what its index file names, with the entries of the summary
/// `level` steps of two spaces to the right, and the page that lists it.
/// The directories below it follow, each one step further to the right. A
/// directory is entered only where the input holds its index file, so none
/// lies deeper than the input has files.
pub fn include_book_index(
    dir: Option<&str>,
    input_files: &StringMap,
    output_files: &mut StringMap,
    index: &mut String,
    level: usize,
)
    ensures
        book_of(final(output_files), final(index)) == book_under(
            input_files@,
            directory_prefix(dir),
            spaces(2 * level as nat),
            book_of(old(output_files), old(index)),
            input_files@.dom().len(),
        ),
{
    let path = match dir {
        Some(name) => concat(name, "/"),
        None => String::new(),
    };
    let mut margin = String::new();
    let mut n: usize = 0;
    proof {
        reveal_strlit("  ");
    }
    assert(margin@ =~= spaces(0));
    while n < level
        invariant
            n <= level,
            margin@ == spaces(2 * n as nat),
            "  "@.len() == 2,
            "  "@[0] == ' ',
            "  "@[1] == ' ',
        decreases level - n,
    {
        margin.append("  ");
        n += 1;
        assert(margin@ =~= spaces(2 * n as nat));
    }
    include_book_directory(
        input_files,
        path.as_str(),
        margin.as_str(),
        output_files,
        index,
        input_files.len(),
    );
}

/// The keys of the input that are long enough to be the index file of the
/// directory at a path of the given length, or of one below it.
pub open spec fn index_keys(input: Map<Seq<char>, Seq<char>>, length: nat) -> Set<Seq<char>> {
    Set::new(|key: Seq<char>| input.contains_key(key) && key.len() >= length + "index.txt"@.len())
}

proof fn lemma_index_keys_shrink(
    input: Map<Seq<char>, Seq<char>>,
    path: Seq<char>,
    inner: Seq<char>,
)
    requires
        input.dom().finite(),
        input.contains_key(path + "index.txt"@),
        inner.len() > path.len(),
    ensures
        index_keys(input, inner.len()).len() < index_keys(input, path.len()).len(),
        index_keys(input, path.len()).len() <= input.dom().len(),
{
    let outer_keys = index_keys(input, path.len());
    let inner_keys = index_keys(input, inner.len());
    let key = path + "index.txt"@;
    vstd::set_lib::lemma_len_subset(outer_keys, input.dom());
    assert(outer_keys.contains(key));
    assert(inner_keys.subset_of(outer_keys.remove(key)));
    vstd::set_lib::lemma_len_subset(inner_keys, outer_keys.remove(key));
}

proof fn lemma_line_depth(
    input: Map<Seq<char>, Seq<char>>,
    path: Seq<char>,
    margin: Seq<char>,
    line: Seq<char>,
    state: DirectoryState,
    depth: nat,
    other: nat,
)
    requires
        input.dom().finite(),
        input.contains_key(path + "index.txt"@),
        depth >= index_keys(input, path.len()).len(),
        other >= index_keys(input, path.len()).len(),
    ensures
        book_line(input, path, margin, line, state, depth) == book_line(
            input,
            path,
            margin,
            line,
            state,
            other,
        ),
    decreases 2 * depth, 0nat,
{
    let text = trimmed(line);
    let inner = path + index_entry(text).name + "/"@;
    reveal_strlit("/");
    lemma_index_keys_shrink(input, path, inner);
    if is_entry(text) && !ends_with(index_entry(text).name, ".md"@) {
        let entered = BookView {
            index: state.book.index + margin + "- ["@ + directory_title(index_entry(text))
                + "](book/"@ + (path + index_entry(text).name) + "/index.md)\n"@,
            ..state.book
        };
        lemma_directory_depth(
            input,
            inner,
            margin + "  "@,
            entered,
            (depth - 1) as nat,
            (other - 1) as nat,
        );
    }
}

proof fn lemma_lines_depth(
    input: Map<Seq<char>, Seq<char>>,
    path: Seq<char>,
    margin: Seq<char>,
    lines: Seq<Seq<char>>,
    count: nat,
    start: DirectoryState,
    depth: nat,
    other: nat,
)
    requires
        input.dom().finite(),
        input.contains_key(path + "index.txt"@),
        depth >= index_keys(input, path.len()).len(),
        other >= index_keys(input, path.len()).len(),
    ensures
        book_lines(input, path, margin, lines, count, start, depth) == book_lines(
            input,
            path,
            margin,
            lines,
            count,
            start,
            other,
        ),
    decreases 2 * depth, count + 1,
{
    if !(count == 0 || count > lines.len()) {
        lemma_lines_depth(input, path, margin, lines, (count - 1) as nat, start, depth, other);
        lemma_line_depth(
            input,
            path,
            margin,
            lines[count - 1],
            book_lines(input, path, margin, lines, (count - 1) as nat, start, depth),
            depth,
            other,
        );
    }
}

/// Two depths that are both at least the number of keys long enough for an
/// index file at or below a directory give the same book: no directory
/// lies deeper.
pub proof fn lemma_directory_depth(
    input: Map<Seq<char>, Seq<char>>,
    path: Seq<char>,
    margin: Seq<char>,
    book: BookView,
    depth: nat,
    other: nat,
)
    requires
        input.dom().finite(),
        depth >= index_keys(input, path.len()).len(),
        other >= index_keys(input, path.len()).len(),
    ensures
        book_under(input, path, margin, book, depth) == book_under(
            input,
            path,
            margin,
            book,
            other,
        ),
    decreases 2 * depth + 1, 0nat,
{
    if input.contains_key(path + "index.txt"@) {
        let keys = index_keys(input, path.len());
        vstd::set_lib::lemma_len_subset(keys, input.dom());
        assert(keys.contains(path + "index.txt"@));
        assert(keys.len() > 0) by {
            if keys.len() == 0 {
                assert(keys =~= Set::empty());
            }
        }
        let lines = lines_of(input[path + "index.txt"@]);
        lemma_lines_depth(
            input,
            path,
            margin,
            lines,
            lines.len(),
            DirectoryState { book, listing: listing_head(input, path) },
            depth,
            other,
        );
    }
}

/// The depth that `include_book_index` allows, the number of files of the
/// input, never cuts the book short: every greater depth gives the same
/// book.
pub proof fn lemma_depth_never_binds(
    input: Map<Seq<char>, Seq<char>>,
    path: Seq<char>,
    margin: Seq<char>,
    book: BookView,
    depth: nat,
)
    requires
        input.dom().finite(),
        depth >= input.dom().len(),
    ensures
        book_under(input, path, margin, book, depth) == book_under(
            input,
            path,
            margin,
            book,
            input.dom().len(),
        ),
{
    vstd::set_lib::lemma_len_subset(index_keys(input, path.len()), input.dom());
    lemma_directory_depth(input, path, margin, book, depth, input.dom().len());
}

} // verus!
