//! All the files of the book of a document: the pages that the authors
//! wrote, one page for each entity of the reference, one page that lists
//! each kind, the reference, the documentation page and the summary.

use crate::backends::book::{book_under, include_book_index, BookView};
use crate::backends::mdbook::{
    bake_enum, bake_function, bake_struct_class, enum_text, function_text, spaces,
    struct_class_text,
};
use crate::backends::references::{preprocess_content, preprocessed};
use crate::collections::StringMap;
use crate::document::model::{
    Document, DocumentView, Enum, EnumView, Function, FunctionView, StructClass, StructClassView,
};
use crate::text::lemma_prefix_step;
use vstd::prelude::*;
use vstd::string::StringExecFns;

verus! {

/// The name and the page of each enum.
pub open spec fn enum_pages(items: Seq<EnumView>) -> Seq<(Seq<char>, Seq<char>)> {
    items.map_values(|item: EnumView| (item.name, enum_text(item)))
}

/// The name and the page of each struct or class.
pub open spec fn struct_class_pages(items: Seq<StructClassView>) -> Seq<(Seq<char>, Seq<char>)> {
    items.map_values(|item: StructClassView| (item.name, struct_class_text(item)))
}

/// The name and the page of each function.
pub open spec fn function_pages(items: Seq<FunctionView>) -> Seq<(Seq<char>, Seq<char>)> {
    items.map_values(|item: FunctionView| (item.name, function_text(item, false)))
}

/// The name and the page of each enum.
fn pages_of_enums(items: &Vec<Enum>) -> (r: Vec<(String, String)>)
    ensures
        r.deep_view() == enum_pages(items.deep_view()),
{
    let mut pages: Vec<(String, String)> = Vec::new();
    let mut i: usize = 0;
    while i < items.len()
        invariant
            i <= items.len(),
            pages.len() == i,
            forall|k: int|
                0 <= k < i ==> (#[trigger] pages@[k]).deep_view() == (
                    items@[k]@.name,
                    enum_text(items@[k]@),
                ),
        decreases items.len() - i,
    {
        let mut page = String::new();
        bake_enum(&items[i], &mut page);
        assert(page@ =~= enum_text(items@[i as int]@));
        pages.push((items[i].name.clone(), page));
        i += 1;
    }
    assert(pages.deep_view() =~= enum_pages(items.deep_view()));
    pages
}

/// The name and the page of each struct or class.
fn pages_of_struct_classes(items: &Vec<StructClass>) -> (r: Vec<(String, String)>)
    ensures
        r.deep_view() == struct_class_pages(items.deep_view()),
{
    let mut pages: Vec<(String, String)> = Vec::new();
    let mut i: usize = 0;
    while i < items.len()
        invariant
            i <= items.len(),
            pages.len() == i,
            forall|k: int|
                0 <= k < i ==> (#[trigger] pages@[k]).deep_view() == (
                    items@[k]@.name,
                    struct_class_text(items@[k]@),
                ),
        decreases items.len() - i,
    {
        let mut page = String::new();
        bake_struct_class(&items[i], &mut page);
        assert(page@ =~= struct_class_text(items@[i as int]@));
        pages.push((items[i].name.clone(), page));
        i += 1;
    }
    assert(pages.deep_view() =~= struct_class_pages(items.deep_view()));
    pages
}

/// The name and the page of each function.
fn pages_of_functions(items: &Vec<Function>) -> (r: Vec<(String, String)>)
    ensures
        r.deep_view() == function_pages(items.deep_view()),
{
    let mut pages: Vec<(String, String)> = Vec::new();
    let mut i: usize = 0;
    while i < items.len()
        invariant
            i <= items.len(),
            pages.len() == i,
            forall|k: int|
                0 <= k < i ==> (#[trigger] pages@[k]).deep_view() == (
                    items@[k]@.name,
                    function_text(items@[k]@, false),
                ),
        decreases items.len() - i,
    {
        let mut page = String::new();
        bake_function(&items[i], &mut page, false);
        assert(page@ =~= function_text(items@[i as int]@, false));
        pages.push((items[i].name.clone(), page));
        i += 1;
    }
    assert(pages.deep_view() =~= function_pages(items.deep_view()));
    pages
}

/// What the writing of the reference has reached: the book so far, the
/// page that lists the whole reference, and the page that lists the kind
/// at hand.
pub struct ReferenceState {
    pub book: BookView,
    pub reference: Seq<char>,
    pub listing: Seq<char>,
}

/// Where the summary and the listings point for the page of an entity.
pub open spec fn page_link(dir: Seq<char>, name: Seq<char>) -> Seq<char> {
    "reference/"@ + dir + "/"@ + name + ".md"@
}

/// The line of a listing for the page of an entity.
pub open spec fn listing_line(dir: Seq<char>, name: Seq<char>) -> Seq<char> {
    "- [`"@ + name + "`]("@ + page_link(dir, name) + ")\n"@
}

/// The state once the page of one entity has joined: the page stands among
/// the files, in the place of any earlier page of that name, and the
/// summary and the two listings name it.
pub open spec fn with_page(
    state: ReferenceState,
    dir: Seq<char>,
    entry: (Seq<char>, Seq<char>),
) -> ReferenceState {
    ReferenceState {
        book: BookView {
            files: state.book.files.insert("src/"@ + page_link(dir, entry.0), entry.1),
            index: state.book.index + "    - ["@ + entry.0 + "]("@ + page_link(dir, entry.0)
                + ")\n"@,
        },
        reference: state.reference + listing_line(dir, entry.0),
        listing: state.listing + listing_line(dir, entry.0),
    }
}

/// The state once the pages of the entities have joined, in order.
pub open spec fn with_pages(
    state: ReferenceState,
    dir: Seq<char>,
    entries: Seq<(Seq<char>, Seq<char>)>,
) -> ReferenceState
    decreases entries.len(),
{
    if entries.len() == 0 {
        state
    } else {
        with_page(with_pages(state, dir, entries.drop_last()), dir, entries.last())
    }
}

/// The state once a kind of entities has joined the reference: the summary
/// and the reference get its title, its pages join, and the page that
/// lists it stands among the files. A kind without entities adds nothing.
pub open spec fn with_section(
    state: ReferenceState,
    title: Seq<char>,
    dir: Seq<char>,
    entries: Seq<(Seq<char>, Seq<char>)>,
) -> ReferenceState {
    if entries.len() == 0 {
        state
    } else {
        let end = with_pages(
            ReferenceState {
                book: BookView {
                    index: state.book.index + "  - ["@ + title + "](reference/"@ + dir
                        + ".md)\n"@,
                    ..state.book
                },
                reference: state.reference + "\n## "@ + title + "\n"@,
                listing: "# "@ + title + "\n\n"@,
            },
            dir,
            entries,
        );
        ReferenceState {
            book: BookView {
                files: end.book.files.insert("src/reference/"@ + dir + ".md"@, end.listing),
                ..end.book
            },
            ..end
        }
    }
}

/// The files and the summary of a book.
#[derive(Debug)]
pub struct BookPages {
    /// The files by their path below the directory of the book.
    pub files: StringMap,
    /// The summary, which lists the pages.
    pub index: String,
}

impl DeepView for BookPages {
    type V = BookView;

    open spec fn deep_view(&self) -> BookView {
        BookView { files: self.files@, index: self.index@ }
    }
}

impl View for BookPages {
    type V = BookView;

    open spec fn view(&self) -> BookView {
        self.deep_view()
    }
}

/// The state that a book and two listings stand for.
pub open spec fn reference_of(book: &BookPages, reference: &String, listing: &String) -> ReferenceState {
    ReferenceState { book: book@, reference: reference@, listing: listing@ }
}

/// The link for the page of an entity.
fn link_to_page(dir: &str, name: &str) -> (r: String)
    ensures
        r@ == page_link(dir@, name@),
{
    let mut link = "reference/".to_owned();
    link.append(dir);
    link.append("/");
    link.append(name);
    link.append(".md");
    link
}

/// Appends the line of a listing for the page of an entity.
fn push_listing_line(into: &mut String, name: &str, link: &str)
    ensures
        final(into)@ == old(into)@ + ("- [`"@ + name@ + "`]("@ + link@ + ")\n"@),
{
    let ghost start = into@;
    into.append("- [`");
    into.append(name);
    into.append("`](");
    into.append(link);
    into.append(")\n");
    assert(into@ =~= start + ("- [`"@ + name@ + "`]("@ + link@ + ")\n"@));
}

/// Adds the page of one entity.
fn add_page(
    book: &mut BookPages,
    reference: &mut String,
    listing: &mut String,
    dir: &str,
    entry: &(String, String),
)
    ensures
        reference_of(final(book), final(reference), final(listing)) == with_page(
            reference_of(old(book), old(reference), old(listing)),
            dir@,
            entry.deep_view(),
        ),
{
    let ghost index_before = book.index@;
    let link = link_to_page(dir, entry.0.as_str());
    let mut path = "src/".to_owned();
    path.append(link.as_str());
    book.files.insert(path, entry.1.clone());
    book.index.append("    - [");
    book.index.append(entry.0.as_str());
    book.index.append("](");
    book.index.append(link.as_str());
    book.index.append(")\n");
    assert(book.index@ =~= index_before + "    - ["@ + entry.0@ + "]("@ + link@ + ")\n"@);
    push_listing_line(listing, entry.0.as_str(), link.as_str());
    push_listing_line(reference, entry.0.as_str(), link.as_str());
}

/// Adds a kind of entities to the reference.
fn add_section(
    book: &mut BookPages,
    reference: &mut String,
    title: &str,
    dir: &str,
    entries: &Vec<(String, String)>,
)
    ensures
        final(book)@ == with_section(
            ReferenceState { book: old(book)@, reference: old(reference)@, listing: Seq::empty() },
            title@,
            dir@,
            entries.deep_view(),
        ).book,
        final(reference)@ == with_section(
            ReferenceState { book: old(book)@, reference: old(reference)@, listing: Seq::empty() },
            title@,
            dir@,
            entries.deep_view(),
        ).reference,
{
    if entries.len() == 0 {
        assert(entries.deep_view().len() == 0);
        return ;
    }
    let ghost index_before = book.index@;
    let ghost reference_before = reference@;
    book.index.append("  - [");
    book.index.append(title);
    book.index.append("](reference/");
    book.index.append(dir);
    book.index.append(".md)\n");
    assert(book.index@ =~= index_before + "  - ["@ + title@ + "](reference/"@ + dir@ + ".md)\n"@);
    reference.append("\n## ");
    reference.append(title);
    reference.append("\n");
    assert(reference@ =~= reference_before + "\n## "@ + title@ + "\n"@);
    let mut listing = "# ".to_owned();
    listing.append(title);
    listing.append("\n\n");
    let ghost start = reference_of(book, reference, &listing);
    let ghost all = entries.deep_view();
    let mut i: usize = 0;
    assert(all.take(0) =~= Seq::empty());
    while i < entries.len()
        invariant
            i <= entries.len(),
            all == entries.deep_view(),
            reference_of(book, reference, &listing) == with_pages(start, dir@, all.take(i as int)),
        decreases entries.len() - i,
    {
        proof {
            lemma_prefix_step(all, i as int);
        }
        add_page(book, reference, &mut listing, dir, &entries[i]);
        i += 1;
    }
    assert(all.take(i as int) =~= all);
    let mut path = "src/reference/".to_owned();
    path.append(dir);
    path.append(".md");
    book.files.insert(path, listing);
}

/// The documentation page before its list of contents: the page
/// `documentation.md` of the book, where it has one, and the heading of the
/// list.
pub open spec fn documentation_head(book: Map<Seq<char>, Seq<char>>) -> Seq<char> {
    (if book.contains_key("documentation.md"@) {
        book["documentation.md"@] + "\n\n"@
    } else {
        Seq::empty()
    }) + "# Contents\n"@
}

/// The documentation page: its head, and the links to the book, where there
/// is one, and to the reference.
pub open spec fn documentation_text(book: Map<Seq<char>, Seq<char>>) -> Seq<char> {
    documentation_head(book) + (if book.contains_key("index.txt"@) {
        "- [Book](/book/index.md)\n"@
    } else {
        Seq::empty()
    }) + "- [C++ API Reference](/reference.md)\n"@
}

/// The book before the reference joins it: the summary opens with the link
/// to the documentation page; where the pages have an index file at their
/// root, the book that the authors wrote follows.
pub open spec fn written_book(book: Map<Seq<char>, Seq<char>>) -> BookView {
    let opened = "# Index\n\n"@ + "[Documentation](documentation.md)\n"@;
    if book.contains_key("index.txt"@) {
        book_under(
            book,
            Seq::empty(),
            spaces(2),
            BookView { files: Map::empty(), index: opened + "\n- [Book](book/index.md)\n"@ },
            book.dom().len(),
        )
    } else {
        BookView { files: Map::empty(), index: opened }
    }
}

/// The book with the reference: a section for the enums, the structs, the
/// classes and the functions, in this order, each with the pages of its
/// entities in the order of the document.
pub open spec fn with_reference(written: BookView, document: DocumentView) -> ReferenceState {
    let start = ReferenceState {
        book: BookView {
            index: written.index + "\n- [C++ API Reference](reference.md)\n"@,
            ..written
        },
        reference: "# C++ API Reference\n"@,
        listing: Seq::empty(),
    };
    let enums = with_section(start, "Enums"@, "enums"@, enum_pages(document.enums));
    let structs = with_section(
        ReferenceState { listing: Seq::empty(), ..enums },
        "Structs"@,
        "structs"@,
        struct_class_pages(document.structs),
    );
    let classes = with_section(
        ReferenceState { listing: Seq::empty(), ..structs },
        "Classes"@,
        "classes"@,
        struct_class_pages(document.classes),
    );
    with_section(
        ReferenceState { listing: Seq::empty(), ..classes },
        "Functions"@,
        "functions"@,
        function_pages(document.functions),
    )
}

/// All the files of the book of a document, and its summary.
pub open spec fn pages_of(document: DocumentView) -> BookView {
    let end = with_reference(written_book(document.book), document);
    BookView {
        files: end.book.files.insert("src/reference.md"@, end.reference).insert(
            "src/documentation.md"@,
            documentation_text(document.book),
        ),
        index: end.book.index,
    }
}

/// The documentation page.
fn documentation_page(book: &StringMap) -> (r: String)
    ensures
        r@ == documentation_text(book@),
{
    let mut page = String::new();
    match book.get("documentation.md") {
        Some(content) => {
            page.append(content.as_str());
            page.append("\n\n");
        },
        None => {},
    }
    page.append("# Contents\n");
    assert(page@ =~= documentation_head(book@));
    if book.contains_key("index.txt") {
        page.append("- [Book](/book/index.md)\n");
    }
    page.append("- [C++ API Reference](/reference.md)\n");
    assert(page@ =~= documentation_text(book@));
    page
}

/// The book before the reference joins it.
fn written_pages(book: &StringMap) -> (r: BookPages)
    ensures
        r@ == written_book(book@),
{
    let mut pages = BookPages { files: StringMap::new(), index: "# Index\n\n".to_owned() };
    pages.index.append("[Documentation](documentation.md)\n");
    if book.contains_key("index.txt") {
        pages.index.append("\n- [Book](book/index.md)\n");
        include_book_index(None, book, &mut pages.files, &mut pages.index, 1);
    }
    pages
}

/// All the files of the book of a document, and its summary: the pages as
/// the document holds them, before references and snippets are filled in.
pub fn book_pages(document: &Document) -> (r: BookPages)
    ensures
        r@ == pages_of(document@),
{
    let mut pages = written_pages(&document.book);
    pages.index.append("\n- [C++ API Reference](reference.md)\n");
    let mut reference = "# C++ API Reference\n".to_owned();
    add_section(&mut pages, &mut reference, "Enums", "enums", &pages_of_enums(&document.enums));
    add_section(
        &mut pages,
        &mut reference,
        "Structs",
        "structs",
        &pages_of_struct_classes(&document.structs),
    );
    add_section(
        &mut pages,
        &mut reference,
        "Classes",
        "classes",
        &pages_of_struct_classes(&document.classes),
    );
    add_section(
        &mut pages,
        &mut reference,
        "Functions",
        "functions",
        &pages_of_functions(&document.functions),
    );
    pages.files.insert("src/reference.md".to_owned(), reference);
    pages.files.insert("src/documentation.md".to_owned(), documentation_page(&document.book));
    pages
}

/// The line that closes every page.
pub open spec fn copyright() -> Seq<char> {
    "_Documentation built with [**`Unreal-Doc`**](https://github.com/PsichiX/unreal-doc) tool by [**`PsichiX`**](https://github.com/PsichiX)_"@
}

/// A file of the book as it is written: the header and a line feed, where
/// there is a header; the content with its references and snippets filled
/// in; a line feed and the footer, where there is a footer; a rule and the
/// closing line.
pub open spec fn finished_page(
    header: Option<&str>,
    content: Seq<char>,
    footer: Option<&str>,
    document: DocumentView,
) -> Seq<char> {
    (match header {
        Some(text) => text@ + "\n"@,
        None => Seq::empty(),
    }) + preprocessed(content, document) + (match footer {
        Some(text) => "\n"@ + text@,
        None => Seq::empty(),
    }) + "\n---\n"@ + copyright()
}

/// A file of the book as it is written.
pub fn finish_page(
    header: Option<&str>,
    content: &str,
    footer: Option<&str>,
    document: &Document,
) -> (r: String)
    ensures
        r@ == finished_page(header, content@, footer, document@),
{
    let mut page = String::new();
    if let Some(text) = header {
        page.append(text);
        page.append("\n");
    }
    let ghost s0 = page@;
    page.append(preprocess_content(content, document).as_str());
    let ghost s1 = page@;
    if let Some(text) = footer {
        page.append("\n");
        page.append(text);
    }
    assert(page@ =~= s1 + (match footer {
        Some(text) => "\n"@ + text@,
        None => Seq::empty(),
    }));
    page.append("\n---\n");
    page.append(
        "_Documentation built with [**`Unreal-Doc`**](https://github.com/PsichiX/unreal-doc) tool by [**`PsichiX`**](https://github.com/PsichiX)_",
    );
    assert(page@ =~= finished_page(header, content@, footer, document@));
    page
}

} // verus!
