//! The manifest of the book: what the book tool is told of it.

use crate::config::{BackendMdBook, BackendMdBookView, Config};
use vstd::prelude::*;

verus! {

/// The manifest of a book.
#[derive(Debug, PartialEq, Eq)]
pub struct Book {
    pub book: BookInner,
    pub output: BookOutput,
}

/// What the manifest says of the book itself.
#[derive(Debug, PartialEq, Eq)]
pub struct BookInner {
    pub authors: Vec<String>,
    pub language: String,
    pub multilingual: bool,
    pub src: String,
    pub title: String,
}

/// What the manifest says of the output.
#[derive(Debug, PartialEq, Eq)]
pub struct BookOutput {
    pub html: BookHtml,
}

/// What the manifest says of the pages.
#[derive(Debug, PartialEq, Eq)]
pub struct BookHtml {
    pub theme: String,
    pub default_theme: String,
    pub preferred_dark_theme: String,
    pub mathjax_support: bool,
    pub no_section_label: bool,
    pub site_url: String,
    pub fold: BookFold,
}

/// Whether and from which level on the summary is folded.
#[derive(Debug, Clone, Copy, PartialEq, Eq, Structural)]
pub struct BookFold {
    pub enable: bool,
    pub level: usize,
}

/// The view of a manifest: what it says, without its nesting.
pub struct BookView {
    pub authors: Seq<Seq<char>>,
    pub language: Seq<char>,
    pub multilingual: bool,
    pub src: Seq<char>,
    pub title: Seq<char>,
    pub theme: Seq<char>,
    pub default_theme: Seq<char>,
    pub preferred_dark_theme: Seq<char>,
    pub mathjax_support: bool,
    pub no_section_label: bool,
    pub site_url: Seq<char>,
    pub fold: BookFold,
}

impl DeepView for Book {
    type V = BookView;

    open spec fn deep_view(&self) -> BookView {
        BookView {
            authors: self.book.authors.deep_view(),
            language: self.book.language@,
            multilingual: self.book.multilingual,
            src: self.book.src@,
            title: self.book.title@,
            theme: self.output.html.theme@,
            default_theme: self.output.html.default_theme@,
            preferred_dark_theme: self.output.html.preferred_dark_theme@,
            mathjax_support: self.output.html.mathjax_support,
            no_section_label: self.output.html.no_section_label,
            site_url: self.output.html.site_url@,
            fold: self.output.html.fold,
        }
    }
}

impl View for Book {
    type V = BookView;

    open spec fn view(&self) -> BookView {
        self.deep_view()
    }
}

/// The manifest of the book that the settings describe: its title, its
/// authors and its language as they are set, its pages in `src`, the theme
/// `ayu` throughout, and the root as the address of the site unless one is
/// set.
pub open spec fn manifest_of(mdbook: BackendMdBookView) -> BookView {
    BookView {
        authors: mdbook.authors,
        language: mdbook.language,
        multilingual: mdbook.multilingual,
        src: "src"@,
        title: mdbook.title,
        theme: "ayu"@,
        default_theme: "ayu"@,
        preferred_dark_theme: "ayu"@,
        mathjax_support: true,
        no_section_label: true,
        site_url: match mdbook.site_url {
            Some(url) => url,
            None => "/"@,
        },
        fold: BookFold { enable: false, level: 0 },
    }
}

/// The settings of the book of a configuration; the standard ones where it
/// has none.
pub open spec fn mdbook_of(backend_mdbook: Option<BackendMdBookView>) -> BackendMdBookView {
    match backend_mdbook {
        Some(mdbook) => mdbook,
        None => BackendMdBookView::standard(),
    }
}

/// The manifest of the book that the settings describe.
pub fn manifest(mdbook: &BackendMdBook) -> (r: Book)
    ensures
        r@ == manifest_of(mdbook@),
{
    let mut authors: Vec<String> = Vec::new();
    let mut i: usize = 0;
    while i < mdbook.authors.len()
        invariant
            i <= mdbook.authors.len(),
            authors.len() == i,
            forall|k: int| 0 <= k < i ==> authors@[k]@ == mdbook.authors@[k]@,
        decreases mdbook.authors.len() - i,
    {
        authors.push(mdbook.authors[i].clone());
        i += 1;
    }
    assert(authors.deep_view() =~= mdbook.authors.deep_view());
    Book {
        book: BookInner {
            authors,
            language: mdbook.language.clone(),
            multilingual: mdbook.multilingual,
            src: "src".to_owned(),
            title: mdbook.title.clone(),
        },
        output: BookOutput {
            html: BookHtml {
                theme: "ayu".to_owned(),
                default_theme: "ayu".to_owned(),
                preferred_dark_theme: "ayu".to_owned(),
                mathjax_support: true,
                no_section_label: true,
                site_url: match &mdbook.site_url {
                    Some(url) => url.clone(),
                    None => "/".to_owned(),
                },
                fold: BookFold { enable: false, level: 0 },
            },
        },
    }
}

/// The manifest of the book of a configuration.
pub fn book_manifest(config: &Config) -> (r: Book)
    ensures
        r@ == manifest_of(mdbook_of(config.backend_mdbook.deep_view())),
{
    match &config.backend_mdbook {
        Some(mdbook) => manifest(mdbook),
        None => manifest(&BackendMdBook::default()),
    }
}

} // verus!
