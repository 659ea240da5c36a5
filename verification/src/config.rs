//! The configuration of a run: where to read, where to write, what to
//! document and in which form.

use vstd::prelude::*;

verus! {

/// The form in which the documentation is written.
#[derive(Debug, Clone, Copy, PartialEq, Eq, Structural)]
pub enum Backend {
    Json,
    MdBook,
}

impl Default for Backend {
    fn default() -> (r: Self)
        ensures
            r == Backend::Json,
    {
        Backend::Json
    }
}

/// How the book is made. Paths are held as text.
#[derive(Debug, Clone, PartialEq, Eq)]
pub struct BackendMdBook {
    pub title: String,
    pub authors: Vec<String>,
    pub language: String,
    pub multilingual: bool,
    /// Build the book once its files are written.
    pub build: bool,
    /// Remove the output directory before anything is written.
    pub cleanup: bool,
    /// The file whose text opens every page.
    pub header: Option<String>,
    /// The file whose text closes every page.
    pub footer: Option<String>,
    /// The directory that is copied into the book as it is.
    pub assets: Option<String>,
    pub site_url: Option<String>,
}

/// The view of the settings of a book.
pub struct BackendMdBookView {
    pub title: Seq<char>,
    pub authors: Seq<Seq<char>>,
    pub language: Seq<char>,
    pub multilingual: bool,
    pub build: bool,
    pub cleanup: bool,
    pub header: Option<Seq<char>>,
    pub footer: Option<Seq<char>>,
    pub assets: Option<Seq<char>>,
    pub site_url: Option<Seq<char>>,
}

impl DeepView for BackendMdBook {
    type V = BackendMdBookView;

    open spec fn deep_view(&self) -> BackendMdBookView {
        BackendMdBookView {
            title: self.title@,
            authors: self.authors.deep_view(),
            language: self.language@,
            multilingual: self.multilingual,
            build: self.build,
            cleanup: self.cleanup,
            header: self.header.deep_view(),
            footer: self.footer.deep_view(),
            assets: self.assets.deep_view(),
            site_url: self.site_url.deep_view(),
        }
    }
}

impl View for BackendMdBook {
    type V = BackendMdBookView;

    open spec fn view(&self) -> BackendMdBookView {
        self.deep_view()
    }
}

impl BackendMdBookView {
    /// The book that nothing was said of.
    pub open spec fn standard() -> BackendMdBookView {
        BackendMdBookView {
            title: "Documentation"@,
            authors: Seq::empty(),
            language: "en"@,
            multilingual: false,
            build: false,
            cleanup: false,
            header: None,
            footer: None,
            assets: None,
            site_url: None,
        }
    }
}

impl BackendMdBook {
    /// The title of a book that names none.
    pub fn default_title() -> (r: String)
        ensures
            r@ == "Documentation"@,
    {
        "Documentation".to_owned()
    }

    /// The language of a book that names none.
    pub fn default_language() -> (r: String)
        ensures
            r@ == "en"@,
    {
        "en".to_owned()
    }
}

impl Default for BackendMdBook {
    fn default() -> (r: Self)
        ensures
            r@ == BackendMdBookView::standard(),
    {
        let r = BackendMdBook {
            title: Self::default_title(),
            authors: Vec::new(),
            language: Self::default_language(),
            multilingual: false,
            build: false,
            cleanup: false,
            header: None,
            footer: None,
            assets: None,
            site_url: None,
        };
        assert(r.authors.deep_view() =~= Seq::empty());
        r
    }
}

/// What is documented besides public, commented declarations.
#[derive(Debug, Clone, Copy, PartialEq, Eq)]
pub struct Settings {
    /// Document enums, structs and classes whether or not they carry doc
    /// comments.
    pub show_all: bool,
    /// Document protected members.
    pub document_protected: bool,
    /// Document private members.
    pub document_private: bool,
}

impl Default for Settings {
    fn default() -> (r: Self)
        ensures
            !r.show_all,
            !r.document_protected,
            !r.document_private,
    {
        Settings { show_all: false, document_protected: false, document_private: false }
    }
}

/// The configuration of a run. Paths are held as text.
#[derive(Debug, Clone, PartialEq, Eq)]
pub struct Config {
    /// The configurations whose input directories are read as well.
    pub dependencies: Vec<String>,
    pub input_dirs: Vec<String>,
    pub output_dir: String,
    pub backend: Backend,
    pub settings: Settings,
    pub backend_mdbook: Option<BackendMdBook>,
}

impl Default for Config {
    fn default() -> (r: Self)
        ensures
            r.dependencies@.len() == 0,
            r.input_dirs@.len() == 0,
            r.output_dir@ == Seq::<char>::empty(),
            r.backend == Backend::Json,
            r.settings == Settings::default_value(),
            r.backend_mdbook is None,
    {
        Config {
            dependencies: Vec::new(),
            input_dirs: Vec::new(),
            output_dir: String::new(),
            backend: Backend::Json,
            settings: Settings { show_all: false, document_protected: false, document_private: false },
            backend_mdbook: None,
        }
    }
}

impl Settings {
    /// The settings that document public, commented declarations only.
    pub open spec fn default_value() -> Settings {
        Settings { show_all: false, document_protected: false, document_private: false }
    }
}

} // verus!
