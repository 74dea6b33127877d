//! Paths of wiki pages and static files, and the markdown of a page.
//! A path is held as its text, with `/` between components.
use crate::text::{replace_all, replaced};
use vstd::prelude::*;
use vstd::string::StrSliceExecFns;

verus! {

/// `rel` placed under `base`: an absolute `rel` stands alone; otherwise a `/`
/// goes between the two unless `base` is empty or already ends with one.
pub open spec fn joined(base: Seq<char>, rel: Seq<char>) -> Seq<char> {
    if rel.len() > 0 && rel[0] == '/' {
        rel
    } else if base.len() == 0 || base.last() == '/' {
        base + rel
    } else {
        base + seq!['/'] + rel
    }
}

/// Places `rel` under `base`.
pub fn join_path(base: &str, rel: &str) -> (r: String)
    ensures
        r@ == joined(base@, rel@),
{
    let bn = base.unicode_len();
    let rn = rel.unicode_len();
    if rn > 0 && rel.get_char(0) == '/' {
        return rel.to_string();
    }
    let mut r = base.to_string();
    if bn > 0 && base.get_char(bn - 1) != '/' {
        r.append("/");
        proof {
            reveal_strlit("/");
        }
    }
    r.append(rel);
    r
}

/// A page path with every `.md` taken out.
pub fn path_no_markdown(path: &str) -> (r: String)
    ensures
        r@ == replaced(path@, ".md"@, ""@),
{
    replace_all(path, ".md", "")
}

/// The address of a page from its path relative to the wiki root: slashes
/// for backslashes, and every `.md` taken out.
pub open spec fn page_url_of(relative: Seq<char>) -> Seq<char> {
    replaced(replaced(relative, "\\"@, "/"@), ".md"@, ""@)
}

/// The address of a page from its path relative to the wiki root.
pub fn page_url_from_relative(relative: &str) -> (r: String)
    ensures
        r@ == page_url_of(relative@),
{
    let slashed = replace_all(relative, "\\", "/");
    replace_all(slashed.as_str(), ".md", "")
}

/// What `Path::strip_prefix` gives: the rest of `path` after the components
/// of `base`, or nothing when `base` is not a prefix of it.
pub uninterp spec fn stripped_prefix(path: Seq<char>, base: Seq<char>) -> Option<Seq<char>>;

/// Relies on `std::path::Path::strip_prefix`, which compares whole components,
/// and on `Path::to_str`, which gives back the text of a path made from text.
#[verifier::external_body]
fn strip_path_prefix(path: &str, base: &str) -> (r: Option<String>)
    ensures
        r matches Some(s) ==> stripped_prefix(path@, base@) == Some(s@),
        r is None ==> stripped_prefix(path@, base@) is None,
{
    std::path::Path::new(path).strip_prefix(base).ok().and_then(|p| p.to_str()).map(|s| s.to_string())
}

/// Why a page address could not be made.
#[derive(PartialEq, Eq, Structural, Clone, Copy, Debug)]
pub enum PageUrlError {
    /// The second path does not lie under the first.
    NotUnderRoot,
}

/// The address of the page at `wiki_root` relative to `file_path`: the path of
/// `wiki_root` below `file_path`, with slashes and without `.md`.
pub fn get_page_url(file_path: &str, wiki_root: &str) -> (r: Result<String, PageUrlError>)
    ensures
        r matches Ok(u) ==> stripped_prefix(wiki_root@, file_path@) matches Some(rel) && u@ == page_url_of(rel),
        r is Err <==> stripped_prefix(wiki_root@, file_path@) is None,
{
    match strip_path_prefix(wiki_root, file_path) {
        Some(rel) => Ok(page_url_from_relative(rel.as_str())),
        None => Err(PageUrlError::NotUnderRoot),
    }
}

/// A file served from the `static` directory.
pub struct StaticFile {
    path: String,
}

impl StaticFile {
    /// The file at `path` under `static`.
    pub fn new(path: &str) -> (r: Self)
        ensures
            r.path_text() == joined("static"@, path@),
    {
        StaticFile { path: join_path("static", path) }
    }

    pub closed spec fn path_text(&self) -> Seq<char> {
        self.path@
    }

    /// The path of the file.
    pub fn path(&self) -> (r: &str)
        ensures
            r@ == self.path_text(),
    {
        self.path.as_str()
    }
}

/// What the markdown renderer makes of a text.
pub uninterp spec fn markdown_html(text: Seq<char>) -> Seq<char>;

/// Relies on `pulldown_cmark::Parser::new_ext` with every extension on and on
/// `pulldown_cmark::html::push_html`: the HTML depends on the text alone, and
/// an empty text gives an empty HTML.
#[verifier::external_body]
fn render_markdown(text: &str) -> (r: String)
    ensures
        r@ == markdown_html(text@),
        text@.len() == 0 ==> r@.len() == 0,
{
    let parser = pulldown_cmark::Parser::new_ext(text, pulldown_cmark::Options::all());
    let mut out = String::new();
    pulldown_cmark::html::push_html(&mut out, parser);
    out
}

/// A wiki page: its name, its title, the path of its markdown file, and the
/// text of that file when it was there.
pub struct MarkdownContext {
    pub page: String,
    pub title: String,
    pub file_path: String,
    pub file_content: Option<String>,
}

/// The path of the markdown file of page `page` under `wiki_root`.
pub open spec fn markdown_path(wiki_root: Seq<char>, page: Seq<char>) -> Seq<char> {
    joined(wiki_root, page + ".md"@)
}

impl MarkdownContext {
    /// Where the markdown file of page `page` is under `wiki_root`.
    pub fn file_path_for(wiki_root: &str, page: &str) -> (r: String)
        ensures
            r@ == markdown_path(wiki_root@, page@),
    {
        let mut name = page.to_string();
        name.append(".md");
        join_path(wiki_root, name.as_str())
    }

    /// The page `page` under `wiki_root`, with the text its file held, or
    /// nothing when there was no file.
    pub fn new(wiki_root: &str, page: &str, file_content: Option<String>) -> (r: Self)
        ensures
            r.page@ == page@,
            r.title@ == page@,
            r.file_path@ == markdown_path(wiki_root@, page@),
            r.file_content == file_content,
    {
        MarkdownContext {
            page: page.to_string(),
            title: page.to_string(),
            file_path: Self::file_path_for(wiki_root, page),
            file_content,
        }
    }

    /// The page rendered as HTML, when it has a file.
    pub fn html(&self) -> (r: Option<String>)
        ensures
            r matches Some(h) ==> self.file_content matches Some(c) && h@ == markdown_html(c@),
            r is None <==> self.file_content is None,
    {
        match &self.file_content {
            Some(c) => Some(render_markdown(c.as_str())),
            None => None,
        }
    }

    /// Whether the page's file was there when the context was made.
    pub fn file_exists(&self) -> (r: bool)
        ensures
            r == self.file_content is Some,
    {
        self.file_content.is_some()
    }
}

} // verus!
