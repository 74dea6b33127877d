use simplewiki::pages::{
    get_page_url, join_path, page_url_from_relative, path_no_markdown, MarkdownContext, PageUrlError, StaticFile,
};
use simplewiki::text::replace_all;

#[test]
fn replace_all_is_left_to_right() {
    assert_eq!(replace_all("aaa", "aa", "b"), "ba");
    assert_eq!(replace_all("a\\b\\c", "\\", "/"), "a/b/c");
    assert_eq!(replace_all("", "x", "y"), "");
    assert_eq!(replace_all("abc", "", "y"), "abc");
    assert_eq!(replace_all("héllo", "é", "e"), "hello");
}

#[test]
fn markdown_suffix_is_removed() {
    assert_eq!(path_no_markdown("notes/todo.md"), "notes/todo");
    assert_eq!(path_no_markdown("a.md/b.md"), "a/b");
    assert_eq!(path_no_markdown("plain"), "plain");
}

#[test]
fn page_url_uses_slashes_and_drops_markdown() {
    assert_eq!(page_url_from_relative("dir\\page.md"), "dir/page");
    assert_eq!(page_url_from_relative("x.md"), "x");
}

#[test]
fn page_url_needs_a_prefix() {
    assert_eq!(get_page_url("/wiki", "/wiki/dir/page.md"), Ok("dir/page".to_string()));
    assert_eq!(get_page_url("/other", "/wiki/page.md"), Err(PageUrlError::NotUnderRoot));
}

#[test]
fn paths_join_like_std() {
    assert_eq!(join_path("a", "b"), "a/b");
    assert_eq!(join_path("a/", "b"), "a/b");
    assert_eq!(join_path("", "b"), "b");
    assert_eq!(join_path("a", "/b"), "/b");
}

#[test]
fn static_files_live_under_static() {
    assert_eq!(StaticFile::new("css/site.css").path(), "static/css/site.css");
}

#[test]
fn markdown_context_of_a_page() {
    let c = MarkdownContext::new("wiki", "notes/todo", Some("# Title".to_string()));
    assert_eq!(c.page, "notes/todo");
    assert_eq!(c.title, "notes/todo");
    assert_eq!(c.file_path, "wiki/notes/todo.md");
    assert!(c.file_exists());
    let html = c.html().unwrap();
    assert!(html.contains("<h1>Title</h1>"));
    assert_eq!(MarkdownContext::file_path_for("wiki", "p"), "wiki/p.md");
}

#[test]
fn missing_page_has_no_html() {
    let c = MarkdownContext::new("wiki", "nothing", None);
    assert!(!c.file_exists());
    assert!(c.html().is_none());
}
