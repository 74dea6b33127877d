//! Pages grouped by directory, and the previous and next page of a page in
//! that listing.
use crate::text::{replace_all, replaced};
use vstd::prelude::*;
use vstd::view::View as HasView;

verus! {

/// One page: its name, and the path it is reached under.
pub struct View {
    pub file_name: String,
    pub name: String,
}

impl Clone for View {
    fn clone(&self) -> (r: Self)
        ensures
            r == *self,
    {
        View { file_name: self.file_name.clone(), name: self.name.clone() }
    }
}

impl View {
    /// The text form of a page, `{View file_name=<file name>}`.
    pub fn to_string(&self) -> (r: String)
        ensures
            r@ == "{View file_name="@ + self.file_name@ + "}"@,
    {
        let mut r = String::from_str("{View file_name=");
        r.append(self.file_name.as_str());
        r.append("}");
        r
    }
}

/// The pages of one directory, under the directory's name.
pub struct ViewGroup {
    pub key: String,
    pub views: Vec<View>,
}

impl ViewGroup {
    /// An empty group named `key`.
    pub fn new(key: &str) -> (r: Self)
        ensures
            r.key@ == key@,
            r.views@.len() == 0,
    {
        ViewGroup { key: key.to_string(), views: Vec::new() }
    }
}

/// The pages before and after a page.
pub struct PrevNextResult {
    pub prev: Option<View>,
    pub next: Option<View>,
}

impl PrevNextResult {
    /// Neither a previous nor a next page.
    pub fn new() -> (r: Self)
        ensures
            r.prev.is_none(),
            r.next.is_none(),
    {
        PrevNextResult { prev: None, next: None }
    }
}

/// All pages of all groups, group after group.
pub open spec fn all_views(groups: Seq<ViewGroup>) -> Seq<View>
    decreases groups.len(),
{
    if groups.len() == 0 {
        Seq::empty()
    } else {
        all_views(groups.drop_last()) + groups.last().views@
    }
}

/// Where the page reached under `name` stands among `views`: the first page
/// with that path or, when there is none, the last page.
pub open spec fn position_of(views: Seq<View>, name: Seq<char>) -> int
    decreases views.len(),
{
    if views.len() == 0 {
        -1
    } else if views[0].file_name@ == name {
        0
    } else if views.len() == 1 {
        0
    } else {
        1 + position_of(views.drop_first(), name)
    }
}

/// A path written with backslashes, as on Windows, in its slash form.
pub open spec fn slashed(name: Seq<char>) -> Seq<char> {
    replaced(name, "\\"@, "/"@)
}

/// The page before the one reached under `name`.
pub open spec fn prev_of(views: Seq<View>, name: Seq<char>) -> Option<View> {
    let p = position_of(views, name);
    if p >= 1 {
        Some(views[p - 1])
    } else {
        None
    }
}

/// The page after the one reached under `name`.
pub open spec fn next_of(views: Seq<View>, name: Seq<char>) -> Option<View> {
    let p = position_of(views, name);
    if 0 <= p && p + 1 < views.len() {
        Some(views[p + 1])
    } else {
        None
    }
}

/// `position_of` read from the front: `p` is the first match, or the last
/// page if nothing before it matches.
proof fn lemma_position_first(views: Seq<View>, name: Seq<char>, p: int)
    requires
        0 <= p < views.len(),
        forall|k: int| 0 <= k < p ==> views[k].file_name@ != name,
        views[p].file_name@ == name || p == views.len() - 1,
    ensures
        position_of(views, name) == p,
    decreases p,
{
    if p > 0 {
        lemma_position_first(views.drop_first(), name, p - 1);
    }
}

/// Every page of the groups, copied in order.
fn collect_views(groups: &[ViewGroup]) -> (r: Vec<View>)
    ensures
        r@ == all_views(groups@),
{
    let mut out: Vec<View> = Vec::new();
    let mut g: usize = 0;
    while g < groups.len()
        invariant
            g <= groups@.len(),
            out@ == all_views(groups@.subrange(0, g as int)),
        decreases groups@.len() - g,
    {
        let views = &groups[g].views;
        let ghost before = out@;
        let mut k: usize = 0;
        while k < views.len()
            invariant
                k <= views@.len(),
                views@ == groups@[g as int].views@,
                out@ == before + views@.subrange(0, k as int),
            decreases views@.len() - k,
        {
            out.push(views[k].clone());
            assert(out@ =~= before + views@.subrange(0, k + 1));
            k = k + 1;
        }
        assert(groups@.subrange(0, g + 1).drop_last() =~= groups@.subrange(0, g as int));
        assert(views@.subrange(0, k as int) =~= views@);
        g = g + 1;
    }
    assert(groups@.subrange(0, groups@.len() as int) =~= groups@);
    out
}

/// The pages before and after the page reached under `view_name`, in the
/// order of the groups. A backslash in `view_name` counts as a slash. When no
/// page has that path, the last page stands in for it.
pub fn find_prev_next(view_groups: &[ViewGroup], view_name: &str) -> (r: PrevNextResult)
    ensures
        r.prev == prev_of(all_views(view_groups@), slashed(view_name@)),
        r.next == next_of(all_views(view_groups@), slashed(view_name@)),
{
    let name = replace_all(view_name, "\\", "/");
    let views = collect_views(view_groups);
    let n = views.len();
    let mut result = PrevNextResult::new();
    if n == 0 {
        return result;
    }
    let mut p: usize = 0;
    while p + 1 < n && views[p].file_name != name
        invariant
            p < n,
            n == views@.len(),
            forall|k: int| 0 <= k < p ==> views@[k].file_name@ != name@,
        decreases n - p,
    {
        p = p + 1;
    }
    proof {
        lemma_position_first(views@, name@, p as int);
    }
    if p >= 1 {
        result.prev = Some(views[p - 1].clone());
    }
    if p + 1 < n {
        result.next = Some(views[p + 1].clone());
    }
    result
}

/// The groups that have at least one page, in their order.
pub open spec fn with_pages(groups: Seq<ViewGroup>) -> Seq<ViewGroup>
    decreases groups.len(),
{
    if groups.len() == 0 {
        Seq::empty()
    } else {
        with_pages(groups.drop_last()) + if groups.last().views@.len() > 0 {
            seq![groups.last()]
        } else {
            Seq::empty()
        }
    }
}

/// The listing of a wiki: the root's own group first when it has pages, then
/// each subdirectory's group that has pages, in the given order.
pub open spec fn listing(root: ViewGroup, subdirs: Seq<ViewGroup>) -> Seq<ViewGroup> {
    with_pages(seq![root]) + with_pages(subdirs)
}

/// Puts the groups of a wiki in the order they are listed in, leaving out
/// those without pages.
pub fn arrange_groups(root: ViewGroup, subdirs: Vec<ViewGroup>) -> (r: Vec<ViewGroup>)
    ensures
        r@ == listing(root, subdirs@),
{
    let ghost all = subdirs@;
    let ghost head = with_pages(seq![root]);
    assert(seq![root].drop_last() =~= Seq::<ViewGroup>::empty());
    assert(seq![root].last() == root);
    assert(with_pages(Seq::<ViewGroup>::empty()) == Seq::<ViewGroup>::empty());
    let mut out: Vec<ViewGroup> = Vec::new();
    if root.views.len() > 0 {
        out.push(root);
        assert(out@ =~= head);
    } else {
        assert(out@ =~= head);
    }
    let mut rest = subdirs;
    let n = rest.len();
    let mut k: usize = 0;
    while k < n
        invariant
            k <= n,
            n == all.len(),
            rest@ == all.subrange(k as int, n as int),
            out@ == head + with_pages(all.subrange(0, k as int)),
        decreases n - k,
    {
        let g = rest.remove(0);
        assert(rest@ =~= all.subrange(k + 1, n as int));
        assert(all.subrange(0, k + 1).drop_last() =~= all.subrange(0, k as int));
        if g.views.len() > 0 {
            out.push(g);
            assert(out@ =~= head + with_pages(all.subrange(0, k + 1)));
        } else {
            assert(out@ =~= head + with_pages(all.subrange(0, k + 1)));
        }
        k = k + 1;
    }
    assert(all.subrange(0, n as int) =~= all);
    out
}

/// The pattern a markdown file name matches; its first group is the page name.
pub const PAGE_NAME_PATTERN: &'static str = r"(.*)\.md";

/// What the regular-expression engine finds in `text` for `pattern`: nothing
/// when the pattern is not valid or does not match, else the text of its first
/// group, when that group took part in the leftmost match.
pub uninterp spec fn regex_first_group(pattern: Seq<char>, text: Seq<char>) -> Option<Option<Seq<char>>>;

/// Relies on `regex::Regex::new`, `Regex::captures` and `Captures::get`: the
/// leftmost match of `pattern` in `text`, and its first group.
#[verifier::external_body]
fn first_group(pattern: &str, text: &str) -> (r: Option<Option<String>>)
    ensures
        r matches Some(g) ==> regex_first_group(pattern@, text@) == Some(text_of(g)),
        r is None ==> regex_first_group(pattern@, text@) is None,
{
    let re = regex::Regex::new(pattern).ok()?;
    let caps = re.captures(text)?;
    Some(caps.get(1).map(|m| m.as_str().to_string()))
}

/// The text of a group, when it took part.
pub open spec fn text_of(g: Option<String>) -> Option<Seq<char>> {
    match g {
        Some(x) => Some(x@),
        None => None,
    }
}

/// The page name that a capture gives: the group's text, or nothing.
pub open spec fn captured_name(group: Option<Seq<char>>) -> Seq<char> {
    match group {
        Some(g) => g,
        None => Seq::empty(),
    }
}

/// The page made from the outcome of matching a file name, in group
/// `group_key`: none when the name did not match; else the page named by the
/// first group, reached under `<group_key>/<name>`.
pub fn view_from_capture(group_key: &str, capture: Option<Option<String>>) -> (r: Option<View>)
    ensures
        r is Some <==> capture is Some,
        r matches Some(v) ==> capture matches Some(g) && v.name@ == captured_name(text_of(g))
            && v.file_name@ == group_key@ + "/"@ + v.name@,
{
    match capture {
        None => None,
        Some(g) => {
            let name = match g {
                Some(x) => x,
                None => String::new(),
            };
            let mut file_name = group_key.to_string();
            file_name.append("/");
            file_name.append(name.as_str());
            Some(View { file_name, name })
        },
    }
}

/// The page for the file `file_name` of the group `group_key`, when the file
/// is a markdown file.
pub fn view_for_file(group_key: &str, file_name: &str) -> (r: Option<View>)
    ensures
        r is Some <==> regex_first_group(PAGE_NAME_PATTERN@, file_name@) is Some,
        r matches Some(v) ==> regex_first_group(PAGE_NAME_PATTERN@, file_name@) matches Some(g)
            && v.name@ == captured_name(g) && v.file_name@ == group_key@ + "/"@ + v.name@,
{
    let capture = first_group(PAGE_NAME_PATTERN, file_name);
    view_from_capture(group_key, capture)
}

} // verus!
