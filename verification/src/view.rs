//! What the templates show that is not plain data: addresses and class
//! names worked out from it.

use vstd::prelude::*;
use vstd::string::*;
use crate::commit::{Commit, CommitView};
use crate::kind::TreeEntryKind;
use crate::oid::ObjectId;
use crate::page::Page;
use crate::text::opt_text;
use crate::tree::{TreeEntry, TreeEntryView};

verus! {

/// One entry of a project's navigation.
#[derive(Debug, PartialEq, Eq)]
pub struct NavItem {
    pub label: &'static str,
    pub href: String,
    /// Whether the entry leads to the page that is shown.
    pub active: bool,
}

pub struct NavItemView {
    pub label: Seq<char>,
    pub href: Seq<char>,
    pub active: bool,
}

impl View for NavItem {
    type V = NavItemView;

    open spec fn view(&self) -> NavItemView {
        NavItemView { label: self.label@, href: self.href@, active: self.active }
    }
}

/// The address of a commit's page.
pub open spec fn commit_url_of(repo_url: Seq<char>, id: Seq<char>) -> Seq<char> {
    repo_url + "/commit/"@ + id
}

/// The address of the listing of a reference's root.
pub open spec fn ref_url_of(repo_url: Seq<char>, refname: Seq<char>) -> Seq<char> {
    repo_url + "/tree/"@ + refname
}

/// The address under which mail goes to a person.
pub open spec fn mailto_of(email: Seq<char>) -> Seq<char> {
    "mailto:"@ + email
}

/// What marks up a fenced block of code in a readme, once highlighted.
pub open spec fn code_block_of(token: Seq<char>, highlighted: Seq<char>) -> Seq<char> {
    "<pre lang="@ + token + "><code>"@ + highlighted + "</pre></code>"@
}

/// The navigation of a project, as the page `page` shows it.
pub open spec fn nav_of(repo_url: Seq<char>, page: Page) -> Seq<NavItemView> {
    seq![
        NavItemView { label: "tree"@, href: repo_url + "/"@, active: page == Page::Tree },
        NavItemView { label: "log"@, href: repo_url + "/log"@, active: page == Page::Log },
        NavItemView { label: "refs"@, href: repo_url + "/refs"@, active: page == Page::Refs },
    ]
}

/// The views of a list of navigation entries.
pub open spec fn nav_views(items: Seq<NavItem>) -> Seq<NavItemView> {
    Seq::new(items.len(), |i: int| items[i]@)
}

/// The address of a commit's page.
pub fn commit_url(repo_url: &str, id: &ObjectId) -> (r: String)
    ensures
        r@ == commit_url_of(repo_url@, id@),
{
    let mut url = repo_url.to_owned();
    url.append("/commit/");
    url.append(id.as_str());
    url
}

/// The address of the listing of a reference's root.
pub fn ref_url(repo_url: &str, refname: &str) -> (r: String)
    ensures
        r@ == ref_url_of(repo_url@, refname@),
{
    let mut url = repo_url.to_owned();
    url.append("/tree/");
    url.append(refname);
    url
}

/// The address under which mail goes to a person.
pub fn mailto(email: &str) -> (r: String)
    ensures
        r@ == mailto_of(email@),
{
    let mut url = "mailto:".to_owned();
    url.append(email);
    url
}

/// The class of an entry's name in a listing.
pub fn entry_name_class(kind: TreeEntryKind) -> (r: &'static str)
    ensures
        r@ == (match kind {
            TreeEntryKind::Blob => "tree-entry-name tree-entry-name--blob"@,
            TreeEntryKind::Tree => "tree-entry-name tree-entry-name--tree"@,
        }),
{
    match kind {
        TreeEntryKind::Blob => "tree-entry-name tree-entry-name--blob",
        TreeEntryKind::Tree => "tree-entry-name tree-entry-name--tree",
    }
}

/// The class of an entry of the navigation.
pub fn nav_item_class(active: bool) -> (r: &'static str)
    ensures
        r@ == (if active {
            "project-nav-item project-nav-item--active"@
        } else {
            "project-nav-item"@
        }),
{
    if active {
        "project-nav-item project-nav-item--active"
    } else {
        "project-nav-item"
    }
}

/// Whether two pages are the same.
fn same_page(a: Page, b: Page) -> (r: bool)
    ensures
        r == (a == b),
{
    a == b
}

/// The navigation of a project, as the page `page` shows it.
pub fn project_nav(repo_url: &str, page: Page) -> (r: Vec<NavItem>)
    ensures
        nav_views(r@) == nav_of(repo_url@, page),
{
    let mut tree = repo_url.to_owned();
    tree.append("/");
    let mut log = repo_url.to_owned();
    log.append("/log");
    let mut refs = repo_url.to_owned();
    refs.append("/refs");
    let mut items: Vec<NavItem> = Vec::new();
    items.push(NavItem { label: "tree", href: tree, active: same_page(page, Page::Tree) });
    items.push(NavItem { label: "log", href: log, active: same_page(page, Page::Log) });
    items.push(NavItem { label: "refs", href: refs, active: same_page(page, Page::Refs) });
    proof {
        assert(nav_views(items@) =~= nav_of(repo_url@, page));
    }
    items
}

/// What marks up a fenced block of code in a readme, once highlighted.
pub fn code_block_html(token: &str, highlighted: &str) -> (r: String)
    ensures
        r@ == code_block_of(token@, highlighted@),
{
    let mut html = "<pre lang=".to_owned();
    html.append(token);
    html.append("><code>");
    html.append(highlighted);
    html.append("</pre></code>");
    html
}

/// Whether a fenced block of code is left as it is: one that is marked as
/// plain text.
pub fn is_plain_block(token: &str) -> (r: bool)
    ensures
        r == (token@ == "text"@),
{
    crate::text::str_eq(token, "text")
}

impl TreeEntryView {
    /// Where the entry's name leads: to its address, or nowhere where it
    /// has none.
    pub open spec fn href(self) -> Seq<char> {
        match self.url {
            Some(url) => url,
            None => Seq::empty(),
        }
    }

    /// Where the entry's summary leads: to the commit credited with it, or
    /// nowhere where there is none.
    pub open spec fn commit_href(self, repo_url: Seq<char>) -> Seq<char> {
        match self.last_commit {
            Some(commit) => commit_url_of(repo_url, commit.id),
            None => Seq::empty(),
        }
    }
}

impl TreeEntry {
    /// Where the entry's name leads.
    pub fn href(&self) -> (r: String)
        ensures
            r@ == self@.href(),
    {
        match &self.url {
            Some(url) => url.clone(),
            None => String::new(),
        }
    }

    /// Where the entry's summary leads.
    pub fn commit_href(&self, repo_url: &str) -> (r: String)
        ensures
            r@ == self@.commit_href(repo_url@),
    {
        match &self.last_commit {
            Some(commit) => commit_url(repo_url, &commit.id),
            None => String::new(),
        }
    }
}

impl CommitView {
    /// The summary under which a commit is shown in a log.
    pub open spec fn shown_summary(self) -> Seq<char> {
        match self.summary {
            Some(summary) => summary,
            None => "yeet"@,
        }
    }
}

impl Commit {
    /// The summary under which the commit is shown in a log.
    pub fn shown_summary(&self) -> (r: &str)
        ensures
            r@ == self@.shown_summary(),
    {
        match &self.summary {
            Some(summary) => summary.as_str(),
            None => "yeet",
        }
    }
}

} // verus!
