use vstd::prelude::*;
use vstd::string::*;
use crate::repository::{opt_str, string_views};
use crate::text::{drop_tail, ends_with, has_suffix, push_path, pushed_path, str_eq, texts};

verus! {

/// The files that are served from the program itself.
#[derive(Clone, Copy, Debug, PartialEq, Eq, Structural)]
pub enum StaticAsset {
    Normalize,
    Styles,
    Logo,
    Favicon,
    Javascript,
    /// A style sheet of the site's own; empty unless the site brings one.
    CustomCss,
    /// A script of the site's own; empty unless the site brings one.
    CustomJs,
}

/// What can be asked of a repository.
#[derive(Clone, Copy, Debug, PartialEq, Eq, Structural)]
pub enum Operation {
    Tree,
    Log,
    Blob,
    Commit,
    Refs,
    Raw,
    Info,
    Head,
    Objects,
}

/// Where a request path leads.
#[derive(Debug, PartialEq, Eq)]
pub enum Route<'a> {
    /// The list of all repositories.
    Root,
    /// A file served from the program itself.
    Static(StaticAsset),
    /// The repositories of one user.
    User(&'a str),
    /// The front page of a project.
    Project { user: &'a str, project: &'a str },
    /// A project asked for by the name of its repository directory: the
    /// address without `.git` has it.
    DotGit(String),
    /// One operation on a project.
    Page {
        operation: Operation,
        user: &'a str,
        project: &'a str,
        target: Option<&'a str>,
        rest: Option<&'a [&'a str]>,
    },
    /// Nothing is served under the path.
    NotFound,
}

pub enum RouteView {
    Root,
    Static(StaticAsset),
    User(Seq<char>),
    Project { user: Seq<char>, project: Seq<char> },
    DotGit(Seq<char>),
    Page {
        operation: Operation,
        user: Seq<char>,
        project: Seq<char>,
        target: Option<Seq<char>>,
        rest: Option<Seq<Seq<char>>>,
    },
    NotFound,
}

impl<'a> View for Route<'a> {
    type V = RouteView;

    open spec fn view(&self) -> RouteView {
        match self {
            Route::Root => RouteView::Root,
            Route::Static(asset) => RouteView::Static(*asset),
            Route::User(user) => RouteView::User(user@),
            Route::Project { user, project } => RouteView::Project { user: user@, project: project@ },
            Route::DotGit(location) => RouteView::DotGit(location@),
            Route::Page { operation, user, project, target, rest } => RouteView::Page {
                operation: *operation,
                user: user@,
                project: project@,
                target: opt_str(*target),
                rest: match rest {
                    Some(rest) => Some(texts(rest@)),
                    None => None,
                },
            },
            Route::NotFound => RouteView::NotFound,
        }
    }
}

/// The file of the program that goes by a name, if any does.
pub open spec fn static_asset_for(name: Seq<char>) -> Option<StaticAsset> {
    if name == "normalize.css"@ {
        Some(StaticAsset::Normalize)
    } else if name == "styles.css"@ {
        Some(StaticAsset::Styles)
    } else if name == "logo.svg"@ {
        Some(StaticAsset::Logo)
    } else if name == "favicon.ico"@ {
        Some(StaticAsset::Favicon)
    } else if name == "javascript.js"@ {
        Some(StaticAsset::Javascript)
    } else if name == "custom.css"@ {
        Some(StaticAsset::CustomCss)
    } else if name == "custom.js"@ {
        Some(StaticAsset::CustomJs)
    } else {
        None
    }
}

/// The operation that goes by a name, if any does.
pub open spec fn operation_for(name: Seq<char>) -> Option<Operation> {
    if name == "tree"@ {
        Some(Operation::Tree)
    } else if name == "log"@ {
        Some(Operation::Log)
    } else if name == "blob"@ {
        Some(Operation::Blob)
    } else if name == "commit"@ {
        Some(Operation::Commit)
    } else if name == "refs"@ {
        Some(Operation::Refs)
    } else if name == "raw"@ {
        Some(Operation::Raw)
    } else if name == "info"@ {
        Some(Operation::Info)
    } else if name == "HEAD"@ {
        Some(Operation::Head)
    } else if name == "objects"@ {
        Some(Operation::Objects)
    } else {
        None
    }
}

/// A project's name as its pages go by it: without `.git` at the end.
pub open spec fn without_git(project: Seq<char>) -> Seq<char> {
    if has_suffix(project, ".git"@) {
        project.subrange(0, project.len() - 4)
    } else {
        project
    }
}

/// Where the segments of a request path lead.
///
/// Nothing leads to the root; one segment to a file of the program or else
/// to a user; two to a project; three and more to an operation on a
/// project, named by the third, with the fourth as its target and what
/// follows as the rest.
pub open spec fn routed(parts: Seq<Seq<char>>) -> RouteView {
    if parts.len() == 0 {
        RouteView::Root
    } else if parts.len() == 1 {
        match static_asset_for(parts[0]) {
            Some(asset) => RouteView::Static(asset),
            None => RouteView::User(parts[0]),
        }
    } else if parts.len() == 2 {
        if has_suffix(parts[1], ".git"@) {
            RouteView::DotGit("/"@ + parts[0] + "/"@ + without_git(parts[1]))
        } else {
            RouteView::Project { user: parts[0], project: parts[1] }
        }
    } else {
        match operation_for(parts[2]) {
            Some(operation) => RouteView::Page {
                operation,
                user: parts[0],
                project: without_git(parts[1]),
                target: if parts.len() > 3 {
                    Some(parts[3])
                } else {
                    None
                },
                rest: if parts.len() > 3 {
                    Some(parts.subrange(4, parts.len() as int))
                } else {
                    None
                },
            },
            None => RouteView::NotFound,
        }
    }
}

/// The file of the program that goes by a name, if any does.
pub fn static_asset(file_name: &str) -> (r: Option<StaticAsset>)
    ensures
        r == static_asset_for(file_name@),
{
    if str_eq(file_name, "normalize.css") {
        Some(StaticAsset::Normalize)
    } else if str_eq(file_name, "styles.css") {
        Some(StaticAsset::Styles)
    } else if str_eq(file_name, "logo.svg") {
        Some(StaticAsset::Logo)
    } else if str_eq(file_name, "favicon.ico") {
        Some(StaticAsset::Favicon)
    } else if str_eq(file_name, "javascript.js") {
        Some(StaticAsset::Javascript)
    } else if str_eq(file_name, "custom.css") {
        Some(StaticAsset::CustomCss)
    } else if str_eq(file_name, "custom.js") {
        Some(StaticAsset::CustomJs)
    } else {
        None
    }
}

/// The operation that goes by a name, if any does.
pub fn operation(page_name: &str) -> (r: Option<Operation>)
    ensures
        r == operation_for(page_name@),
{
    if str_eq(page_name, "tree") {
        Some(Operation::Tree)
    } else if str_eq(page_name, "log") {
        Some(Operation::Log)
    } else if str_eq(page_name, "blob") {
        Some(Operation::Blob)
    } else if str_eq(page_name, "commit") {
        Some(Operation::Commit)
    } else if str_eq(page_name, "refs") {
        Some(Operation::Refs)
    } else if str_eq(page_name, "raw") {
        Some(Operation::Raw)
    } else if str_eq(page_name, "info") {
        Some(Operation::Info)
    } else if str_eq(page_name, "HEAD") {
        Some(Operation::Head)
    } else if str_eq(page_name, "objects") {
        Some(Operation::Objects)
    } else {
        None
    }
}

/// A project's name without `.git` at the end.
pub fn strip_git(project: &str) -> (r: &str)
    ensures
        r@ == without_git(project@),
{
    if ends_with(project, ".git") {
        proof {
            reveal_strlit(".git");
        }
        drop_tail(project, 4)
    } else {
        project
    }
}

/// Decides where the segments of a request path lead.
pub fn route<'a>(parts: &'a [&'a str]) -> (r: Route<'a>)
    ensures
        r@ == routed(texts(parts@)),
{
    let count = parts.len();
    if count == 0 {
        Route::Root
    } else if count == 1 {
        match static_asset(parts[0]) {
            Some(asset) => Route::Static(asset),
            None => Route::User(parts[0]),
        }
    } else if count == 2 {
        if ends_with(parts[1], ".git") {
            let mut location = "/".to_owned();
            location.append(parts[0]);
            location.append("/");
            location.append(strip_git(parts[1]));
            Route::DotGit(location)
        } else {
            Route::Project { user: parts[0], project: parts[1] }
        }
    } else {
        match operation(parts[2]) {
            Some(operation) => {
                let target = if count > 3 {
                    Some(parts[3])
                } else {
                    None
                };
                let rest = if count > 3 {
                    let tail = &parts[4..count];
                    proof {
                        assert(texts(tail@) =~= texts(parts@).subrange(4, count as int));
                    }
                    Some(tail)
                } else {
                    None
                };
                Route::Page {
                    operation,
                    user: parts[0],
                    project: strip_git(parts[1]),
                    target,
                    rest,
                }
            },
            None => Route::NotFound,
        }
    }
}

/// The parts of a path, as std's `Path` splits it on this platform: first
/// the root, where the path starts at it, then the names.
pub uninterp spec fn components_of(path: Seq<char>) -> Seq<Seq<char>>;

/// Splits a path into its parts.
///
/// Trusted: `Path::components` of std, walked to its end. The result is a
/// function of the text alone.
#[verifier::external_body]
fn components(path: &str) -> (r: Vec<String>)
    ensures
        string_views(r@) == components_of(path@),
{
    std::path::Path::new(path).components().map(
        |part| part.as_os_str().to_string_lossy().into_owned(),
    ).collect()
}

/// The segments of a request path: its parts without the first, which is
/// the root.
pub open spec fn segments_of(uri_path: Seq<char>) -> Seq<Seq<char>> {
    if components_of(uri_path).len() > 0 {
        components_of(uri_path).skip(1)
    } else {
        Seq::empty()
    }
}

/// Splits a request path into its segments.
pub fn request_parts(uri_path: &str) -> (r: Vec<String>)
    ensures
        string_views(r@) == segments_of(uri_path@),
{
    let mut parts = components(uri_path);
    if parts.len() > 0 {
        let ghost all = parts@;
        let _ = parts.remove(0);
        proof {
            assert(string_views(parts@) =~= string_views(all).skip(1));
        }
    } else {
        proof {
            assert(string_views(parts@) =~= Seq::<Seq<char>>::empty());
        }
    }
    parts
}

/// The directory that holds every user's repositories: the first argument
/// of the program.
pub fn get_git_root(args: &[String]) -> (r: String)
    requires
        args@.len() > 1,
    ensures
        r@ == pushed_path(Seq::empty(), args@[1]@),
{
    let empty = "";
    proof {
        reveal_strlit("");
        assert(empty@ =~= Seq::<char>::empty());
    }
    push_path(empty, args[1].as_str())
}

/// Where a file of the site's own would lie.
pub open spec fn static_path_of(file_name: Seq<char>) -> Seq<char> {
    "static/"@ + file_name
}

/// Where a file of the site's own would lie.
pub fn static_path(file_name: &str) -> (r: String)
    ensures
        r@ == static_path_of(file_name@),
{
    let mut path = "static/".to_owned();
    path.append(file_name);
    path
}

/// The place of a file of the site's own, given whether one lies there.
pub fn check_static_exists(file_name: &str, exists: bool) -> (r: Option<String>)
    ensures
        r is Some <==> exists,
        r matches Some(path) ==> path@ == static_path_of(file_name@),
{
    if exists {
        Some(static_path(file_name))
    } else {
        None
    }
}

} // verus!
