use git2::Tree as GitTree;
use vstd::prelude::*;
use vstd::string::*;
use vstd::utf8::*;
use crate::commit::Commit;
use crate::diff::{FilePatch, PatchLineView, patch_views, segmented};
use crate::mime::{MimeKind, guess_mime, mime_for};
use crate::missing::{Missing, or_nowhere};
use crate::oid::{ObjectId, zero_hex};
use crate::order::{
    Ranked,
    arrange,
    arranged,
    lemma_picks_are_distinct,
    reversed,
    stable_order,
    stable_order_of,
};
use crate::repository::{Reference, ReferenceView, Repository, project_path, reference_views};
use crate::text::{
    ends_with,
    extension,
    extension_of,
    file_name,
    file_name_of,
    file_stem_of,
    from_utf8,
    has_suffix,
    join,
    joined,
    opt_text,
    parent,
    parent_of,
    push_path,
    pushed_path,
    str_eq,
    texts,
};
use crate::tree::{Tree, is_listing, is_subtree, lists_tree, tree_url};
use crate::user::User;

verus! {

/// The pages of the site, as the navigation knows them.
#[derive(Clone, Copy, Debug, PartialEq, Eq, Structural)]
pub enum Page {
    Root,
    User,
    Tree,
    Log,
    Blob,
    Commit,
    Refs,
}

/// A directory listing, ready to be shown.
pub struct TreePage<'a> {
    pub tree: Tree<'a>,
    /// The text of the directory's readme, if it has one that is text.
    pub readme: Option<String>,
    pub title: String,
}

/// A history, ready to be shown.
pub struct LogPage {
    /// Newest first.
    pub commits: Vec<Commit>,
    pub title: String,
}

/// One commit and what it changed, ready to be shown.
pub struct CommitPage {
    pub commit: Commit,
    pub patches: Vec<FilePatch>,
    pub title: String,
}

/// A text file, ready to be shown.
pub struct BlobPage {
    /// The directory of the file, below the root.
    pub directory: String,
    /// Where the file is served as it is.
    pub raw_url: String,
    /// Where the directory of the file is listed.
    pub directory_url: String,
    pub file_name: String,
    /// By what the file's language is told: its extension, or else its
    /// name.
    pub token: String,
    pub text: String,
    pub title: String,
}

/// The tags and branches of a repository, ready to be shown.
pub struct RefsPage {
    pub tags: Vec<String>,
    pub branches: Vec<String>,
    pub title: String,
}

/// A file to be handed out as it is.
pub struct RawFile {
    pub mime: MimeKind,
    pub bytes: Vec<u8>,
}

/// What a request below a repository's `objects` asks for.
#[derive(Debug, PartialEq, Eq)]
pub enum ObjectsPlan {
    /// The list of the repository's packs.
    PackInfo,
    /// The file at this place.
    File(String),
}

/// The text of the segments of a path, or nothing where there are none.
pub open spec fn rest_text(rest: Option<&[&str]>) -> Seq<char> {
    match rest {
        Some(rest) => joined(texts(rest@), "/"@),
        None => Seq::empty(),
    }
}

/// The text of an optional target, or nothing.
pub open spec fn target_text(target: Option<&str>) -> Seq<char> {
    match target {
        Some(target) => target@,
        None => Seq::empty(),
    }
}

/// Where the view `page` serves what was asked for.
pub open spec fn redirect_url(
    repo_url: Seq<char>,
    page: Seq<char>,
    target: Option<&str>,
    rest: Option<&[&str]>,
) -> Seq<char> {
    repo_url + "/"@ + page + "/"@ + target_text(target) + "/"@ + rest_text(rest)
}

pub open spec fn tree_title(rest: Option<&[&str]>, user: Seq<char>, project: Seq<char>, at: Seq<char>) -> Seq<
    char,
> {
    (match rest {
        Some(rest) => joined(texts(rest@), "/"@) + " -"@,
        None => Seq::empty(),
    }) + " "@ + user + "/"@ + project + "@"@ + at
}

pub open spec fn log_title(user: Seq<char>, project: Seq<char>, at: Seq<char>) -> Seq<char> {
    "Log - "@ + user + "/"@ + project + " @ "@ + at
}

pub open spec fn commit_title(
    summary: Option<Seq<char>>,
    user: Seq<char>,
    project: Seq<char>,
    target: Seq<char>,
) -> Seq<char> {
    (match summary {
        Some(summary) => summary,
        None => "Commit"@,
    }) + " - "@ + user + "/"@ + project + "@"@ + target
}

pub open spec fn blob_title(
    file_name: Seq<char>,
    directory: Seq<char>,
    user: Seq<char>,
    project: Seq<char>,
    at: Seq<char>,
) -> Seq<char> {
    file_name + " ("@ + directory + ") - "@ + user + "/"@ + project + "@"@ + at
}

pub open spec fn refs_title(user: Seq<char>, project: Seq<char>) -> Seq<char> {
    "Refs - "@ + user + "/"@ + project
}

/// The name under which a page says where it stands: the target asked
/// for, or else the full name of HEAD.
pub open spec fn standing_at(target: Option<&str>, head: ReferenceView) -> Seq<char> {
    match target {
        Some(target) => target@,
        None => match head.name {
            Some(name) => name,
            None => Seq::empty(),
        },
    }
}

/// The first place in a log of the commit with the id `target`.
pub open spec fn is_located(log: Seq<Commit>, target: Seq<char>, at: int) -> bool {
    &&& 0 <= at < log.len()
    &&& log[at].id@ == target
    &&& forall|k: int| 0 <= k < at ==> (#[trigger] log[k]).id@ != target
}

/// The path that the segments after the target spell, if there are any.
pub open spec fn subpath_of(rest: Option<&[&str]>) -> Option<Seq<char>> {
    match rest {
        Some(rest) => Some(joined(texts(rest@), "/"@)),
        None => None,
    }
}

/// The directory of one user below the root of all repositories.
pub fn get_user_root(root: &str, name: &str) -> (r: String)
    ensures
        r@ == pushed_path(root@, name@),
{
    push_path(root, name)
}

/// Opens the repository of a user's project below `root`.
pub fn get_repo(root: &str, name: &str, project_name: &str, description: Option<String>) -> (r:
    Result<Repository, Missing>)
    ensures
        r matches Err(missing) ==> missing == Missing::Nowhere,
        r matches Ok(repo) ==> {
            &&& repo.user_name@ == name@
            &&& repo.path@ == project_path(root@, name@, project_name@)
            &&& Some(repo.name@) == file_stem_of(repo.path@)
            &&& opt_text(repo.description) == opt_text(description)
        },
{
    match Repository::open_user_project(root, name, project_name, description) {
        Ok(repo) => Ok(repo),
        Err(_) => Err(Missing::Nowhere),
    }
}

/// The path that the segments after the target spell.
pub fn get_path(rest: Option<&[&str]>) -> (r: Option<String>)
    ensures
        r is Some <==> rest is Some,
        r matches Some(path) ==> path@ == rest_text(rest),
{
    match rest {
        Some(rest) => Some(join(rest, "/")),
        None => None,
    }
}

/// The hint that what was asked for is served by the view `page`.
pub fn redirect(repo_url: &str, page: &str, target: Option<&str>, rest: Option<&[&str]>) -> (r:
    Missing)
    ensures
        r.location() == Some(redirect_url(repo_url@, page@, target, rest)),
{
    let mut location = repo_url.to_owned();
    location.append("/");
    location.append(page);
    location.append("/");
    match target {
        Some(target) => {
            location.append(target);
        },
        None => {
            proof {
                assert(location@ + Seq::<char>::empty() =~= location@);
            }
        },
    }
    location.append("/");
    match rest {
        Some(rest) => {
            let path = join(rest, "/");
            location.append(path.as_str());
        },
        None => {
            proof {
                assert(location@ + Seq::<char>::empty() =~= location@);
            }
        },
    }
    Missing::Elsewhere(location)
}

/// A file asked for through the directory view is answered with the
/// address at which the file view has it.
pub proof fn lemma_file_in_directory_view_goes_to_file_view(
    repo_url: Seq<char>,
    target: Option<&str>,
    rest: Option<&[&str]>,
)
    ensures
        redirect_url(repo_url, "blob"@, target, rest) == repo_url + "/blob/"@ + target_text(target)
            + "/"@ + rest_text(rest),
{
    reveal_strlit("/blob/");
    reveal_strlit("/");
    reveal_strlit("blob");
    assert("/"@ + "blob"@ + "/"@ =~= "/blob/"@);
    assert(repo_url + "/"@ + "blob"@ + "/"@ =~= repo_url + "/blob/"@);
}

/// Where a page says it stands.
fn standing(target: Option<&str>, head: &Reference) -> (r: String)
    ensures
        r@ == standing_at(target, head@),
{
    match target {
        Some(target) => target.to_owned(),
        None => match &head.name {
            Some(name) => name.clone(),
            None => {
                let empty = String::new();
                empty
            },
        },
    }
}

/// Where a page of a repository says it stands: at the target asked for,
/// or else at HEAD. HEAD is read only where no target is given.
fn standing_of(repo: &Repository, target: Option<&str>) -> (r: Result<String, Missing>)
    ensures
        r matches Err(missing) ==> missing == Missing::Nowhere,
        target matches Some(asked) ==> r matches Ok(at) && at@ == asked@,
        r matches Ok(at) ==> exists|head: ReferenceView| at@ == #[trigger] standing_at(target, head),
{
    match target {
        Some(asked) => {
            let at = asked.to_owned();
            proof {
                let any = ReferenceView {
                    name: None,
                    shorthand: None,
                    target: None,
                    is_branch: false,
                    is_tag: false,
                };
                assert(at@ == standing_at(target, any));
            }
            Ok(at)
        },
        None => {
            let head = repo.head()?;
            let at = standing(None, &head);
            proof {
                assert(at@ == standing_at(target, head@));
            }
            Ok(at)
        },
    }
}

/// Appends `user/project` to a title.
fn append_project(title: &mut String, repo: &Repository)
    ensures
        final(title)@ == old(title)@ + repo.user_name@ + "/"@ + repo.name@,
{
    title.append(repo.user_name.as_str());
    title.append("/");
    title.append(repo.name.as_str());
}

/// The listing of a directory of a project.
///
/// Where the path leads to a file, the answer is a hint to the address at
/// which the file view has it.
pub fn tree<'a>(repo: &'a Repository, target: Option<&str>, rest: Option<&[&str]>) -> (r: Result<
    TreePage<'a>,
    Missing,
>)
    ensures
        r matches Err(missing) ==> missing == Missing::Nowhere || (is_subtree(subpath_of(rest))
            && missing.location() == Some(redirect_url(repo.url_text(), "blob"@, target, rest))),
        r matches Ok(page) ==> {
            &&& target matches Some(asked) ==> page.tree.refname@ == asked@
            &&& exists|history: Seq<Commit>|
                is_listing(
                    page.tree@,
                    page.tree.entries@,
                    repo.url_text(),
                    page.tree.refname@,
                    subpath_of(rest),
                    page.tree.id@,
                    history,
                )
            &&& exists|handle: GitTree<'_>|
                #[trigger] lists_tree(
                    page.tree.entries@,
                    handle,
                    repo.url_text(),
                    page.tree.refname@,
                    subpath_of(rest),
                )
            &&& exists|head: ReferenceView|
                page.title@ == tree_title(rest, repo.user_name@, repo.name@, standing_at(target, head))
        },
{
    let subpath = get_path(rest);
    let listed = match &subpath {
        Some(path) => repo.tree(target, Some(path.as_str())),
        None => repo.tree(target, None),
    };
    let tree = match listed {
        Ok(tree) => tree,
        Err(Missing::Elsewhere(_)) => {
            let url = repo.url();
            return Err(redirect(url.as_str(), "blob", target, rest));
        },
        Err(Missing::Nowhere) => {
            return Err(Missing::Nowhere);
        },
    };
    let readme = match repo.readme(&tree) {
        Ok(text) => Some(text.to_owned()),
        Err(_) => None,
    };
    let at = standing_of(repo, target)?;
    let ghost head = choose|head: ReferenceView| at@ == standing_at(target, head);
    let mut title = match rest {
        Some(rest) => {
            let mut prefix = join(rest, "/");
            prefix.append(" -");
            prefix
        },
        None => String::new(),
    };
    title.append(" ");
    append_project(&mut title, repo);
    title.append("@");
    title.append(at.as_str());
    proof {
        assert(title@ =~= tree_title(rest, repo.user_name@, repo.name@, standing_at(target, head)));
        assert(opt_text(subpath) == subpath_of(rest));
    }
    Ok(TreePage { tree, readme, title })
}

/// The front page of a project: the listing of its root at HEAD.
pub fn project<'a>(repo: &'a Repository) -> (r: Result<TreePage<'a>, Missing>)
    ensures
        r matches Err(missing) ==> missing == Missing::Nowhere,
        r matches Ok(page) ==> {
            &&& !page.tree.subtree
            &&& exists|history: Seq<Commit>|
                is_listing(
                    page.tree@,
                    page.tree.entries@,
                    repo.url_text(),
                    page.tree.refname@,
                    None,
                    page.tree.id@,
                    history,
                )
            &&& exists|handle: GitTree<'_>|
                #[trigger] lists_tree(
                    page.tree.entries@,
                    handle,
                    repo.url_text(),
                    page.tree.refname@,
                    None,
                )
            &&& exists|head: ReferenceView|
                page.title@ == tree_title(None, repo.user_name@, repo.name@, standing_at(None, head))
        },
{
    let front = tree(repo, None, None);
    proof {
        assert(subpath_of(None) == None::<Seq<char>>);
        assert(!is_subtree(None));
    }
    front
}

/// The history of a reference of a project.
pub fn get_log(repo: &Repository, reference: Option<&str>) -> (r: Result<Vec<Commit>, Missing>)
    ensures
        r matches Err(missing) ==> missing == Missing::Nowhere,
{
    match repo.log(reference) {
        Ok(log) => Ok(log),
        Err(_) => Err(Missing::Nowhere),
    }
}

/// The history of a reference of a project, newest first.
pub fn log(repo: &Repository, target: Option<&str>) -> (r: Result<LogPage, Missing>)
    ensures
        r matches Err(missing) ==> missing == Missing::Nowhere,
        r matches Ok(page) ==> exists|head: ReferenceView|
            page.title@ == log_title(repo.user_name@, repo.name@, standing_at(target, head)),
{
    let commits = get_log(repo, target)?;
    let at = standing_of(repo, target)?;
    let ghost head = choose|head: ReferenceView| at@ == standing_at(target, head);
    let mut title = "Log - ".to_owned();
    append_project(&mut title, repo);
    title.append(" @ ");
    title.append(at.as_str());
    proof {
        assert(title@ =~= log_title(repo.user_name@, repo.name@, standing_at(target, head)));
    }
    Ok(LogPage { commits, title })
}

/// Finds the commit with the id `target` in a log: the first one, should
/// there be several.
pub fn locate(log: &Vec<Commit>, target: &str) -> (r: Option<usize>)
    ensures
        r matches Some(at) ==> is_located(log@, target@, at as int),
        r is None ==> forall|k: int| 0 <= k < log@.len() ==> (#[trigger] log@[k]).id@ != target@,
{
    let mut i: usize = 0;
    while i < log.len()
        invariant
            i <= log@.len(),
            forall|k: int| 0 <= k < i ==> (#[trigger] log@[k]).id@ != target@,
        decreases log@.len() - i,
    {
        if str_eq(log[i].id.as_str(), target) {
            return Some(i);
        }
        i += 1;
    }
    None
}

/// The commit that the commit at `at` is compared with: the one that
/// follows it in the log, or none where it is the last.
pub fn compared_with(log: &Vec<Commit>, at: usize) -> (r: Option<usize>)
    requires
        at < log@.len(),
    ensures
        r == (if at + 1 < log@.len() {
            Some((at + 1) as usize)
        } else {
            None::<usize>
        }),
{
    if at < log.len() - 1 {
        Some(at + 1)
    } else {
        None
    }
}

/// One commit of a project, named by its full id, with the patches that
/// lead to it from the commit that follows it in HEAD's log, or from
/// nothing where it is the last.
pub fn commit(repo: &Repository, target: Option<&str>) -> (r: Result<CommitPage, Missing>)
    ensures
        r matches Err(missing) ==> missing == Missing::Nowhere,
        target is None ==> r is Err,
        r matches Ok(page) ==> {
            &&& page.commit.id@ == target->Some_0@
            &&& page.title@ == commit_title(
                opt_text(page.commit.summary),
                repo.user_name@,
                repo.name@,
                target->Some_0@,
            )
            &&& exists|lines: Seq<PatchLineView>| patch_views(page.patches@) == segmented(lines)
        },
{
    let log = get_log(repo, None)?;
    let target = match target {
        Some(target) => target,
        None => {
            return Err(Missing::Nowhere);
        },
    };
    let at = or_nowhere(locate(&log, target))?;
    let this = &log[at];
    let patches = match compared_with(&log, at) {
        Some(before) => repo.diff(Some(&log[before]), this),
        None => repo.diff(None, this),
    };
    let mut title = match &this.summary {
        Some(summary) => summary.clone(),
        None => "Commit".to_owned(),
    };
    title.append(" - ");
    append_project(&mut title, repo);
    title.append("@");
    title.append(target);
    let commit = this.clone();
    proof {
        assert(title@ =~= commit_title(
            opt_text(commit.summary),
            repo.user_name@,
            repo.name@,
            target@,
        ));
    }
    Ok(CommitPage { commit, patches, title })
}

/// The bytes of the file under a path at a reference.
pub fn get_blob(repo: &Repository, target: Option<&str>, rest: Option<&[&str]>) -> (r: Result<
    Vec<u8>,
    Missing,
>)
    ensures
        rest is None ==> r is Err,
        r matches Err(missing) ==> missing == Missing::Nowhere || missing.location() == Some(
            "tree"@,
        ),
{
    let subpath = get_path(rest);
    let root = match repo.tree(target, None) {
        Ok(root) => root,
        Err(_) => {
            return Err(Missing::Nowhere);
        },
    };
    match &subpath {
        Some(path) => root.get_blob(Some(path.as_str())),
        None => root.get_blob(None),
    }
}

/// The last of the segments of a path.
fn last_segment<'a>(rest: Option<&'a [&'a str]>) -> (r: Option<&'a str>)
    ensures
        r is Some <==> (rest is Some && rest->Some_0@.len() > 0),
        r matches Some(last) ==> last@ == rest->Some_0@.last()@,
{
    match rest {
        Some(parts) => {
            if parts.len() > 0 {
                Some(parts[parts.len() - 1])
            } else {
                None
            }
        },
        None => None,
    }
}

/// By what a file's language is told: the extension of its path, or else
/// its name, or else nothing.
pub open spec fn token_of(path: Seq<char>) -> Seq<char> {
    match extension_of(path) {
        Some(ext) => ext,
        None => match file_name_of(path) {
            Some(name) => name,
            None => Seq::empty(),
        },
    }
}

/// What the file view answers to what a file lookup returned: the text
/// of a file that is text; for a file that is not, a hint to the address
/// at which it is served as it is; for a directory, a hint to the address
/// at which it is listed; nothing for what is nowhere.
pub open spec fn blob_answer(
    got: Result<Vec<u8>, Missing>,
    repo_url: Seq<char>,
    target: Option<&str>,
    rest: Option<&[&str]>,
) -> Result<Seq<char>, Option<Seq<char>>> {
    match got {
        Ok(bytes) => if valid_utf8(bytes@) {
            Ok(decode_utf8(bytes@))
        } else {
            Err(Some(redirect_url(repo_url, "raw"@, target, rest)))
        },
        Err(Missing::Elsewhere(_)) => Err(Some(redirect_url(repo_url, "tree"@, target, rest))),
        Err(Missing::Nowhere) => Err(None),
    }
}

/// The view of a text or of why there is none.
pub open spec fn text_result(r: Result<String, Missing>) -> Result<Seq<char>, Option<Seq<char>>> {
    match r {
        Ok(text) => Ok(text@),
        Err(missing) => Err(missing.location()),
    }
}

/// Decides what the file view answers to what a file lookup returned.
pub fn blob_text(
    got: Result<Vec<u8>, Missing>,
    repo_url: &str,
    target: Option<&str>,
    rest: Option<&[&str]>,
) -> (r: Result<String, Missing>)
    ensures
        text_result(r) == blob_answer(got, repo_url@, target, rest),
{
    match got {
        Ok(bytes) => match from_utf8(bytes.as_slice()) {
            Some(text) => Ok(text.to_owned()),
            None => Err(redirect(repo_url, "raw", target, rest)),
        },
        Err(Missing::Elsewhere(_)) => Err(redirect(repo_url, "tree", target, rest)),
        Err(Missing::Nowhere) => Err(Missing::Nowhere),
    }
}

/// A text file of a project.
///
/// Where the path leads to a directory, the answer is a hint to the
/// address at which the directory view has it; where it leads to a file
/// that is not text, a hint to the address at which the file is served as
/// it is.
pub fn blob(repo: &Repository, target: Option<&str>, rest: Option<&[&str]>) -> (r: Result<
    BlobPage,
    Missing,
>)
    ensures
        r matches Err(missing) ==> {
            ||| missing == Missing::Nowhere
            ||| missing.location() == Some(redirect_url(repo.url_text(), "tree"@, target, rest))
            ||| missing.location() == Some(redirect_url(repo.url_text(), "raw"@, target, rest))
        },
        r matches Ok(page) ==> {
            &&& rest is Some
            &&& rest->Some_0@.len() > 0
            &&& page.file_name@ == rest->Some_0@.last()@
            &&& page.raw_url@ == redirect_url(repo.url_text(), "raw"@, target, rest)
            &&& Some(page.directory@) == parent_of(rest_text(rest))
            &&& page.token@ == token_of(rest_text(rest))
            &&& exists|bytes: Seq<u8>| valid_utf8(bytes) && page.text@ == #[trigger] decode_utf8(bytes)
            &&& exists|refname: Seq<char>|
                {
                    &&& target matches Some(asked) ==> refname == asked@
                    &&& page.directory_url@ == tree_url(repo.url_text(), refname, page.directory@)
                }
            &&& exists|head: ReferenceView|
                page.title@ == blob_title(
                    page.file_name@,
                    page.directory@,
                    repo.user_name@,
                    repo.name@,
                    standing_at(target, head),
                )
        },
{
    let root = repo.tree(target, None)?;
    let url = repo.url();
    let got = get_blob(repo, target, rest);
    let ghost bytes = if got is Ok {
        got->Ok_0@
    } else {
        Seq::empty()
    };
    let text = blob_text(got, url.as_str(), target, rest)?;
    let raw_url = match redirect(url.as_str(), "raw", target, rest) {
        Missing::Elsewhere(location) => location,
        Missing::Nowhere => {
            return Err(Missing::Nowhere);
        },
    };
    let subpath = match get_path(rest) {
        Some(subpath) => subpath,
        None => {
            return Err(Missing::Nowhere);
        },
    };
    let token = match extension(subpath.as_str()) {
        Some(ext) => ext,
        None => match file_name(subpath.as_str()) {
            Some(name) => name,
            None => String::new(),
        },
    };
    let directory = match parent(subpath.as_str()) {
        Some(directory) => directory,
        None => {
            return Err(Missing::Nowhere);
        },
    };
    let directory_url = root.url_for(Some(directory.as_str()))?;
    let file_name = match last_segment(rest) {
        Some(name) => name.to_owned(),
        None => {
            return Err(Missing::Nowhere);
        },
    };
    let at = standing_of(repo, target)?;
    let ghost head = choose|head: ReferenceView| at@ == standing_at(target, head);
    let mut title = file_name.clone();
    title.append(" (");
    title.append(directory.as_str());
    title.append(") - ");
    append_project(&mut title, repo);
    title.append("@");
    title.append(at.as_str());
    proof {
        assert(title@ =~= blob_title(
            file_name@,
            directory@,
            repo.user_name@,
            repo.name@,
            standing_at(target, head),
        ));
        assert(root.repo_url@ == repo.url_text());
        assert(directory_url@ == tree_url(repo.url_text(), root.refname@, directory@));
        assert(target matches Some(asked) ==> root.refname@ == asked@);
        assert(Some(directory@) == parent_of(rest_text(rest)));
        assert(token@ == token_of(rest_text(rest)));
    }
    let page = BlobPage { directory, raw_url, directory_url, file_name, token, text, title };
    proof {
        assert(rest is Some);
        assert(rest->Some_0@.len() > 0);
        assert(page.file_name@ == rest->Some_0@.last()@);
        assert(page.raw_url@ == redirect_url(repo.url_text(), "raw"@, target, rest));
        assert(Some(page.directory@) == parent_of(rest_text(rest)));
        assert(page.token@ == token_of(rest_text(rest)));
        assert(valid_utf8(bytes) && page.text@ == decode_utf8(bytes));
        assert(exists|refname: Seq<char>|
            {
                &&& target matches Some(asked) ==> refname == asked@
                &&& page.directory_url@ == tree_url(repo.url_text(), refname, page.directory@)
            });
        assert(exists|head: ReferenceView|
            page.title@ == blob_title(
                page.file_name@,
                page.directory@,
                repo.user_name@,
                repo.name@,
                standing_at(target, head),
            ));
    }
    Ok(page)
}

/// The tags and branches of a project.
pub fn refs(repo: &Repository) -> (r: Result<RefsPage, Missing>)
    ensures
        r matches Err(missing) ==> missing == Missing::Nowhere,
        r matches Ok(page) ==> page.title@ == refs_title(repo.user_name@, repo.name@),
{
    let (tags, branches) = repo.refs()?;
    let mut title = "Refs - ".to_owned();
    append_project(&mut title, repo);
    proof {
        assert(title@ =~= refs_title(repo.user_name@, repo.name@));
    }
    Ok(RefsPage { tags, branches, title })
}

/// Makes the file to hand out of what a file lookup returned: the bytes
/// as they are, with the media type that the last segment of the path
/// suggests. Where the lookup failed, for whatever reason, or the path
/// has no segment, there is nothing to hand out.
pub fn raw_file(got: Result<Vec<u8>, Missing>, rest: Option<&[&str]>) -> (r: Result<RawFile, Missing>)
    ensures
        r is Ok <==> got is Ok && rest is Some && rest->Some_0@.len() > 0,
        r matches Err(missing) ==> missing == Missing::Nowhere,
        r matches Ok(file) ==> {
            &&& file.bytes@ == got->Ok_0@
            &&& file.mime == mime_for(extension_of(rest->Some_0@.last()@))
        },
{
    let bytes = match got {
        Ok(bytes) => bytes,
        Err(_) => {
            return Err(Missing::Nowhere);
        },
    };
    let name = or_nowhere(last_segment(rest))?;
    Ok(RawFile { mime: guess_mime(name), bytes })
}

/// A file of a project as it is, with the media type its name suggests.
pub fn raw(repo: &Repository, target: Option<&str>, rest: Option<&[&str]>) -> (r: Result<
    RawFile,
    Missing,
>)
    ensures
        r matches Err(missing) ==> missing == Missing::Nowhere,
        r matches Ok(file) ==> {
            &&& rest is Some
            &&& rest->Some_0@.len() > 0
            &&& file.mime == mime_for(extension_of(rest->Some_0@.last()@))
        },
{
    raw_file(get_blob(repo, target, rest), rest)
}

/// What a HEAD file says of a reference with this full name.
pub open spec fn head_text(name: Seq<char>) -> Seq<char> {
    "ref: "@ + name + "\n\n"@
}

/// The HEAD file of a project, as a client that fetches over plain HTTP
/// reads it.
pub fn head(repo: &Repository) -> (r: Result<String, Missing>)
    ensures
        r matches Err(missing) ==> missing == Missing::Nowhere,
        r matches Ok(text) ==> exists|name: Seq<char>| text@ == #[trigger] head_text(name),
{
    let head = repo.head()?;
    head_file(&head)
}

/// The HEAD file for the reference that HEAD resolves to.
pub fn head_file(head: &Reference) -> (r: Result<String, Missing>)
    ensures
        match head@.name {
            Some(name) => r matches Ok(text) && text@ == head_text(name),
            None => r == Err::<String, Missing>(Missing::Nowhere),
        },
{
    match &head.name {
        Some(name) => {
            let mut text = "ref: ".to_owned();
            text.append(name.as_str());
            text.append("\n\n");
            Ok(text)
        },
        None => Err(Missing::Nowhere),
    }
}

/// The line of one reference in the list of references: the id it points
/// at, or zeros, a tab, and its name, or nothing.
pub open spec fn info_line(reference: ReferenceView) -> Seq<char> {
    (match reference.target {
        Some(id) => id,
        None => zero_hex(),
    }) + "\t"@ + (match reference.name {
        Some(name) => name,
        None => Seq::empty(),
    })
}

/// The lines of the references, each but the first with a line break
/// before it.
pub open spec fn info_lines(references: Seq<ReferenceView>) -> Seq<char>
    decreases references.len(),
{
    if references.len() == 0 {
        Seq::empty()
    } else if references.len() == 1 {
        info_line(references[0])
    } else {
        info_lines(references.drop_last()) + "\n"@ + info_line(references.last())
    }
}

/// The list of references as a client that fetches over plain HTTP reads
/// it: one line for each, and a line break at the end.
pub fn info_text(references: &Vec<Reference>) -> (r: String)
    ensures
        r@ == info_lines(reference_views(references@)) + "\n"@,
{
    let mut text = String::new();
    let mut i: usize = 0;
    while i < references.len()
        invariant
            i <= references@.len(),
            text@ == info_lines(reference_views(references@).subrange(0, i as int)),
        decreases references@.len() - i,
    {
        let reference = &references[i];
        let ghost seen = reference_views(references@).subrange(0, i as int);
        let ghost next = reference_views(references@).subrange(0, i + 1);
        let ghost before = text@;
        proof {
            assert(next.drop_last() =~= seen);
            assert(next.last() == reference@);
        }
        if i > 0 {
            text.append("\n");
        }
        let id = match &reference.target {
            Some(id) => id.clone(),
            None => ObjectId::zero(),
        };
        text.append(id.as_str());
        text.append("\t");
        match &reference.name {
            Some(name) => {
                text.append(name.as_str());
            },
            None => {},
        }
        proof {
            if i > 0 {
                assert(text@ =~= before + "\n"@ + info_line(reference@));
            } else {
                assert(text@ =~= info_line(reference@));
            }
        }
        i += 1;
    }
    proof {
        assert(reference_views(references@).subrange(0, references@.len() as int)
            =~= reference_views(references@));
    }
    text.append("\n");
    text
}

/// The list of a project's references. Only `refs` is kept under `info`.
pub fn info(repo: &Repository, target: Option<&str>) -> (r: Result<String, Missing>)
    ensures
        r matches Err(missing) ==> missing == Missing::Nowhere,
        target_text(target) != "refs"@ ==> r is Err,
        r matches Ok(text) ==> exists|references: Seq<ReferenceView>|
            text@ == #[trigger] info_lines(references) + "\n"@,
{
    let wanted = match target {
        Some(target) => str_eq(target, "refs"),
        None => {
            proof {
                reveal_strlit("refs");
            }
            false
        },
    };
    if !wanted {
        return Err(Missing::Nowhere);
    }
    let references = repo.references()?;
    let text = info_text(&references);
    proof {
        assert(text@ == info_lines(reference_views(references@)) + "\n"@);
    }
    Ok(text)
}

/// The lines of the packs among `names`: `P`, a blank and the name for
/// each name that ends in `.pack`.
pub open spec fn pack_lines(names: Seq<Seq<char>>) -> Seq<char>
    decreases names.len(),
{
    if names.len() == 0 {
        Seq::empty()
    } else {
        pack_lines(names.drop_last()) + if has_suffix(names.last(), ".pack"@) {
            "P "@ + names.last() + "\n"@
        } else {
            Seq::empty()
        }
    }
}

/// Where the packs of a project lie below `root`.
pub open spec fn packs_path(root: Seq<char>, name: Seq<char>, project_name: Seq<char>) -> Seq<char> {
    pushed_path(pushed_path(project_path(root, name, project_name), "objects"@), "packs"@)
}

/// Where the packs of a project lie below `root`.
pub fn packs_dir(root: &str, name: &str, project_name: &str) -> (r: String)
    ensures
        r@ == packs_path(root@, name@, project_name@),
{
    let repo_path = crate::repository::project_repo_path(root, name, project_name);
    let objects = push_path(repo_path.as_str(), "objects");
    push_path(objects.as_str(), "packs")
}

/// The list of a project's packs as a client that fetches over plain HTTP
/// reads it, from the names of the files in the directory of packs.
pub fn pack_info(names: &[&str]) -> (r: String)
    ensures
        r@ == pack_lines(texts(names@)) + "\n"@,
{
    let mut list = String::new();
    let mut i: usize = 0;
    while i < names.len()
        invariant
            i <= names@.len(),
            list@ == pack_lines(texts(names@).subrange(0, i as int)),
        decreases names@.len() - i,
    {
        let ghost seen = texts(names@).subrange(0, i as int);
        let ghost next = texts(names@).subrange(0, i + 1);
        let ghost before = list@;
        proof {
            assert(next.drop_last() =~= seen);
            assert(next.last() == names@[i as int]@);
        }
        if ends_with(names[i], ".pack") {
            list.append("P ");
            list.append(names[i]);
            list.append("\n");
            proof {
                assert(list@ =~= before + ("P "@ + names@[i as int]@ + "\n"@));
            }
        } else {
            proof {
                assert(list@ =~= before + Seq::<char>::empty());
            }
        }
        i += 1;
    }
    proof {
        assert(texts(names@).subrange(0, names@.len() as int) =~= texts(names@));
    }
    list.append("\n");
    list
}

/// Where an object file of a project lies below `root`.
pub open spec fn object_path(
    root: Seq<char>,
    name: Seq<char>,
    project_name: Seq<char>,
    folder: Seq<char>,
    file: Seq<char>,
) -> Seq<char> {
    pushed_path(
        pushed_path(pushed_path(project_path(root, name, project_name), "objects"@), folder),
        file,
    )
}

/// The file that a request below `objects` names: the first segment after
/// the folder, or none where no segments were given at all.
pub open spec fn object_file(rest: Option<&[&str]>) -> Option<Seq<char>> {
    match rest {
        Some(parts) => if parts@.len() > 0 {
            Some(parts@[0]@)
        } else {
            None
        },
        None => Some(Seq::empty()),
    }
}

/// What a request below a project's `objects` asks for: the list of packs
/// for `info/packs`, else the file under the folder and name given. A
/// request without a folder, or with a rest that names no file, asks for
/// nothing.
pub fn objects(
    root: &str,
    name: &str,
    project_name: &str,
    target: Option<&str>,
    rest: Option<&[&str]>,
) -> (r: Result<ObjectsPlan, Missing>)
    ensures
        r is Ok <==> target is Some && object_file(rest) is Some,
        r matches Err(missing) ==> missing == Missing::Nowhere,
        r matches Ok(plan) ==> {
            let folder = target->Some_0@;
            let file = object_file(rest)->Some_0;
            if folder == "info"@ && file == "packs"@ {
                plan == ObjectsPlan::PackInfo
            } else {
                plan matches ObjectsPlan::File(path) && path@ == object_path(
                    root@,
                    name@,
                    project_name@,
                    folder,
                    file,
                )
            }
        },
{
    let folder = match target {
        Some(folder) => folder,
        None => {
            return Err(Missing::Nowhere);
        },
    };
    let empty = "";
    proof {
        reveal_strlit("");
        assert(empty@ =~= Seq::<char>::empty());
    }
    let file = match rest {
        Some(parts) => {
            if parts.len() > 0 {
                parts[0]
            } else {
                return Err(Missing::Nowhere);
            }
        },
        None => empty,
    };
    if str_eq(folder, "info") && str_eq(file, "packs") {
        return Ok(ObjectsPlan::PackInfo);
    }
    let repo_path = crate::repository::project_repo_path(root, name, project_name);
    let objects = push_path(repo_path.as_str(), "objects");
    let in_folder = push_path(objects.as_str(), folder);
    Ok(ObjectsPlan::File(push_path(in_folder.as_str(), file)))
}

/// By what a repository is placed in a list: when it was last updated,
/// if that is known.
pub struct UpdateRank {
    /// Seconds since the epoch.
    pub seconds: Option<i64>,
}

/// `a` may stand before `b` in a list of repositories: the one updated
/// later before the one updated earlier, and any whose update is known
/// before any whose update is not.
pub open spec fn updated_no_earlier(a: Option<i64>, b: Option<i64>) -> bool {
    match (a, b) {
        (Some(a), Some(b)) => a >= b,
        (Some(_), None) => true,
        (None, Some(_)) => false,
        (None, None) => true,
    }
}

impl Ranked for UpdateRank {
    open spec fn rank_le(&self, other: &Self) -> bool {
        updated_no_earlier(self.seconds, other.seconds)
    }

    fn precedes(&self, other: &Self) -> (r: bool) {
        match (self.seconds, other.seconds) {
            (Some(a), Some(b)) => a >= b,
            (Some(_), None) => true,
            (None, Some(_)) => false,
            (None, None) => true,
        }
    }

    proof fn lemma_total(a: &Self, b: &Self) {
    }

    proof fn lemma_transitive(a: &Self, b: &Self, c: &Self) {
    }
}

/// The ranks that go with a list of update times.
pub open spec fn update_ranks(updates: Seq<Option<i64>>) -> Seq<UpdateRank> {
    Seq::new(updates.len(), |i: int| UpdateRank { seconds: updates[i] })
}

/// The order in which to list repositories with these update times: the
/// most recently updated first, those whose update is unknown last, and
/// equals in the order they came in.
pub fn order_by_update(updates: &Vec<Option<i64>>) -> (picks: Vec<usize>)
    ensures
        stable_order_of(picks@, update_ranks(updates@)),
{
    let mut ranks: Vec<UpdateRank> = Vec::new();
    let mut i: usize = 0;
    while i < updates.len()
        invariant
            i <= updates@.len(),
            ranks@ == update_ranks(updates@.subrange(0, i as int)),
        decreases updates@.len() - i,
    {
        ranks.push(UpdateRank { seconds: updates[i] });
        proof {
            assert(ranks@ =~= update_ranks(updates@.subrange(0, i + 1)));
        }
        i += 1;
    }
    proof {
        assert(updates@.subrange(0, updates@.len() as int) =~= updates@);
    }
    stable_order(&ranks)
}

/// `after` holds the repositories of `before`, put in the order that some
/// update times call for.
pub open spec fn reordered(after: Seq<Repository>, before: Seq<Repository>) -> bool {
    exists|picks: Seq<usize>, updates: Seq<Option<i64>>|
        {
            &&& updates.len() == before.len()
            &&& #[trigger] stable_order_of(picks, update_ranks(updates))
            &&& after == arranged(before, picks)
        }
}

/// Puts repositories in the order of their last update, the most recent
/// first. The update of each is asked of its store; one that cannot tell
/// goes last.
pub fn sort_repos(repos: &mut Vec<Repository>)
    ensures
        reordered(final(repos)@, old(repos)@),
{
    let mut updates: Vec<Option<i64>> = Vec::new();
    let mut i: usize = 0;
    while i < repos.len()
        invariant
            i <= repos@.len(),
            updates@.len() == i,
            repos@ == old(repos)@,
        decreases repos@.len() - i,
    {
        let update = match repos[i].last_update() {
            Ok(seconds) => Some(seconds),
            Err(_) => None,
        };
        updates.push(update);
        i += 1;
    }
    let picks = order_by_update(&updates);
    proof {
        lemma_picks_are_distinct(picks@, update_ranks(updates@));
    }
    let mut taken: Vec<Repository> = Vec::new();
    core::mem::swap(repos, &mut taken);
    let sorted = arrange(taken, &picks);
    *repos = sorted;
}

/// The repositories of those of `users` that could be read, in the order
/// of the users.
pub open spec fn gathered(users: Seq<Result<User, Missing>>) -> Seq<Repository>
    decreases users.len(),
{
    if users.len() == 0 {
        Seq::empty()
    } else {
        gathered(users.drop_last()) + (match users.last() {
            Ok(user) => user.repos@,
            Err(_) => Seq::empty(),
        })
    }
}

/// The repositories of all users, the most recently updated first.
///
/// `users` is what was found in the root of all repositories, one result
/// for each directory in it, or `None` where the root is no directory.
pub fn root(users: Option<Vec<Result<User, Missing>>>) -> (r: Result<Vec<Repository>, Missing>)
    ensures
        r is Ok <==> users is Some,
        r matches Err(missing) ==> missing == Missing::Nowhere,
        r matches Ok(repos) ==> reordered(repos@, gathered(users->Some_0@)),
{
    let users = match users {
        Some(users) => users,
        None => {
            return Err(Missing::Nowhere);
        },
    };
    let ghost all = users@;
    let mut pending = reversed(users);
    let mut repos: Vec<Repository> = Vec::new();
    while pending.len() > 0
        invariant
            pending@.len() <= all.len(),
            forall|k: int|
                0 <= k < pending@.len() ==> #[trigger] pending@[k] == all[all.len() - 1 - k],
            repos@ == gathered(all.subrange(0, all.len() - pending@.len())),
        decreases pending@.len(),
    {
        let ghost done = all.len() - pending@.len();
        let ghost before = repos@;
        let user = pending.pop().unwrap();
        proof {
            assert(user == all[done]);
            assert(all.subrange(0, done + 1).drop_last() =~= all.subrange(0, done));
            assert(all.subrange(0, done + 1).last() == user);
        }
        match user {
            Ok(user) => {
                let mut theirs = user.repos;
                repos.append(&mut theirs);
            },
            Err(_) => {
                proof {
                    assert(before + Seq::<Repository>::empty() =~= before);
                }
            },
        }
    }
    proof {
        assert(all.subrange(0, all.len() as int) =~= all);
    }
    sort_repos(&mut repos);
    Ok(repos)
}

/// The repositories of one user, the most recently updated first.
pub fn user(found: Result<User, Missing>) -> (r: Result<User, Missing>)
    ensures
        r is Ok <==> found is Ok,
        r matches Err(missing) ==> missing.location() == found->Err_0.location(),
        r matches Ok(sorted) ==> sorted.name@ == found->Ok_0.name@ && reordered(
            sorted.repos@,
            found->Ok_0.repos@,
        ),
{
    match found {
        Ok(user) => {
            let mut repos = user.repos;
            sort_repos(&mut repos);
            Ok(User { name: user.name, repos })
        },
        Err(missing) => Err(missing),
    }
}

} // verus!
