use git2::Commit as GitCommit;
use git2::Reference as GitReference;
use git2::Repository as GitRepository;
use git2::Tree as GitTree;
use vstd::prelude::*;
use vstd::string::*;
use vstd::utf8::*;
use crate::commit::{Commit, Signature, opt_commit};
use crate::diff::{
    FilePatch,
    PatchLine,
    PatchLineView,
    line_views,
    patch_views,
    patches_for,
    patches_of,
    segmented,
};
use crate::git;
use crate::kind::TreeEntryKind;
use crate::missing::{Missing, or_nowhere};
use crate::oid::{ObjectId, id_text};
use crate::text::{file_stem, file_stem_of, opt_text, push_path, pushed_path, str_eq};
use crate::tree::{
    Tree,
    TreeEntryView,
    entry_views,
    is_listing,
    is_subtree,
    lists_tree,
    tree_target,
};

verus! {

#[verifier::external_type_specification]
#[verifier::external_body]
pub struct ExIoError(std::io::Error);

/// The error of the operating system's last failed call.
///
/// Trusted: `std::io::Error::last_os_error`. Nothing is known of it.
#[verifier::external_body]
fn last_os_error() -> (r: std::io::Error) {
    std::io::Error::last_os_error()
}

/// One bare repository of one user, opened for reading.
pub struct Repository {
    pub git2: GitRepository,
    pub path: String,
    pub user_name: String,
    pub name: String,
    pub description: Option<String>,
}

/// A named pointer into the history, as it stood when it was read.
#[derive(Debug, PartialEq, Eq)]
pub struct Reference {
    /// The full name, such as `refs/heads/main`.
    pub name: Option<String>,
    /// The name without its namespace, such as `main`.
    pub shorthand: Option<String>,
    /// The object pointed at; absent for a symbolic reference.
    pub target: Option<ObjectId>,
    pub is_branch: bool,
    pub is_tag: bool,
}

pub struct ReferenceView {
    pub name: Option<Seq<char>>,
    pub shorthand: Option<Seq<char>>,
    pub target: Option<Seq<char>>,
    pub is_branch: bool,
    pub is_tag: bool,
}

impl View for Reference {
    type V = ReferenceView;

    open spec fn view(&self) -> ReferenceView {
        ReferenceView {
            name: opt_text(self.name),
            shorthand: opt_text(self.shorthand),
            target: id_text(self.target),
            is_branch: self.is_branch,
            is_tag: self.is_tag,
        }
    }
}

/// The reference name a request means: the one it gives, or else the one
/// HEAD goes by.
pub open spec fn chosen_refname(asked: Option<Seq<char>>, head: Seq<char>) -> Seq<char> {
    match asked {
        Some(name) => name,
        None => head,
    }
}

/// The text of an optional string slice.
pub open spec fn opt_str(text: Option<&str>) -> Option<Seq<char>> {
    match text {
        Some(text) => Some(text@),
        None => None,
    }
}

/// The path of a user's pages.
pub open spec fn user_url_of(user_name: Seq<char>) -> Seq<char> {
    "/"@ + user_name
}

/// The path of a repository's pages.
pub open spec fn repo_url_of(user_name: Seq<char>, name: Seq<char>) -> Seq<char> {
    "/"@ + user_name + "/"@ + name
}

/// Where the repository of a project lies below the root of all
/// repositories: in the directory of its user, under the project's name
/// with `.git` behind it.
pub open spec fn project_path(root: Seq<char>, user_name: Seq<char>, project_name: Seq<char>) -> Seq<
    char,
> {
    pushed_path(pushed_path(root, user_name), project_name + ".git"@)
}

/// Whether an entry is a readme: a file under one of the names a readme
/// goes by.
pub open spec fn is_readme(entry: TreeEntryView) -> bool {
    &&& entry.kind == TreeEntryKind::Blob
    &&& (entry.name == "readme.md"@ || entry.name == "README.md"@ || entry.name == "readme"@
        || entry.name == "README"@)
}

/// The entry at `i` is the first readme of the listing.
pub open spec fn is_first_readme(entries: Seq<TreeEntryView>, i: int) -> bool {
    &&& 0 <= i < entries.len()
    &&& is_readme(entries[i])
    &&& forall|k: int| 0 <= k < i ==> !is_readme(#[trigger] entries[k])
}

/// The short names of the tags among `references`, or else of the
/// branches, in order. A reference without a readable short name is passed
/// over.
pub open spec fn short_names(references: Seq<ReferenceView>, tags: bool) -> Seq<Seq<char>>
    decreases references.len(),
{
    if references.len() == 0 {
        Seq::empty()
    } else {
        let before = short_names(references.drop_last(), tags);
        let last = references.last();
        if (if tags {
            last.is_tag
        } else {
            last.is_branch
        }) && last.shorthand is Some {
            before.push(last.shorthand->Some_0)
        } else {
            before
        }
    }
}

/// The views of a list of references.
pub open spec fn reference_views(references: Seq<Reference>) -> Seq<ReferenceView> {
    Seq::new(references.len(), |i: int| references[i]@)
}

/// The texts of a list of strings.
pub open spec fn string_views(strings: Seq<String>) -> Seq<Seq<char>> {
    Seq::new(strings.len(), |i: int| strings[i]@)
}

/// Splits references into the names of the tags and of the branches.
pub fn split_refs(references: &Vec<Reference>) -> (r: (Vec<String>, Vec<String>))
    ensures
        string_views(r.0@) == short_names(reference_views(references@), true),
        string_views(r.1@) == short_names(reference_views(references@), false),
{
    let mut tags: Vec<String> = Vec::new();
    let mut branches: Vec<String> = Vec::new();
    let mut i: usize = 0;
    while i < references.len()
        invariant
            i <= references@.len(),
            string_views(tags@) == short_names(
                reference_views(references@).subrange(0, i as int),
                true,
            ),
            string_views(branches@) == short_names(
                reference_views(references@).subrange(0, i as int),
                false,
            ),
        decreases references@.len() - i,
    {
        let reference = &references[i];
        let ghost seen = reference_views(references@).subrange(0, i as int);
        let ghost next = reference_views(references@).subrange(0, i + 1);
        let ghost tags_before = string_views(tags@);
        let ghost branches_before = string_views(branches@);
        proof {
            assert(next.drop_last() =~= seen);
            assert(next.last() == reference@);
        }
        match &reference.shorthand {
            Some(short) => {
                if reference.is_tag {
                    tags.push(short.clone());
                    proof {
                        assert(string_views(tags@) =~= tags_before.push(short@));
                    }
                }
                if reference.is_branch {
                    branches.push(short.clone());
                    proof {
                        assert(string_views(branches@) =~= branches_before.push(short@));
                    }
                }
            },
            None => {},
        }
        i += 1;
    }
    proof {
        assert(reference_views(references@).subrange(0, references@.len() as int)
            =~= reference_views(references@));
    }
    (tags, branches)
}

/// Copies a commit out of the store.
pub(crate) fn read_commit(commit: &GitCommit<'_>) -> (r: Commit) {
    Commit {
        id: git::commit_id(commit),
        short_id: git::commit_short_id(commit),
        tree_id: git::commit_tree_id(commit),
        author: Signature { name: git::commit_author_name(commit), email: git::commit_author_email(commit) },
        committer: Signature {
            name: git::commit_committer_name(commit),
            email: git::commit_committer_email(commit),
        },
        time: git::commit_seconds(commit),
        summary: git::commit_summary(commit),
        message: git::commit_message(commit),
    }
}

/// Copies a reference out of the store.
pub(crate) fn read_reference(reference: &GitReference<'_>) -> (r: Reference) {
    Reference {
        name: git::reference_name(reference),
        shorthand: git::reference_shorthand(reference),
        target: git::reference_target(reference),
        is_branch: git::reference_is_branch(reference),
        is_tag: git::reference_is_tag(reference),
    }
}

/// Picks the reference name a request means.
pub fn refname_or_head(asked: Option<&str>, head: &str) -> (r: String)
    ensures
        r@ == chosen_refname(opt_str(asked), head@),
{
    match asked {
        Some(name) => name.to_owned(),
        None => head.to_owned(),
    }
}

/// Where the repository of a project lies below `root`.
pub fn project_repo_path(root: &str, user_name: &str, project_name: &str) -> (r: String)
    ensures
        r@ == project_path(root@, user_name@, project_name@),
{
    let user_root = push_path(root, user_name);
    let mut file = project_name.to_owned();
    file.append(".git");
    push_path(user_root.as_str(), file.as_str())
}

/// Whether a walk can begin: its start was taken and its order was set.
pub fn started(pushed: bool, ordered: bool) -> (r: Result<(), Missing>)
    ensures
        r is Ok <==> pushed && ordered,
        r matches Err(missing) ==> missing == Missing::Nowhere,
{
    if pushed && ordered {
        Ok(())
    } else {
        Err(Missing::Nowhere)
    }
}

/// Makes a history of the commits that a walk came by, in its order.
/// `found` holds for each step of the walk the commit read there, or
/// `None` where it could not be read. A history has no gaps: where one
/// commit is missing, there is no history.
pub fn gather(found: Vec<Option<Commit>>) -> (r: Result<Vec<Commit>, Missing>)
    ensures
        r is Ok <==> forall|i: int| 0 <= i < found@.len() ==> (#[trigger] found@[i]) is Some,
        r matches Ok(log) ==> log@.len() == found@.len() && forall|i: int|
            0 <= i < log@.len() ==> (#[trigger] log@[i])@ == found@[i]->Some_0@,
        r matches Err(missing) ==> missing == Missing::Nowhere,
{
    let mut log: Vec<Commit> = Vec::new();
    let mut i: usize = 0;
    while i < found.len()
        invariant
            i <= found@.len(),
            log@.len() == i,
            forall|k: int| 0 <= k < i ==> (#[trigger] found@[k]) is Some,
            forall|k: int| 0 <= k < i ==> (#[trigger] log@[k])@ == found@[k]->Some_0@,
        decreases found@.len() - i,
    {
        match &found[i] {
            Some(commit) => {
                log.push(commit.clone());
            },
            None => {
                return Err(Missing::Nowhere);
            },
        }
        i += 1;
    }
    Ok(log)
}

impl Repository {
    pub open spec fn url_text(&self) -> Seq<char> {
        repo_url_of(self.user_name@, self.name@)
    }

    /// Opens the bare repository at `repo_path` as one of `user_name`'s.
    ///
    /// The repository is named after the last part of its path, without the
    /// extension. `description` is what the repository's description file
    /// holds, if it could be read. Whether the repository opens is for the
    /// store to say; a path without a last part never does.
    pub fn open(user_name: &str, repo_path: &str, description: Option<String>) -> (r: Result<
        Repository,
        std::io::Error,
    >)
        ensures
            file_stem_of(repo_path@) is None ==> r is Err,
            r matches Ok(repo) ==> {
                &&& repo.user_name@ == user_name@
                &&& repo.path@ == repo_path@
                &&& Some(repo.name@) == file_stem_of(repo_path@)
                &&& opt_text(repo.description) == opt_text(description)
            },
    {
        let opened = match git::open_bare(repo_path) {
            Some(opened) => opened,
            None => {
                return Err(last_os_error());
            },
        };
        let name = match file_stem(repo_path) {
            Some(name) => name,
            None => {
                return Err(last_os_error());
            },
        };
        Ok(
            Repository {
                user_name: user_name.to_owned(),
                git2: opened,
                name,
                description,
                path: repo_path.to_owned(),
            },
        )
    }

    /// Opens the repository of a user's project below `root`.
    pub fn open_user_project(
        root: &str,
        user_name: &str,
        project_name: &str,
        description: Option<String>,
    ) -> (r: Result<Repository, Missing>)
        ensures
            file_stem_of(project_path(root@, user_name@, project_name@)) is None ==> r is Err,
            r matches Err(e) ==> e == Missing::Nowhere,
            r matches Ok(repo) ==> {
                &&& repo.user_name@ == user_name@
                &&& repo.path@ == project_path(root@, user_name@, project_name@)
                &&& Some(repo.name@) == file_stem_of(repo.path@)
                &&& opt_text(repo.description) == opt_text(description)
            },
    {
        let repo_path = project_repo_path(root, user_name, project_name);
        match Repository::open(user_name, repo_path.as_str(), description) {
            Ok(repo) => Ok(repo),
            Err(_) => Err(Missing::Nowhere),
        }
    }

    pub(crate) fn head_handle(&self) -> (r: Result<GitReference<'_>, Missing>)
        ensures
            r matches Err(e) ==> e == Missing::Nowhere,
    {
        or_nowhere(git::head(&self.git2))
    }

    /// The reference that HEAD resolves to.
    pub fn head(&self) -> (r: Result<Reference, Missing>)
        ensures
            r matches Err(e) ==> e == Missing::Nowhere,
    {
        let head = self.head_handle()?;
        Ok(read_reference(&head))
    }

    /// The commit that HEAD stands at.
    pub fn last_commit(&self) -> (r: Result<Commit, Missing>)
        ensures
            r matches Err(e) ==> e == Missing::Nowhere,
    {
        let head = self.head_handle()?;
        match git::peel_to_commit(&head) {
            Some(commit) => Ok(read_commit(&commit)),
            None => Err(Missing::Nowhere),
        }
    }

    /// When the commit that HEAD stands at was made, in seconds since the
    /// epoch.
    pub fn last_update(&self) -> (r: Result<i64, Missing>)
        ensures
            r matches Err(e) ==> e == Missing::Nowhere,
    {
        let commit = self.last_commit()?;
        Ok(commit.time)
    }

    pub fn user_url(&self) -> (r: String)
        ensures
            r@ == user_url_of(self.user_name@),
    {
        let mut url = "/".to_owned();
        url.append(self.user_name.as_str());
        url
    }

    pub fn url(&self) -> (r: String)
        ensures
            r@ == self.url_text(),
    {
        let mut url = "/".to_owned();
        url.append(self.user_name.as_str());
        url.append("/");
        url.append(self.name.as_str());
        url
    }

    /// The reference name a request means: the one it gives, or else HEAD's
    /// short name. A name that is given is taken as it is, without a look
    /// at HEAD; without one, the request fails where HEAD cannot be read.
    pub(crate) fn get_refname(&self, refname: Option<&str>) -> (r: Result<String, Missing>)
        ensures
            r matches Err(e) ==> e == Missing::Nowhere,
            refname matches Some(asked) ==> r matches Ok(name) && name@ == asked@,
    {
        match refname {
            Some(asked) => Ok(refname_or_head(Some(asked), "")),
            None => {
                let head = self.head_handle()?;
                let short = git::reference_shorthand(&head);
                let name = match &short {
                    Some(short) => refname_or_head(None, short.as_str()),
                    None => refname_or_head(None, ""),
                };
                Ok(name)
            },
        }
    }

    /// Resolves a branch or tag name, given without its namespace.
    pub(crate) fn get_ref(&self, refname: &str) -> (r: Result<GitReference<'_>, Missing>)
        ensures
            r matches Err(e) ==> e == Missing::Nowhere,
    {
        or_nowhere(git::resolve_short_name(&self.git2, refname))
    }

    /// The history that leads to the commit `start`, newest first.
    ///
    /// The walk goes once through everything reachable from `start`, in
    /// the store's topological order: a commit comes before its parents.
    /// Where `start` is no commit of the store, or a commit or the walk
    /// itself cannot be read, nothing is returned but `Nowhere`: there is
    /// no partial history. What is returned is what [`gather`] makes of the
    /// commits read.
    pub fn walk(&self, start: &ObjectId) -> (r: Result<Vec<Commit>, Missing>)
        ensures
            r matches Err(missing) ==> missing == Missing::Nowhere,
    {
        let mut walk = or_nowhere(git::revwalk(&self.git2))?;
        let pushed = git::revwalk_push(&mut walk, start);
        let ordered = git::revwalk_sort_topological(&mut walk);
        started(pushed, ordered)?;
        let ids = or_nowhere(git::revwalk_ids(walk))?;
        let mut found: Vec<Option<Commit>> = Vec::new();
        let mut i: usize = 0;
        while i < ids.len()
            invariant
                i <= ids@.len(),
                found@.len() == i,
            decreases ids@.len() - i,
        {
            let read = match git::find_commit(&self.git2, &ids[i]) {
                Some(commit) => Some(read_commit(&commit)),
                None => None,
            };
            found.push(read);
            i += 1;
        }
        gather(found)
    }

    /// The history of a reference, or of HEAD where none is named, newest
    /// first: the walk from the commit the reference stands at.
    pub fn log(&self, refname: Option<&str>) -> (r: Result<Vec<Commit>, Missing>)
        ensures
            r matches Err(missing) ==> missing == Missing::Nowhere,
    {
        let refname = self.get_refname(refname)?;
        let reference = self.get_ref(refname.as_str())?;
        let head_commit = match git::peel_to_commit(&reference) {
            Some(commit) => commit,
            None => {
                return Err(Missing::Nowhere);
            },
        };
        let start = git::commit_id(&head_commit);
        self.walk(&start)
    }

    /// The listing of the directory `subpath` at `refname`, or at HEAD
    /// where no reference is named.
    ///
    /// An absent or empty `subpath` means the root. Where the path leads
    /// to a file, the answer is `Elsewhere("blob")`: the file view has it.
    /// Where the reference or the path does not resolve, it is `Nowhere`.
    pub fn tree(&self, refname: Option<&str>, subpath: Option<&str>) -> (r: Result<Tree<'_>, Missing>)
        ensures
            r matches Err(missing) ==> missing == Missing::Nowhere || (is_subtree(opt_str(subpath))
                && missing.location() == Some("blob"@)),
            r matches Ok(listing) ==> {
                &&& refname matches Some(asked) ==> listing.refname@ == asked@
                &&& exists|history: Seq<Commit>|
                    is_listing(
                        listing@,
                        listing.entries@,
                        self.url_text(),
                        listing.refname@,
                        opt_str(subpath),
                        listing.id@,
                        history,
                    )
                &&& exists|handle: GitTree<'_>|
                    #[trigger] lists_tree(
                        listing.entries@,
                        handle,
                        self.url_text(),
                        listing.refname@,
                        opt_str(subpath),
                    )
            },
    {
        let refname = self.get_refname(refname)?;
        let reference = self.get_ref(refname.as_str())?;
        let root = or_nowhere(git::peel_to_tree(&reference))?;
        let below_root = match subpath {
            Some(path) => path.unicode_len() > 0,
            None => false,
        };
        let target = if below_root {
            let path = subpath.unwrap();
            let id = git::tree_path_id(&root, path);
            let found = match &id {
                Some(id) => match git::find_object(&self.git2, id) {
                    Some(object) => Some(git::object_kind(&object)),
                    None => None,
                },
                None => None,
            };
            tree_target(found)?;
            or_nowhere(id)?
        } else {
            git::tree_id(&root)
        };
        Tree::new(refname.as_str(), subpath, &target, self)
    }

    /// The text of the listing's readme: of the first file in it that is
    /// called `readme.md`, `README.md`, `readme` or `README`.
    pub fn readme<'a>(&'a self, tree: &'a Tree) -> (r: Result<&'a str, Missing>)
        ensures
            r matches Err(missing) ==> missing == Missing::Nowhere,
            forall|i: int|
                0 <= i < tree.entries@.len() && is_first_readme(entry_views(tree.entries@), i) ==> {
                    let content = (#[trigger] tree.entries@[i]).content;
                    &&& r is Ok <==> content is Some && valid_utf8(content->Some_0@)
                    &&& r matches Ok(text) ==> text@ == decode_utf8(content->Some_0@)
                },
            (forall|i: int|
                0 <= i < tree.entries@.len() ==> !is_readme(#[trigger] entry_views(tree.entries@)[i]))
                ==> r is Err,
    {
        let mut i: usize = 0;
        while i < tree.entries.len()
            invariant
                i <= tree.entries@.len(),
                forall|k: int| 0 <= k < i ==> !is_readme(#[trigger] entry_views(tree.entries@)[k]),
            decreases tree.entries@.len() - i,
        {
            let entry = &tree.entries[i];
            let name = entry.name.as_str();
            let named = str_eq(name, "readme.md") || str_eq(name, "README.md") || str_eq(
                name,
                "readme",
            ) || str_eq(name, "README");
            let is_file = match entry.kind {
                TreeEntryKind::Blob => true,
                TreeEntryKind::Tree => false,
            };
            proof {
                assert(entry_views(tree.entries@)[i as int] == entry@);
            }
            if named && is_file {
                proof {
                    assert(is_first_readme(entry_views(tree.entries@), i as int));
                    assert forall|k: int|
                        0 <= k < tree.entries@.len() && is_first_readme(
                            entry_views(tree.entries@),
                            k,
                        ) implies k == i by {
                        if k < i {
                            assert(!is_readme(entry_views(tree.entries@)[k]));
                        } else if k > i {
                            assert(is_readme(entry_views(tree.entries@)[i as int]));
                        }
                    }
                }
                return entry.content();
            }
            i += 1;
        }
        Err(Missing::Nowhere)
    }

    /// Every reference of the repository that can be read.
    pub fn references(&self) -> (r: Result<Vec<Reference>, Missing>)
        ensures
            r matches Err(missing) ==> missing == Missing::Nowhere,
    {
        let handles = match git::references(&self.git2) {
            Some(handles) => handles,
            None => {
                return Err(Missing::Nowhere);
            },
        };
        let mut found: Vec<Reference> = Vec::new();
        let mut i: usize = 0;
        while i < handles.len()
            invariant
                i <= handles@.len(),
            decreases handles@.len() - i,
        {
            match &handles[i] {
                Some(handle) => {
                    found.push(read_reference(handle));
                },
                None => {},
            }
            i += 1;
        }
        Ok(found)
    }

    /// The names of the repository's tags and of its branches.
    pub fn refs(&self) -> (r: Result<(Vec<String>, Vec<String>), Missing>)
        ensures
            r matches Err(missing) ==> missing == Missing::Nowhere,
    {
        let references = self.references()?;
        Ok(split_refs(&references))
    }

    /// The lines of the patch that leads from `from`, or from nothing, to
    /// `to`, as the differ emits them; `None` where a tree cannot be read or
    /// the differ fails.
    fn patch_lines(&self, from: Option<&Commit>, to: &Commit) -> (r: Option<Vec<PatchLine>>) {
        let new_tree = match git::find_tree(&self.git2, &to.tree_id) {
            Some(tree) => tree,
            None => {
                return None;
            },
        };
        let old_tree = match from {
            Some(commit) => match git::find_tree(&self.git2, &commit.tree_id) {
                Some(tree) => Some(tree),
                None => {
                    return None;
                },
            },
            None => None,
        };
        match git::diff_trees(&self.git2, old_tree.as_ref(), &new_tree) {
            Some(diff) => git::diff_patch_lines(&diff),
            None => None,
        }
    }

    /// The patches that lead from `from`, or from nothing, to `to`: one
    /// for each file that differs, in the differ's order.
    ///
    /// Patches are best effort: where a tree cannot be read or the differ
    /// fails, there are none. What is returned is what [`patches_of`] makes
    /// of the differ's answer.
    pub fn diff(&self, from: Option<&Commit>, to: &Commit) -> (r: Vec<FilePatch>)
        ensures
            exists|lines: Option<Vec<PatchLine>>| patch_views(r@) == #[trigger] patches_for(lines),
            exists|lines: Seq<PatchLineView>| patch_views(r@) == #[trigger] segmented(lines),
    {
        let lines = self.patch_lines(from, to);
        let ghost answer = lines;
        let patches = patches_of(lines);
        proof {
            assert(patch_views(patches@) == patches_for(answer));
            if answer is Some {
                assert(patch_views(patches@) == segmented(line_views(answer->Some_0@)));
            } else {
                assert(patch_views(patches@) == segmented(Seq::<PatchLineView>::empty()));
            }
        }
        patches
    }

    /// One line that tells the repository's name and description.
    pub fn describe(&self) -> (r: String)
        requires
            self.description is Some,
        ensures
            r@ == "Repository {name: "@ + self.name@ + ", description: "@
                + self.description->Some_0@ + "}"@,
    {
        let mut line = "Repository {name: ".to_owned();
        line.append(self.name.as_str());
        line.append(", description: ");
        match &self.description {
            Some(description) => {
                line.append(description.as_str());
            },
            None => {},
        }
        line.append("}");
        line
    }
}

} // verus!
