//! The object store, as far as this library reaches into it.
//!
//! Every function here is trusted: its body is a call into `git2`, and what
//! comes back is copied into plain values. What a call returns depends on
//! what the repository holds on disk, so hardly any of them promises
//! anything about its result; the callers are verified for whatever comes
//! back. A tree, once loaded, does not change: its items have names.
//! A failure of `git2` is reported as `None`.

use git2::Commit as GitCommit;
use git2::Diff as GitDiff;
use git2::Object as GitObject;
use git2::Reference as GitReference;
use git2::Repository as GitRepository;
use git2::Revwalk as GitRevwalk;
use git2::Tree as GitTree;
use vstd::prelude::*;
use crate::diff::PatchLine;
use crate::oid::{ObjectId, id_text};
use crate::text::opt_text;

verus! {

#[verifier::external_type_specification]
#[verifier::external_body]
pub struct ExGitRepository(GitRepository);

#[verifier::external_type_specification]
#[verifier::external_body]
pub struct ExGitReference<'a>(GitReference<'a>);

#[verifier::external_type_specification]
#[verifier::external_body]
pub struct ExGitCommit<'a>(GitCommit<'a>);

#[verifier::external_type_specification]
#[verifier::external_body]
pub struct ExGitTree<'a>(GitTree<'a>);

#[verifier::external_type_specification]
#[verifier::external_body]
pub struct ExGitObject<'a>(GitObject<'a>);

#[verifier::external_type_specification]
#[verifier::external_body]
pub struct ExGitRevwalk<'a>(GitRevwalk<'a>);

#[verifier::external_type_specification]
#[verifier::external_body]
pub struct ExGitDiff<'a>(GitDiff<'a>);

// A walker is an iterator over ids and errors; its declaration needs both
// types declared, though no function here hands either on.
#[verifier::external_type_specification]
#[verifier::external_body]
pub struct ExOid(git2::Oid);

#[verifier::external_type_specification]
#[verifier::external_body]
pub struct ExError(git2::Error);

/// What kind of object an id turned out to name.
#[derive(Clone, Copy, Debug, PartialEq, Eq, Structural)]
pub enum ObjectKind {
    Blob,
    Tree,
    Commit,
    Tag,
    Unknown,
}

/// `git2::Repository::open_bare`: opens the bare repository at `path`.
#[verifier::external_body]
pub(crate) fn open_bare(path: &str) -> (r: Option<GitRepository>) {
    GitRepository::open_bare(path).ok()
}

/// `git2::Repository::head`: the reference that HEAD resolves to.
#[verifier::external_body]
pub(crate) fn head<'a>(repo: &'a GitRepository) -> (r: Option<GitReference<'a>>) {
    repo.head().ok()
}

/// `git2::Repository::resolve_reference_from_short_name`: the reference
/// that a branch or tag name without its namespace stands for.
#[verifier::external_body]
pub(crate) fn resolve_short_name<'a>(repo: &'a GitRepository, name: &str) -> (r: Option<
    GitReference<'a>,
>) {
    repo.resolve_reference_from_short_name(name).ok()
}

/// `git2::Repository::references`, walked to its end: every reference of
/// the repository, `None` in place of one that could not be read.
#[verifier::external_body]
pub(crate) fn references<'a>(repo: &'a GitRepository) -> (r: Option<
    Vec<Option<GitReference<'a>>>,
>) {
    Some(repo.references().ok()?.map(|reference| reference.ok()).collect())
}

/// `git2::Repository::revwalk`: a fresh history walker.
#[verifier::external_body]
pub(crate) fn revwalk<'a>(repo: &'a GitRepository) -> (r: Option<GitRevwalk<'a>>) {
    repo.revwalk().ok()
}

/// `git2::Repository::find_commit`: the commit with this id.
#[verifier::external_body]
pub(crate) fn find_commit<'a>(repo: &'a GitRepository, id: &ObjectId) -> (r: Option<
    GitCommit<'a>,
>) {
    repo.find_commit(git2::Oid::from_str(&id.hex).ok()?).ok()
}

/// `git2::Repository::find_tree`: the tree with this id.
#[verifier::external_body]
pub(crate) fn find_tree<'a>(repo: &'a GitRepository, id: &ObjectId) -> (r: Option<
    GitTree<'a>,
>) {
    repo.find_tree(git2::Oid::from_str(&id.hex).ok()?).ok()
}

/// `git2::Repository::find_object`: the object with this id, of any kind.
#[verifier::external_body]
pub(crate) fn find_object<'a>(repo: &'a GitRepository, id: &ObjectId) -> (r: Option<
    GitObject<'a>,
>) {
    repo.find_object(git2::Oid::from_str(&id.hex).ok()?, None).ok()
}

/// `git2::Repository::diff_tree_to_tree` with default options: the
/// difference that leads from `old`, or from the empty tree, to `new`.
#[verifier::external_body]
pub(crate) fn diff_trees<'a>(
    repo: &'a GitRepository,
    old: Option<&GitTree<'_>>,
    new: &GitTree<'_>,
) -> (r: Option<GitDiff<'a>>) {
    repo.diff_tree_to_tree(old, Some(new), Some(&mut git2::DiffOptions::default())).ok()
}

/// `git2::Reference::shorthand`: the name without its namespace.
#[verifier::external_body]
pub(crate) fn reference_shorthand(reference: &GitReference<'_>) -> (r: Option<String>) {
    reference.shorthand().ok().map(str::to_owned)
}

/// `git2::Reference::name`: the full name.
#[verifier::external_body]
pub(crate) fn reference_name(reference: &GitReference<'_>) -> (r: Option<String>) {
    reference.name().ok().map(str::to_owned)
}

/// `git2::Reference::target`: the id a direct reference points at.
#[verifier::external_body]
pub(crate) fn reference_target(reference: &GitReference<'_>) -> (r: Option<ObjectId>) {
    reference.target().map(|oid| ObjectId { hex: oid.to_string() })
}

/// `git2::Reference::is_branch`.
#[verifier::external_body]
pub(crate) fn reference_is_branch(reference: &GitReference<'_>) -> (r: bool) {
    reference.is_branch()
}

/// `git2::Reference::is_tag`.
#[verifier::external_body]
pub(crate) fn reference_is_tag(reference: &GitReference<'_>) -> (r: bool) {
    reference.is_tag()
}

/// `git2::Reference::peel_to_commit`: the commit behind a reference.
#[verifier::external_body]
pub(crate) fn peel_to_commit<'a>(reference: &GitReference<'a>) -> (r: Option<
    GitCommit<'a>,
>) {
    reference.peel_to_commit().ok()
}

/// `git2::Reference::peel_to_tree`: the root tree behind a reference.
#[verifier::external_body]
pub(crate) fn peel_to_tree<'a>(reference: &GitReference<'a>) -> (r: Option<GitTree<'a>>) {
    reference.peel_to_tree().ok()
}

/// `git2::Revwalk::push`: marks a commit to start the walk from. Returns
/// whether the walker took it.
#[verifier::external_body]
pub(crate) fn revwalk_push(walk: &mut GitRevwalk<'_>, id: &ObjectId) -> (r: bool) {
    git2::Oid::from_str(&id.hex).and_then(|oid| walk.push(oid)).is_ok()
}

/// `git2::Revwalk::set_sorting` with `Sort::TOPOLOGICAL`: children come
/// before their parents. Returns whether the walker took the order.
#[verifier::external_body]
pub(crate) fn revwalk_sort_topological(walk: &mut GitRevwalk<'_>) -> (r: bool) {
    walk.set_sorting(git2::Sort::TOPOLOGICAL).is_ok()
}

/// `git2::Revwalk::next`, called until the walk ends: the ids in the order
/// the walker gives them, or `None` if it failed on the way.
#[verifier::external_body]
pub(crate) fn revwalk_ids(walk: GitRevwalk<'_>) -> (r: Option<Vec<ObjectId>>) {
    walk.map(|step| step.map(|oid| ObjectId { hex: oid.to_string() }).ok()).collect()
}

/// `git2::Commit::id`.
#[verifier::external_body]
pub(crate) fn commit_id(commit: &GitCommit<'_>) -> (r: ObjectId) {
    ObjectId { hex: commit.id().to_string() }
}

/// `git2::Commit::tree_id`: the id of the commit's root tree.
#[verifier::external_body]
pub(crate) fn commit_tree_id(commit: &GitCommit<'_>) -> (r: ObjectId) {
    ObjectId { hex: commit.tree_id().to_string() }
}

/// `git2::Object::short_id` of the commit: its abbreviated id.
#[verifier::external_body]
pub(crate) fn commit_short_id(commit: &GitCommit<'_>) -> (r: Option<String>) {
    commit.as_object().short_id().ok()?.as_str().ok().map(str::to_owned)
}

/// `git2::Commit::time`: the commit time in seconds since the epoch.
#[verifier::external_body]
pub(crate) fn commit_seconds(commit: &GitCommit<'_>) -> (r: i64) {
    commit.time().seconds()
}

/// `git2::Commit::summary`: the first paragraph of the message.
#[verifier::external_body]
pub(crate) fn commit_summary(commit: &GitCommit<'_>) -> (r: Option<String>) {
    commit.summary().ok()?.map(str::to_owned)
}

/// `git2::Commit::message`: the whole message.
#[verifier::external_body]
pub(crate) fn commit_message(commit: &GitCommit<'_>) -> (r: Option<String>) {
    commit.message().ok().map(str::to_owned)
}

/// `git2::Commit::author` and `git2::Signature::name`.
#[verifier::external_body]
pub(crate) fn commit_author_name(commit: &GitCommit<'_>) -> (r: Option<String>) {
    commit.author().name().ok().map(str::to_owned)
}

/// `git2::Commit::author` and `git2::Signature::email`.
#[verifier::external_body]
pub(crate) fn commit_author_email(commit: &GitCommit<'_>) -> (r: Option<String>) {
    commit.author().email().ok().map(str::to_owned)
}

/// `git2::Commit::committer` and `git2::Signature::name`.
#[verifier::external_body]
pub(crate) fn commit_committer_name(commit: &GitCommit<'_>) -> (r: Option<String>) {
    commit.committer().name().ok().map(str::to_owned)
}

/// `git2::Commit::committer` and `git2::Signature::email`.
#[verifier::external_body]
pub(crate) fn commit_committer_email(commit: &GitCommit<'_>) -> (r: Option<String>) {
    commit.committer().email().ok().map(str::to_owned)
}

/// `git2::Tree::id`.
#[verifier::external_body]
pub(crate) fn tree_id(tree: &GitTree<'_>) -> (r: ObjectId) {
    ObjectId { hex: tree.id().to_string() }
}

/// The names of the items of a loaded tree, in the tree's order; `None`
/// for a name that is not valid text.
pub uninterp spec fn tree_item_names(tree: GitTree<'_>) -> Seq<Option<Seq<char>>>;

/// The ids of the objects that the items of a loaded tree point at, in
/// the tree's order.
pub uninterp spec fn tree_item_ids(tree: GitTree<'_>) -> Seq<Seq<char>>;

/// `git2::Tree::len`: the number of items of a tree.
#[verifier::external_body]
pub(crate) fn tree_len(tree: &GitTree<'_>) -> (r: usize)
    ensures
        r == tree_item_ids(*tree).len(),
        r == tree_item_names(*tree).len(),
{
    tree.len()
}

/// `git2::Tree::get` and `git2::TreeEntry::name`: the name of the item at
/// a position, if there is one and its name is valid text.
#[verifier::external_body]
pub(crate) fn tree_entry_name(tree: &GitTree<'_>, position: usize) -> (r: Option<String>)
    ensures
        opt_text(r) == (if position < tree_item_names(*tree).len() {
            tree_item_names(*tree)[position as int]
        } else {
            None
        }),
{
    tree.get(position)?.name().ok().map(str::to_owned)
}

/// `git2::Tree::get` and `git2::TreeEntry::id`: the id of the item at a
/// position, if there is one.
#[verifier::external_body]
pub(crate) fn tree_entry_id(tree: &GitTree<'_>, position: usize) -> (r: Option<ObjectId>)
    ensures
        id_text(r) == (if position < tree_item_ids(*tree).len() {
            Some(tree_item_ids(*tree)[position as int])
        } else {
            None
        }),
{
    tree.get(position).map(|entry| ObjectId { hex: entry.id().to_string() })
}

/// `git2::Tree::get_path` and `git2::TreeEntry::id`: the id found under a
/// `/`-separated path below this tree.
#[verifier::external_body]
pub(crate) fn tree_path_id(tree: &GitTree<'_>, path: &str) -> (r: Option<ObjectId>) {
    tree.get_path(std::path::Path::new(path)).ok().map(|entry| ObjectId { hex: entry.id().to_string() })
}

/// `git2::Object::kind`.
#[verifier::external_body]
pub(crate) fn object_kind(object: &GitObject<'_>) -> (r: ObjectKind) {
    match object.kind() {
        Some(git2::ObjectType::Blob) => ObjectKind::Blob,
        Some(git2::ObjectType::Tree) => ObjectKind::Tree,
        Some(git2::ObjectType::Commit) => ObjectKind::Commit,
        Some(git2::ObjectType::Tag) => ObjectKind::Tag,
        Some(git2::ObjectType::Any) => ObjectKind::Unknown,
        None => ObjectKind::Unknown,
    }
}

/// `git2::Object::as_blob` and `git2::Blob::content`: the bytes of the
/// object, if it is a blob.
#[verifier::external_body]
pub(crate) fn object_blob_content(object: &GitObject<'_>) -> (r: Option<Vec<u8>>) {
    object.as_blob().map(|blob| blob.content().to_vec())
}

/// `git2::Diff::print` in patch format: every line of the patch in the
/// order the differ emits it, each with the id of the new side of its file,
/// its origin marker and its bytes. `None` if the differ failed.
#[verifier::external_body]
pub(crate) fn diff_patch_lines(diff: &GitDiff<'_>) -> (r: Option<Vec<PatchLine>>) {
    let mut lines = Vec::new();
    diff.print(git2::DiffFormat::Patch, |delta, _hunk, line| {
        lines.push(PatchLine {
            file_id: ObjectId { hex: delta.new_file().id().to_string() },
            origin: line.origin(),
            content: line.content().to_vec(),
        });
        true
    }).ok()?;
    Some(lines)
}

} // verus!
