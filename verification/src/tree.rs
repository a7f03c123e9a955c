use git2::Tree as GitTree;
use vstd::prelude::*;
use vstd::string::*;
use vstd::utf8::*;
use crate::commit::{Commit, CommitView, opt_commit};
use crate::git;
use crate::git::{ObjectKind, tree_item_ids, tree_item_names};
use crate::kind::TreeEntryKind;
use crate::missing::{Missing, or_nowhere};
use crate::oid::ObjectId;
use crate::order::{
    Ranked,
    arrange,
    arranged,
    lemma_picks_are_distinct,
    lemma_stable_order_is_unique,
    picked,
    reversed,
    stable_order,
    stable_order_of,
};
use crate::repository::{Repository, chosen_refname, opt_str};
use crate::text::{
    bytes_le,
    bytes_precede,
    from_utf8,
    lemma_bytes_le_total,
    lemma_bytes_le_transitive,
    lowercase_of,
    opt_text,
    push_path,
    pushed_path,
    to_lowercase,
};

verus! {

/// One entry of a directory listing: what the directory holds under a
/// name, where it is served, and the commit credited with its content.
#[derive(Debug, PartialEq, Eq)]
pub struct TreeEntry {
    pub name: String,
    pub kind: TreeEntryKind,
    pub url: Option<String>,
    /// The object the entry points at.
    pub id: ObjectId,
    /// The bytes of the file, where the entry is a file.
    pub content: Option<Vec<u8>>,
    pub last_commit: Option<Commit>,
}

pub struct TreeEntryView {
    pub name: Seq<char>,
    pub kind: TreeEntryKind,
    pub url: Option<Seq<char>>,
    pub id: Seq<char>,
    pub content: Option<Seq<u8>>,
    pub last_commit: Option<CommitView>,
}

/// The bytes of an optional buffer.
pub open spec fn opt_bytes(bytes: Option<Vec<u8>>) -> Option<Seq<u8>> {
    match bytes {
        Some(bytes) => Some(bytes@),
        None => None,
    }
}

impl View for TreeEntry {
    type V = TreeEntryView;

    open spec fn view(&self) -> TreeEntryView {
        TreeEntryView {
            name: self.name@,
            kind: self.kind,
            url: opt_text(self.url),
            id: self.id@,
            content: opt_bytes(self.content),
            last_commit: opt_commit(self.last_commit),
        }
    }
}

/// The views of a list of entries.
pub open spec fn entry_views(entries: Seq<TreeEntry>) -> Seq<TreeEntryView> {
    Seq::new(entries.len(), |i: int| entries[i]@)
}

/// Whether a listing is of a directory below the root.
pub open spec fn is_subtree(subpath: Option<Seq<char>>) -> bool {
    subpath matches Some(path) && path.len() > 0
}

/// What stands in an entry's address between the reference and the name.
pub open spec fn directory_part(subpath: Option<Seq<char>>) -> Seq<char> {
    match subpath {
        Some(path) => if path.len() > 0 {
            "/"@ + path + "/"@
        } else {
            "/"@
        },
        None => "/"@,
    }
}

/// The address of an entry: the repository's, the view that fits the
/// entry's kind, the reference, the directory, the name.
pub open spec fn entry_url(
    repo_url: Seq<char>,
    kind: TreeEntryKind,
    refname: Seq<char>,
    subpath: Option<Seq<char>>,
    name: Seq<char>,
) -> Seq<char> {
    repo_url + kind.prefix() + "/"@ + refname + directory_part(subpath) + name
}

/// The address of a directory of the listing's reference.
pub open spec fn tree_url(repo_url: Seq<char>, refname: Seq<char>, path: Seq<char>) -> Seq<char> {
    repo_url + "/tree/"@ + refname + "/"@ + path
}

/// The path of an entry below the root of its reference.
pub open spec fn path_below(subpath: Option<Seq<char>>, name: Seq<char>) -> Seq<char> {
    match subpath {
        Some(path) => pushed_path(path, name),
        None => pushed_path(Seq::empty(), name),
    }
}

/// By what an entry is placed in a listing: its kind, then its name
/// without regard to case.
pub struct EntryRank {
    pub kind: TreeEntryKind,
    /// The name in lower case.
    pub folded: String,
}

/// `a` may stand before `b` in a listing: a directory before a file, and
/// among entries of one kind the one whose lower-case name comes first in
/// byte order.
pub open spec fn may_precede(
    a_kind: TreeEntryKind,
    a_folded: Seq<char>,
    b_kind: TreeEntryKind,
    b_folded: Seq<char>,
) -> bool {
    a_kind.place() < b_kind.place() || (a_kind == b_kind && bytes_le(
        encode_utf8(a_folded),
        encode_utf8(b_folded),
    ))
}

impl Ranked for EntryRank {
    open spec fn rank_le(&self, other: &Self) -> bool {
        may_precede(self.kind, self.folded@, other.kind, other.folded@)
    }

    fn precedes(&self, other: &Self) -> (r: bool) {
        match (self.kind, other.kind) {
            (TreeEntryKind::Tree, TreeEntryKind::Blob) => true,
            (TreeEntryKind::Blob, TreeEntryKind::Tree) => false,
            _ => bytes_precede(self.folded.as_str().as_bytes(), other.folded.as_str().as_bytes()),
        }
    }

    proof fn lemma_total(a: &Self, b: &Self) {
        lemma_bytes_le_total(encode_utf8(a.folded@), encode_utf8(b.folded@));
    }

    proof fn lemma_transitive(a: &Self, b: &Self, c: &Self) {
        if a.kind == b.kind && b.kind == c.kind {
            lemma_bytes_le_transitive(
                encode_utf8(a.folded@),
                encode_utf8(b.folded@),
                encode_utf8(c.folded@),
            );
        }
    }
}

/// The rank of an entry.
pub open spec fn rank_matches(rank: EntryRank, entry: TreeEntryView) -> bool {
    rank.kind == entry.kind && rank.folded@ == lowercase_of(entry.name)
}

/// A listing is in order: every directory stands before every file, and
/// within each kind the names ascend without regard to case.
pub open spec fn in_listing_order(entries: Seq<TreeEntryView>) -> bool {
    forall|i: int, j: int|
        #![trigger entries[i], entries[j]]
        0 <= i < j < entries.len() ==> {
            &&& entries[i].kind == TreeEntryKind::Blob ==> entries[j].kind == TreeEntryKind::Blob
            &&& entries[i].kind == entries[j].kind ==> bytes_le(
                encode_utf8(lowercase_of(entries[i].name)),
                encode_utf8(lowercase_of(entries[j].name)),
            )
        }
}

/// `after` is `before` put in listing order, entries that rank the same
/// keeping the order they had.
pub open spec fn listed(after: Seq<TreeEntry>, before: Seq<TreeEntry>) -> bool {
    exists|picks: Seq<usize>, ranks: Seq<EntryRank>|
        {
            &&& ranks.len() == before.len()
            &&& forall|i: int| 0 <= i < ranks.len() ==> rank_matches(#[trigger] ranks[i], before[i]@)
            &&& stable_order_of(picks, ranks)
            &&& after == arranged(before, picks)
        }
}

/// What is listed is in listing order, and holds the entries it was made
/// from and no others.
pub proof fn lemma_listed_is_ordered(after: Seq<TreeEntry>, before: Seq<TreeEntry>)
    requires
        listed(after, before),
    ensures
        in_listing_order(entry_views(after)),
        after.len() == before.len(),
        forall|i: int| 0 <= i < after.len() ==> before.contains(#[trigger] after[i]),
        forall|i: int| 0 <= i < before.len() ==> after.contains(#[trigger] before[i]),
{
    let (picks, ranks) = choose|picks: Seq<usize>, ranks: Seq<EntryRank>|
        {
            &&& ranks.len() == before.len()
            &&& forall|i: int| 0 <= i < ranks.len() ==> rank_matches(#[trigger] ranks[i], before[i]@)
            &&& stable_order_of(picks, ranks)
            &&& after == arranged(before, picks)
        };
    let views = entry_views(after);
    assert forall|i: int, j: int|
        #![trigger views[i], views[j]]
        0 <= i < j < views.len() implies {
        &&& views[i].kind == TreeEntryKind::Blob ==> views[j].kind == TreeEntryKind::Blob
        &&& views[i].kind == views[j].kind ==> bytes_le(
            encode_utf8(lowercase_of(views[i].name)),
            encode_utf8(lowercase_of(views[j].name)),
        )
    } by {
        let a = ranks[picks[i] as int];
        let b = ranks[picks[j] as int];
        assert(a.rank_le(&b));
        assert(rank_matches(a, before[picks[i] as int]@));
        assert(rank_matches(b, before[picks[j] as int]@));
        assert(views[i] == before[picks[i] as int]@);
        assert(views[j] == before[picks[j] as int]@);
    }
    assert forall|i: int| 0 <= i < after.len() implies before.contains(#[trigger] after[i]) by {
        assert(before[picks[i] as int] == after[i]);
    }
    assert forall|i: int| 0 <= i < before.len() implies after.contains(#[trigger] before[i]) by {
        assert(picked(picks, i));
        let at = choose|at: int| 0 <= at < picks.len() && picks[at] == i;
        assert(after[at] == before[i]);
    }
}

/// Listing order is decided by the entries alone: what is listed from the
/// same entries is the same.
pub proof fn lemma_listing_is_unique(first: Seq<TreeEntry>, second: Seq<TreeEntry>, before: Seq<TreeEntry>)
    requires
        listed(first, before),
        listed(second, before),
    ensures
        first == second,
{
    let (picks, ranks) = choose|picks: Seq<usize>, ranks: Seq<EntryRank>|
        {
            &&& ranks.len() == before.len()
            &&& forall|i: int| 0 <= i < ranks.len() ==> rank_matches(#[trigger] ranks[i], before[i]@)
            &&& stable_order_of(picks, ranks)
            &&& first == arranged(before, picks)
        };
    let (others_picks, others) = choose|picks: Seq<usize>, ranks: Seq<EntryRank>|
        {
            &&& ranks.len() == before.len()
            &&& forall|i: int| 0 <= i < ranks.len() ==> rank_matches(#[trigger] ranks[i], before[i]@)
            &&& stable_order_of(picks, ranks)
            &&& second == arranged(before, picks)
        };
    assert forall|a: int, b: int| 0 <= a < ranks.len() && 0 <= b < ranks.len() implies ranks[a].rank_le(
        &ranks[b],
    ) == others[a].rank_le(&others[b]) by {
        assert(rank_matches(ranks[a], before[a]@));
        assert(rank_matches(others[a], before[a]@));
        assert(rank_matches(ranks[b], before[b]@));
        assert(rank_matches(others[b], before[b]@));
    }
    lemma_stable_order_is_unique(picks, others_picks, ranks, others);
}

/// Puts entries in listing order: directories first, then files, each
/// kind by name without regard to case; entries that rank the same keep
/// the order they came in.
pub fn sort_entries(entries: Vec<TreeEntry>) -> (r: Vec<TreeEntry>)
    ensures
        listed(r@, entries@),
        in_listing_order(entry_views(r@)),
        r@.len() == entries@.len(),
{
    let mut ranks: Vec<EntryRank> = Vec::new();
    let mut i: usize = 0;
    while i < entries.len()
        invariant
            i <= entries@.len(),
            ranks@.len() == i,
            forall|k: int| 0 <= k < i ==> rank_matches(#[trigger] ranks@[k], entries@[k]@),
        decreases entries@.len() - i,
    {
        ranks.push(entries[i].rank());
        i += 1;
    }
    let picks = stable_order(&ranks);
    proof {
        lemma_picks_are_distinct(picks@, ranks@);
    }
    let ghost before = entries@;
    let sorted = arrange(entries, &picks);
    proof {
        assert(listed(sorted@, before));
        lemma_listed_is_ordered(sorted@, before);
    }
    sorted
}

impl TreeEntry {
    pub fn from_blob(name: String, last_commit: Option<Commit>, id: ObjectId, content: Vec<u8>) -> (r:
        TreeEntry)
        ensures
            r@ == (TreeEntryView {
                name: name@,
                kind: TreeEntryKind::Blob,
                url: None,
                id: id@,
                content: Some(content@),
                last_commit: opt_commit(last_commit),
            }),
    {
        TreeEntry {
            name,
            kind: TreeEntryKind::Blob,
            url: None,
            id,
            content: Some(content),
            last_commit,
        }
    }

    pub fn from_tree(name: String, last_commit: Option<Commit>, id: ObjectId) -> (r: TreeEntry)
        ensures
            r@ == (TreeEntryView {
                name: name@,
                kind: TreeEntryKind::Tree,
                url: None,
                id: id@,
                content: None,
                last_commit: opt_commit(last_commit),
            }),
    {
        TreeEntry { name, kind: TreeEntryKind::Tree, url: None, id, content: None, last_commit }
    }

    /// By what this entry is placed in a listing.
    pub fn rank(&self) -> (r: EntryRank)
        ensures
            rank_matches(r, self@),
    {
        EntryRank { kind: self.kind, folded: to_lowercase(self.name.as_str()) }
    }

    /// The file as text. Only a file has content, and only valid UTF-8 is
    /// text.
    pub fn content(&self) -> (r: Result<&str, Missing>)
        ensures
            r is Ok <==> self.kind == TreeEntryKind::Blob && self.content is Some && valid_utf8(
                self.content->Some_0@,
            ),
            r matches Ok(text) ==> text@ == decode_utf8(self.content->Some_0@),
            r matches Err(e) ==> e == Missing::Nowhere,
    {
        match self.kind {
            TreeEntryKind::Blob => match &self.content {
                Some(bytes) => match from_utf8(bytes.as_slice()) {
                    Some(text) => Ok(text),
                    None => Err(Missing::Nowhere),
                },
                None => Err(Missing::Nowhere),
            },
            TreeEntryKind::Tree => Err(Missing::Nowhere),
        }
    }

    /// Gives the entry its address below `url`, the address of its
    /// repository.
    pub fn set_url(&mut self, url: String, refname: &str, subpath: Option<&str>)
        ensures
            final(self)@ == (TreeEntryView {
                url: Some(
                    entry_url(url@, old(self).kind, refname@, opt_str(subpath), old(self).name@),
                ),
                ..old(self)@
            }),
    {
        let mut address = url;
        address.append(self.kind.url_prefix());
        address.append("/");
        address.append(refname);
        address.append("/");
        match subpath {
            Some(path) => {
                if path.unicode_len() > 0 {
                    address.append(path);
                    address.append("/");
                    proof {
                        assert(directory_part(opt_str(subpath)) =~= "/"@ + path@ + "/"@);
                    }
                }
            },
            None => {},
        }
        address.append(self.name.as_str());
        proof {
            assert(address@ =~= entry_url(
                url@,
                old(self).kind,
                refname@,
                opt_str(subpath),
                old(self).name@,
            ));
        }
        self.url = Some(address);
    }

    /// The summary of the commit credited with the entry.
    pub fn last_summary(&self) -> (r: Option<&str>)
        ensures
            opt_str(r) == (match self@.last_commit {
                Some(commit) => commit.summary,
                None => None,
            }),
    {
        match &self.last_commit {
            Some(commit) => match &commit.summary {
                Some(summary) => Some(summary.as_str()),
                None => None,
            },
            None => None,
        }
    }

    /// When the commit credited with the entry was made, in seconds since
    /// the epoch.
    pub fn last_update(&self) -> (r: Option<i64>)
        ensures
            r == (match self@.last_commit {
                Some(commit) => Some(commit.time),
                None => None,
            }),
    {
        match &self.last_commit {
            Some(commit) => Some(commit.time),
            None => None,
        }
    }

    /// The id of the commit credited with the entry.
    pub fn last_id(&self) -> (r: Option<ObjectId>)
        ensures
            crate::oid::id_text(r) == (match self@.last_commit {
                Some(commit) => Some(commit.id),
                None => None,
            }),
    {
        match &self.last_commit {
            Some(commit) => Some(commit.id.clone()),
            None => None,
        }
    }
}

/// The path of an entry below the root of its reference.
pub fn entry_path(subpath: Option<&str>, name: &str) -> (r: String)
    ensures
        r@ == path_below(opt_str(subpath), name@),
{
    match subpath {
        Some(path) => push_path(path, name),
        None => {
            let empty = "";
            proof {
                reveal_strlit("");
                assert(empty@ =~= Seq::<char>::empty());
            }
            push_path(empty, name)
        },
    }
}

/// `found_at` can say of the `i`-th commit that it holds `current` at the
/// place in question (`hit`), or that it does not.
pub open spec fn answers<F: Fn(usize) -> Option<ObjectId>>(
    found_at: F,
    i: usize,
    current: Seq<char>,
    hit: bool,
) -> bool {
    exists|found: Option<ObjectId>|
        #[trigger] call_ensures(found_at, (i,), found) && (crate::oid::id_text(found) == Some(current))
            == hit
}

/// Finds the commit to credit with an object.
///
/// `found_at(i)` tells which object the `i`-th of `count` commits, taken
/// oldest first, holds at the place in question. The credit goes to the
/// first of them at which that object is `current`: the earliest commit in
/// the history that has the content as it is now, whatever happened in
/// between. Later commits are not asked.
pub fn first_match<F: Fn(usize) -> Option<ObjectId>>(count: usize, found_at: F, current: &ObjectId) -> (r:
    Option<usize>)
    requires
        forall|i: usize| i < count ==> call_requires(found_at, (i,)),
    ensures
        r matches Some(hit) ==> hit < count && answers(found_at, hit, current@, true),
        forall|j: usize|
            j < (match r {
                Some(hit) => hit,
                None => count,
            }) ==> #[trigger] answers(found_at, j, current@, false),
{
    let mut i: usize = 0;
    while i < count
        invariant
            i <= count,
            forall|i: usize| i < count ==> call_requires(found_at, (i,)),
            forall|j: usize| j < i ==> #[trigger] answers(found_at, j, current@, false),
        decreases count - i,
    {
        let found = found_at(i);
        let hit = match &found {
            Some(id) => id.same(current),
            None => false,
        };
        assert(hit == (crate::oid::id_text(found) == Some(current@)));
        if hit {
            assert(answers(found_at, i, current@, true));
            return Some(i);
        }
        assert(answers(found_at, i, current@, false));
        i += 1;
    }
    None
}

/// What a lookup under a path gives to one who asked for a file: the
/// bytes of a file, a hint to the directory view for a directory, nothing
/// where nothing was found or what was found is neither.
pub open spec fn blob_outcome(found: Option<ObjectKind>, content: Option<Seq<u8>>) -> Result<
    Seq<u8>,
    Option<Seq<char>>,
> {
    match found {
        Some(ObjectKind::Blob) => match content {
            Some(bytes) => Ok(bytes),
            None => Err(None),
        },
        Some(ObjectKind::Tree) => Err(Some("tree"@)),
        _ => Err(None),
    }
}

/// The view of the result of a file lookup.
pub open spec fn blob_result(r: Result<Vec<u8>, Missing>) -> Result<Seq<u8>, Option<Seq<char>>> {
    match r {
        Ok(bytes) => Ok(bytes@),
        Err(missing) => Err(missing.location()),
    }
}

/// Decides what a file lookup returns: `found` is the kind of the object
/// under the path, if there is one, and `content` its bytes, if it has
/// any.
pub fn blob_of(found: Option<ObjectKind>, content: Option<Vec<u8>>) -> (r: Result<Vec<u8>, Missing>)
    ensures
        blob_result(r) == blob_outcome(found, opt_bytes(content)),
{
    match found {
        Some(ObjectKind::Blob) => match content {
            Some(bytes) => Ok(bytes),
            None => Err(Missing::Nowhere),
        },
        Some(ObjectKind::Tree) => Err(Missing::Elsewhere("tree".to_owned())),
        _ => Err(Missing::Nowhere),
    }
}

/// What a lookup under a path gives to one who asked for a directory: a
/// directory is one; a file is served elsewhere, under the file view;
/// nothing found, or anything else, is nowhere.
pub open spec fn tree_outcome(found: Option<ObjectKind>) -> Result<(), Option<Seq<char>>> {
    match found {
        Some(ObjectKind::Tree) => Ok(()),
        Some(ObjectKind::Blob) => Err(Some("blob"@)),
        _ => Err(None),
    }
}

/// Decides whether what was found under a path can be listed: `found` is
/// the kind of the object there, if there is one.
pub fn tree_target(found: Option<ObjectKind>) -> (r: Result<(), Missing>)
    ensures
        r is Ok <==> tree_outcome(found) is Ok,
        r matches Err(missing) ==> tree_outcome(found) == Err::<(), Option<Seq<char>>>(
            missing.location(),
        ),
{
    match found {
        Some(ObjectKind::Tree) => Ok(()),
        Some(ObjectKind::Blob) => Err(Missing::Elsewhere("blob".to_owned())),
        _ => Err(Missing::Nowhere),
    }
}

/// A path that leads to a file is never listed and never lost: asked for
/// as a directory, it is answered with a hint to the file view. A path
/// that leads nowhere is answered with `Nowhere`, never with a hint.
pub proof fn lemma_file_asked_as_directory_redirects()
    ensures
        tree_outcome(Some(ObjectKind::Blob)) == Err::<(), Option<Seq<char>>>(Some("blob"@)),
        tree_outcome(None) == Err::<(), Option<Seq<char>>>(None),
        blob_outcome(None, None) == Err::<Seq<u8>, Option<Seq<char>>>(None),
{
}

/// The commit that a scan of the history came to, if it came to one.
pub open spec fn credit_at(history: Seq<Commit>, found: Option<usize>) -> Option<CommitView> {
    match found {
        Some(i) => if i < history.len() {
            Some(history[i as int]@)
        } else {
            None
        },
        None => None,
    }
}

/// The entry that stands for what was read of one item of a tree: a
/// directory, or a file with its bytes, with the credit given; nothing for
/// an object of another kind, or a file without bytes.
pub open spec fn entry_read(
    name: Seq<char>,
    id: Seq<char>,
    kind: ObjectKind,
    content: Option<Seq<u8>>,
    credit: Option<CommitView>,
) -> Option<TreeEntryView> {
    match kind {
        ObjectKind::Tree => Some(
            TreeEntryView {
                name,
                kind: TreeEntryKind::Tree,
                url: None,
                id,
                content: None,
                last_commit: credit,
            },
        ),
        ObjectKind::Blob => match content {
            Some(bytes) => Some(
                TreeEntryView {
                    name,
                    kind: TreeEntryKind::Blob,
                    url: None,
                    id,
                    content: Some(bytes),
                    last_commit: credit,
                },
            ),
            None => None,
        },
        _ => None,
    }
}

/// The view of an optional entry.
pub open spec fn opt_entry(entry: Option<TreeEntry>) -> Option<TreeEntryView> {
    match entry {
        Some(entry) => Some(entry@),
        None => None,
    }
}

/// Makes the entry for one item of a tree from what was read of it: its
/// name, the id and kind of its object, the object's bytes if it has any,
/// and the place in `history` that the scan for its content came to. The
/// credit goes to the commit at that place.
pub fn credited_entry(
    name: String,
    id: ObjectId,
    kind: ObjectKind,
    content: Option<Vec<u8>>,
    found: Option<usize>,
    history: &Vec<Commit>,
) -> (r: Option<TreeEntry>)
    ensures
        opt_entry(r) == entry_read(name@, id@, kind, opt_bytes(content), credit_at(history@, found)),
{
    let credit = match found {
        Some(i) => {
            if i < history.len() {
                Some(history[i].clone())
            } else {
                None
            }
        },
        None => None,
    };
    match kind {
        ObjectKind::Tree => Some(TreeEntry::from_tree(name, credit, id)),
        ObjectKind::Blob => match content {
            Some(bytes) => Some(TreeEntry::from_blob(name, credit, id, bytes)),
            None => None,
        },
        _ => None,
    }
}

/// The listing of one directory at one reference.
pub struct Tree<'c> {
    pub repo_url: String,
    /// Whether the directory lies below the root, so that there is a way
    /// up from it.
    pub subtree: bool,
    pub repo: &'c Repository,
    pub entries: Vec<TreeEntry>,
    pub refname: String,
    /// The tree object that is listed.
    pub id: ObjectId,
}

pub struct TreeView {
    pub repo_url: Seq<char>,
    pub subtree: bool,
    pub entries: Seq<TreeEntryView>,
    pub refname: Seq<char>,
    pub id: Seq<char>,
}

impl<'c> View for Tree<'c> {
    type V = TreeView;

    open spec fn view(&self) -> TreeView {
        TreeView {
            repo_url: self.repo_url@,
            subtree: self.subtree,
            entries: entry_views(self.entries@),
            refname: self.refname@,
            id: self.id@,
        }
    }
}

/// An entry as a listing holds it: addressed, with content exactly where
/// it is a file.
pub open spec fn well_listed(
    entry: TreeEntryView,
    repo_url: Seq<char>,
    refname: Seq<char>,
    subpath: Option<Seq<char>>,
) -> bool {
    &&& entry.url == Some(entry_url(repo_url, entry.kind, refname, subpath, entry.name))
    &&& entry.kind == TreeEntryKind::Blob <==> entry.content is Some
}

/// The commit credited with an entry, if any, is one of `history`.
pub open spec fn credited_from(entry: TreeEntryView, history: Seq<Commit>) -> bool {
    entry.last_commit matches Some(commit) ==> exists|i: int|
        0 <= i < history.len() && (#[trigger] history[i])@ == commit
}

/// A listing of `tree` under `refname` and `subpath`, for the repository
/// at `repo_url`, credited from `history`.
pub open spec fn is_listing(
    listing: TreeView,
    entries: Seq<TreeEntry>,
    repo_url: Seq<char>,
    refname: Seq<char>,
    subpath: Option<Seq<char>>,
    tree: Seq<char>,
    history: Seq<Commit>,
) -> bool {
    &&& listing.repo_url == repo_url
    &&& listing.refname == refname
    &&& listing.id == tree
    &&& listing.subtree == is_subtree(subpath)
    &&& listing.entries == entry_views(entries)
    &&& in_listing_order(listing.entries)
    &&& forall|i: int|
        0 <= i < entries.len() ==> well_listed((#[trigger] entries[i])@, repo_url, refname, subpath)
    &&& forall|i: int| 0 <= i < entries.len() ==> credited_from((#[trigger] entries[i])@, history)
}

/// The entries among what was read of a tree, one item after another: an
/// item of which nothing was kept leaves no gap.
pub open spec fn kept_entries(read: Seq<Option<TreeEntry>>) -> Seq<TreeEntry>
    decreases read.len(),
{
    if read.len() == 0 {
        Seq::empty()
    } else {
        match read.last() {
            Some(entry) => kept_entries(read.drop_last()).push(entry),
            None => kept_entries(read.drop_last()),
        }
    }
}

/// An entry with its address.
pub open spec fn addressed(
    entry: TreeEntryView,
    repo_url: Seq<char>,
    refname: Seq<char>,
    subpath: Option<Seq<char>>,
) -> TreeEntryView {
    TreeEntryView { url: Some(entry_url(repo_url, entry.kind, refname, subpath, entry.name)), ..entry }
}

/// `entries` are the entries read of a tree, each with its address, in
/// listing order.
pub open spec fn is_assembled(
    entries: Seq<TreeEntry>,
    read: Seq<Option<TreeEntry>>,
    repo_url: Seq<char>,
    refname: Seq<char>,
    subpath: Option<Seq<char>>,
) -> bool {
    exists|unsorted: Seq<TreeEntry>|
        {
            &&& unsorted.len() == kept_entries(read).len()
            &&& forall|i: int|
                0 <= i < unsorted.len() ==> (#[trigger] unsorted[i])@ == addressed(
                    kept_entries(read)[i]@,
                    repo_url,
                    refname,
                    subpath,
                )
            &&& listed(entries, unsorted)
        }
}

/// `read` is what was read of a tree with these items: one outcome for
/// each item, in the tree's order, and what was kept of an item goes by
/// the item's name and id and has no address yet.
pub open spec fn read_of(
    read: Seq<Option<TreeEntry>>,
    names: Seq<Option<Seq<char>>>,
    ids: Seq<Seq<char>>,
) -> bool {
    &&& read.len() == ids.len()
    &&& read.len() == names.len()
    &&& forall|k: int|
        0 <= k < read.len() ==> ((#[trigger] read[k]) matches Some(entry) ==> {
            &&& names[k] == Some(entry@.name)
            &&& ids[k] == entry@.id
            &&& entry@.url is None
        })
}

/// `entries` list the loaded tree `handle`: every item of it was read,
/// and the entries are what was kept, each with its address, in listing
/// order.
pub open spec fn lists_tree(
    entries: Seq<TreeEntry>,
    handle: GitTree<'_>,
    repo_url: Seq<char>,
    refname: Seq<char>,
    subpath: Option<Seq<char>>,
) -> bool {
    exists|read: Seq<Option<TreeEntry>>|
        {
            &&& read_of(read, tree_item_names(handle), tree_item_ids(handle))
            &&& #[trigger] is_assembled(entries, read, repo_url, refname, subpath)
        }
}

/// The entry is one of those read, with its address.
pub open spec fn came_from(
    entry: TreeEntryView,
    read: Seq<Option<TreeEntry>>,
    repo_url: Seq<char>,
    refname: Seq<char>,
    subpath: Option<Seq<char>>,
) -> bool {
    exists|k: int|
        0 <= k < read.len() && (#[trigger] read[k]) is Some && entry == addressed(
            read[k]->Some_0@,
            repo_url,
            refname,
            subpath,
        )
}

/// Every entry kept was read.
pub proof fn lemma_kept_was_read(read: Seq<Option<TreeEntry>>)
    ensures
        kept_entries(read).len() <= read.len(),
        forall|i: int|
            0 <= i < kept_entries(read).len() ==> read.contains(Some(#[trigger] kept_entries(read)[i])),
    decreases read.len(),
{
    if read.len() > 0 {
        let shorter = read.drop_last();
        lemma_kept_was_read(shorter);
        let kept = kept_entries(read);
        assert forall|i: int| 0 <= i < kept.len() implies read.contains(Some(#[trigger] kept[i])) by {
            if i < kept_entries(shorter).len() {
                assert(kept[i] == kept_entries(shorter)[i]);
                assert(shorter.contains(Some(kept_entries(shorter)[i])));
                let k = choose|k: int| 0 <= k < shorter.len() && shorter[k] == Some(kept[i]);
                assert(read[k] == shorter[k]);
            } else {
                assert(read[read.len() - 1] == Some(kept[i]));
            }
        }
    }
}

/// A history turned round: oldest first where it was newest first.
pub fn oldest_first(log: Vec<Commit>) -> (r: Vec<Commit>)
    ensures
        r@ == log@.reverse(),
{
    reversed(log)
}

/// Listing order is decided by what the entries show: entries that show
/// the same are listed to show the same.
pub proof fn lemma_listing_follows_views(
    first: Seq<TreeEntry>,
    second: Seq<TreeEntry>,
    before: Seq<TreeEntry>,
    other: Seq<TreeEntry>,
)
    requires
        listed(first, before),
        listed(second, other),
        entry_views(before) == entry_views(other),
    ensures
        entry_views(first) == entry_views(second),
{
    let (picks, ranks) = choose|picks: Seq<usize>, ranks: Seq<EntryRank>|
        {
            &&& ranks.len() == before.len()
            &&& forall|i: int| 0 <= i < ranks.len() ==> rank_matches(#[trigger] ranks[i], before[i]@)
            &&& stable_order_of(picks, ranks)
            &&& first == arranged(before, picks)
        };
    let (other_picks, other_ranks) = choose|picks: Seq<usize>, ranks: Seq<EntryRank>|
        {
            &&& ranks.len() == other.len()
            &&& forall|i: int| 0 <= i < ranks.len() ==> rank_matches(#[trigger] ranks[i], other[i]@)
            &&& stable_order_of(picks, ranks)
            &&& second == arranged(other, picks)
        };
    assert(before.len() == entry_views(before).len());
    assert(other.len() == entry_views(other).len());
    assert forall|a: int, b: int| 0 <= a < ranks.len() && 0 <= b < ranks.len() implies ranks[a].rank_le(
        &ranks[b],
    ) == other_ranks[a].rank_le(&other_ranks[b]) by {
        assert(entry_views(before)[a] == before[a]@);
        assert(entry_views(other)[a] == other[a]@);
        assert(entry_views(before)[b] == before[b]@);
        assert(entry_views(other)[b] == other[b]@);
        assert(rank_matches(ranks[a], before[a]@));
        assert(rank_matches(other_ranks[a], other[a]@));
        assert(rank_matches(ranks[b], before[b]@));
        assert(rank_matches(other_ranks[b], other[b]@));
    }
    lemma_stable_order_is_unique(picks, other_picks, ranks, other_ranks);
    assert forall|i: int| 0 <= i < first.len() implies entry_views(first)[i] == entry_views(
        second,
    )[i] by {
        let from = picks[i] as int;
        assert(entry_views(before)[from] == before[from]@);
        assert(entry_views(other)[from] == other[from]@);
    }
    assert(entry_views(first) =~= entry_views(second));
}

/// A request that names no reference means the one HEAD goes by: it is
/// listed under the same name as a request that names HEAD's own short
/// name, and what the two list of the same tree, read the same, shows the
/// same, entry for entry.
pub proof fn lemma_head_is_the_default(
    head: Seq<char>,
    repo_url: Seq<char>,
    subpath: Option<Seq<char>>,
    read: Seq<Option<TreeEntry>>,
    by_default: Seq<TreeEntry>,
    by_name: Seq<TreeEntry>,
)
    requires
        is_assembled(by_default, read, repo_url, chosen_refname(None, head), subpath),
        is_assembled(by_name, read, repo_url, chosen_refname(Some(head), head), subpath),
    ensures
        chosen_refname(None, head) == chosen_refname(Some(head), head),
        entry_views(by_default) == entry_views(by_name),
{
    let refname = chosen_refname(None, head);
    let first = choose|unsorted: Seq<TreeEntry>|
        {
            &&& unsorted.len() == kept_entries(read).len()
            &&& forall|i: int|
                0 <= i < unsorted.len() ==> (#[trigger] unsorted[i])@ == addressed(
                    kept_entries(read)[i]@,
                    repo_url,
                    refname,
                    subpath,
                )
            &&& listed(by_default, unsorted)
        };
    let second = choose|unsorted: Seq<TreeEntry>|
        {
            &&& unsorted.len() == kept_entries(read).len()
            &&& forall|i: int|
                0 <= i < unsorted.len() ==> (#[trigger] unsorted[i])@ == addressed(
                    kept_entries(read)[i]@,
                    repo_url,
                    refname,
                    subpath,
                )
            &&& listed(by_name, unsorted)
        };
    assert(entry_views(first) =~= entry_views(second)) by {
        assert forall|i: int| 0 <= i < first.len() implies entry_views(first)[i] == entry_views(
            second,
        )[i] by {
            assert(first[i]@ == second[i]@);
        }
    }
    lemma_listing_follows_views(by_default, by_name, first, second);
}

impl<'c> Tree<'c> {
    /// Lists the tree `tree` of `repo` as the directory `subpath` at
    /// `refname`.
    ///
    /// The history of `refname` is walked; each entry is credited from it
    /// as [`first_match`] says, addressed, and put in listing order. An
    /// entry whose object cannot be read, or is neither file nor
    /// directory, or whose name is not text, is left out.
    pub fn new(refname: &str, subpath: Option<&str>, tree: &ObjectId, repo: &'c Repository) -> (r:
        Result<Tree<'c>, Missing>)
        ensures
            r matches Err(missing) ==> missing == Missing::Nowhere,
            r matches Ok(listing) ==> exists|history: Seq<Commit>|
                is_listing(
                    listing@,
                    listing.entries@,
                    repo.url_text(),
                    refname@,
                    opt_str(subpath),
                    tree@,
                    history,
                ),
            r matches Ok(listing) ==> exists|handle: GitTree<'_>|
                #[trigger] lists_tree(
                    listing.entries@,
                    handle,
                    repo.url_text(),
                    refname@,
                    opt_str(subpath),
                ),
    {
        let newest_first = repo.log(Some(refname))?;
        let history = oldest_first(newest_first);
        Tree::with_history(refname, subpath, tree, repo, &history)
    }

    /// Lists the tree `tree` of `repo` as the directory `subpath` at
    /// `refname`, crediting its entries from `history`, which is taken
    /// oldest first.
    pub fn with_history(
        refname: &str,
        subpath: Option<&str>,
        tree: &ObjectId,
        repo: &'c Repository,
        history: &Vec<Commit>,
    ) -> (r: Result<Tree<'c>, Missing>)
        ensures
            r matches Err(missing) ==> missing == Missing::Nowhere,
            r matches Ok(listing) ==> is_listing(
                listing@,
                listing.entries@,
                repo.url_text(),
                refname@,
                opt_str(subpath),
                tree@,
                history@,
            ),
            r matches Ok(listing) ==> exists|handle: GitTree<'_>|
                #[trigger] lists_tree(
                    listing.entries@,
                    handle,
                    repo.url_text(),
                    refname@,
                    opt_str(subpath),
                ),
    {
        let handle = or_nowhere(git::find_tree(&repo.git2, tree))?;
        let mut roots: Vec<Option<GitTree<'_>>> = Vec::new();
        let mut i: usize = 0;
        while i < history.len()
            invariant
                i <= history@.len(),
                roots@.len() == i,
            decreases history@.len() - i,
        {
            roots.push(git::find_tree(&repo.git2, &history[i].tree_id));
            i += 1;
        }
        let count = git::tree_len(&handle);
        let mut read: Vec<Option<TreeEntry>> = Vec::new();
        let mut at: usize = 0;
        while at < count
            invariant
                at <= count,
                count == tree_item_ids(handle).len(),
                count == tree_item_names(handle).len(),
                read@.len() == at,
                roots@.len() == history@.len(),
                forall|k: int|
                    0 <= k < read@.len() ==> ((#[trigger] read@[k]) matches Some(entry) ==> {
                        &&& entry@.kind == TreeEntryKind::Blob <==> entry@.content is Some
                        &&& credited_from(entry@, history@)
                        &&& tree_item_names(handle)[k] == Some(entry@.name)
                        &&& tree_item_ids(handle)[k] == entry@.id
                        &&& entry@.url is None
                    }),
            decreases count - at,
        {
            let seen = Tree::entry_at(repo, &handle, at, subpath, history, &roots);
            read.push(seen);
            at += 1;
        }
        let ghost given = read@;
        let listing = Tree::assemble(refname, subpath, tree, repo, read);
        proof {
            assert(read_of(given, tree_item_names(handle), tree_item_ids(handle)));
            assert(lists_tree(
                listing.entries@,
                handle,
                repo.url_text(),
                refname@,
                opt_str(subpath),
            ));
            assert forall|i: int| 0 <= i < listing.entries@.len() implies well_listed(
                (#[trigger] listing.entries@[i])@,
                repo.url_text(),
                refname@,
                opt_str(subpath),
            ) && credited_from(listing.entries@[i]@, history@) by {
                assert(came_from(
                    listing.entries@[i]@,
                    given,
                    repo.url_text(),
                    refname@,
                    opt_str(subpath),
                ));
                let k = choose|k: int|
                    0 <= k < given.len() && (#[trigger] given[k]) is Some && listing.entries@[i]@
                        == addressed(given[k]->Some_0@, repo.url_text(), refname@, opt_str(subpath));
                assert(given[k] matches Some(entry) ==> credited_from(entry@, history@));
            }
        }
        Ok(listing)
    }

    /// Makes the listing of what was read of a tree, item by item: the
    /// entries that were kept, each with its address, in listing order.
    pub fn assemble(
        refname: &str,
        subpath: Option<&str>,
        tree: &ObjectId,
        repo: &'c Repository,
        read: Vec<Option<TreeEntry>>,
    ) -> (listing: Tree<'c>)
        ensures
            listing.repo_url@ == repo.url_text(),
            listing.refname@ == refname@,
            listing.id@ == tree@,
            listing.subtree == is_subtree(opt_str(subpath)),
            is_assembled(listing.entries@, read@, repo.url_text(), refname@, opt_str(subpath)),
            in_listing_order(entry_views(listing.entries@)),
            listing.entries@.len() == kept_entries(read@).len(),
            forall|i: int|
                0 <= i < listing.entries@.len() ==> came_from(
                    (#[trigger] listing.entries@[i])@,
                    read@,
                    repo.url_text(),
                    refname@,
                    opt_str(subpath),
                ),
    {
        let ghost given = read@;
        let repo_url = repo.url();
        let mut pending = reversed(read);
        let mut entries: Vec<TreeEntry> = Vec::new();
        while pending.len() > 0
            invariant
                pending@.len() <= given.len(),
                repo_url@ == repo.url_text(),
                forall|k: int|
                    0 <= k < pending@.len() ==> #[trigger] pending@[k] == given[given.len() - 1 - k],
                entries@.len() == kept_entries(given.subrange(0, given.len() - pending@.len())).len(),
                forall|i: int|
                    0 <= i < entries@.len() ==> (#[trigger] entries@[i])@ == addressed(
                        kept_entries(given.subrange(0, given.len() - pending@.len()))[i]@,
                        repo.url_text(),
                        refname@,
                        opt_str(subpath),
                    ),
            decreases pending@.len(),
        {
            let ghost done = given.len() - pending@.len();
            let ghost before = kept_entries(given.subrange(0, done));
            let item = pending.pop().unwrap();
            proof {
                assert(item == given[done]);
                assert(given.subrange(0, done + 1).drop_last() =~= given.subrange(0, done));
                assert(given.subrange(0, done + 1).last() == item);
            }
            match item {
                Some(entry) => {
                    let mut entry = entry;
                    entry.set_url(repo_url.clone(), refname, subpath);
                    entries.push(entry);
                },
                None => {},
            }
        }
        proof {
            assert(given.subrange(0, given.len() as int) =~= given);
        }
        let ghost unsorted = entries@;
        let sorted = sort_entries(entries);
        proof {
            lemma_listed_is_ordered(sorted@, unsorted);
            lemma_kept_was_read(given);
            assert forall|i: int| 0 <= i < sorted@.len() implies came_from(
                (#[trigger] sorted@[i])@,
                given,
                repo.url_text(),
                refname@,
                opt_str(subpath),
            ) by {
                assert(unsorted.contains(sorted@[i]));
                let from = choose|from: int| 0 <= from < unsorted.len() && unsorted[from] == sorted@[i];
                assert(given.contains(Some(kept_entries(given)[from])));
                let k = choose|k: int|
                    0 <= k < given.len() && given[k] == Some(kept_entries(given)[from]);
                assert(given[k] is Some);
            }
        }
        let below_root = match subpath {
            Some(path) => path.unicode_len() > 0,
            None => false,
        };
        Tree {
            repo,
            entries: sorted,
            repo_url,
            subtree: below_root,
            refname: refname.to_owned(),
            id: tree.clone(),
        }
    }

    /// Reads the item at one position of a tree, scans the history for
    /// its content and makes its entry.
    fn entry_at(
        repo: &Repository,
        handle: &GitTree<'_>,
        position: usize,
        subpath: Option<&str>,
        history: &Vec<Commit>,
        roots: &Vec<Option<GitTree<'_>>>,
    ) -> (r: Option<TreeEntry>)
        requires
            roots@.len() == history@.len(),
            position < tree_item_ids(*handle).len(),
            position < tree_item_names(*handle).len(),
        ensures
            r matches Some(entry) ==> {
                &&& entry@.url is None
                &&& entry@.kind == TreeEntryKind::Blob <==> entry@.content is Some
                &&& credited_from(entry@, history@)
                &&& tree_item_names(*handle)[position as int] == Some(entry@.name)
                &&& tree_item_ids(*handle)[position as int] == entry@.id
            },
    {
        let name = match git::tree_entry_name(handle, position) {
            Some(name) => name,
            None => {
                return None;
            },
        };
        let id = match git::tree_entry_id(handle, position) {
            Some(id) => id,
            None => {
                return None;
            },
        };
        let object = match git::find_object(&repo.git2, &id) {
            Some(object) => object,
            None => {
                return None;
            },
        };
        let path = entry_path(subpath, name.as_str());
        let found_at = |i: usize| -> (found: Option<ObjectId>)
            requires
                i < roots@.len(),
            {
                match &roots[i] {
                    Some(root) => git::tree_path_id(root, path.as_str()),
                    None => None,
                }
            };
        let hit = first_match(history.len(), found_at, &id);
        credited_entry(
            name,
            id,
            git::object_kind(&object),
            git::object_blob_content(&object),
            hit,
            history,
        )
    }

    /// The bytes of the file under `target`, a path below the listed tree.
    ///
    /// Without a path there is no file. Where the path leads to a
    /// directory, the answer is a hint to the directory view.
    pub fn get_blob(&self, target: Option<&str>) -> (r: Result<Vec<u8>, Missing>)
        ensures
            target is None ==> r == Err::<Vec<u8>, Missing>(Missing::Nowhere),
            r matches Err(missing) ==> missing == Missing::Nowhere || missing.location() == Some(
                "tree"@,
            ),
    {
        let path = or_nowhere(target)?;
        let root = or_nowhere(git::find_tree(&self.repo.git2, &self.id))?;
        let object = match git::tree_path_id(&root, path) {
            Some(id) => git::find_object(&self.repo.git2, &id),
            None => None,
        };
        match &object {
            Some(object) => blob_of(
                Some(git::object_kind(object)),
                git::object_blob_content(object),
            ),
            None => blob_of(None, None),
        }
    }

    /// The address of the directory `path` at the listing's reference.
    pub fn url_for(&self, path: Option<&str>) -> (r: Result<String, Missing>)
        ensures
            match path {
                Some(path) => r matches Ok(url) && url@ == tree_url(
                    self.repo_url@,
                    self.refname@,
                    path@,
                ),
                None => r == Err::<String, Missing>(Missing::Nowhere),
            },
    {
        match path {
            Some(path) => {
                let mut url = self.repo_url.clone();
                url.append("/tree/");
                url.append(self.refname.as_str());
                url.append("/");
                url.append(path);
                Ok(url)
            },
            None => Err(Missing::Nowhere),
        }
    }
}

} // verus!
