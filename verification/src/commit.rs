use vstd::prelude::*;
use vstd::string::*;
use crate::oid::ObjectId;
use crate::text::{opt_text, str_eq};

verus! {

/// Who wrote or recorded a commit. A part that is not valid text is absent.
#[derive(Debug, PartialEq, Eq)]
pub struct Signature {
    pub name: Option<String>,
    pub email: Option<String>,
}

pub struct SignatureView {
    pub name: Option<Seq<char>>,
    pub email: Option<Seq<char>>,
}

impl View for Signature {
    type V = SignatureView;

    open spec fn view(&self) -> SignatureView {
        SignatureView { name: opt_text(self.name), email: opt_text(self.email) }
    }
}

impl Clone for Signature {
    fn clone(&self) -> (r: Self)
        ensures
            r@ == self@,
    {
        Signature { name: clone_text(&self.name), email: clone_text(&self.email) }
    }
}

/// A commit as it was read from the store: plain values, which do not
/// change and do not depend on the store once read.
#[derive(Debug, PartialEq, Eq)]
pub struct Commit {
    pub id: ObjectId,
    /// The abbreviated id under which the commit is shown.
    pub short_id: Option<String>,
    /// The root tree of the commit's snapshot.
    pub tree_id: ObjectId,
    pub author: Signature,
    pub committer: Signature,
    /// Seconds since the epoch.
    pub time: i64,
    /// The first paragraph of the message.
    pub summary: Option<String>,
    pub message: Option<String>,
}

pub struct CommitView {
    pub id: Seq<char>,
    pub short_id: Option<Seq<char>>,
    pub tree_id: Seq<char>,
    pub author: SignatureView,
    pub committer: SignatureView,
    pub time: i64,
    pub summary: Option<Seq<char>>,
    pub message: Option<Seq<char>>,
}

impl View for Commit {
    type V = CommitView;

    open spec fn view(&self) -> CommitView {
        CommitView {
            id: self.id@,
            short_id: opt_text(self.short_id),
            tree_id: self.tree_id@,
            author: self.author@,
            committer: self.committer@,
            time: self.time,
            summary: opt_text(self.summary),
            message: opt_text(self.message),
        }
    }
}

impl Clone for Commit {
    fn clone(&self) -> (r: Self)
        ensures
            r@ == self@,
    {
        Commit {
            id: self.id.clone(),
            short_id: clone_text(&self.short_id),
            tree_id: self.tree_id.clone(),
            author: self.author.clone(),
            committer: self.committer.clone(),
            time: self.time,
            summary: clone_text(&self.summary),
            message: clone_text(&self.message),
        }
    }
}

/// The view of an optional commit.
pub open spec fn opt_commit(commit: Option<Commit>) -> Option<CommitView> {
    match commit {
        Some(commit) => Some(commit@),
        None => None,
    }
}

/// A copy of an optional text.
pub fn clone_text(text: &Option<String>) -> (r: Option<String>)
    ensures
        opt_text(r) == opt_text(*text),
{
    match text {
        Some(text) => Some(text.clone()),
        None => None,
    }
}

/// The name shown for a person whose name cannot be shown.
pub open spec fn unnamed() -> Seq<char> {
    "secret person"@
}

/// The address shown for a person whose address cannot be shown.
pub open spec fn unaddressed() -> Seq<char> {
    "secret@person.club"@
}

impl SignatureView {
    pub open spec fn shown_name(self) -> Seq<char> {
        match self.name {
            Some(name) => name,
            None => unnamed(),
        }
    }

    pub open spec fn shown_email(self) -> Seq<char> {
        match self.email {
            Some(email) => email,
            None => unaddressed(),
        }
    }
}

impl Signature {
    /// The name to show for this person.
    pub fn shown_name(&self) -> (r: &str)
        ensures
            r@ == self@.shown_name(),
    {
        match &self.name {
            Some(name) => name.as_str(),
            None => "secret person",
        }
    }

    /// The address to show for this person.
    pub fn shown_email(&self) -> (r: &str)
        ensures
            r@ == self@.shown_email(),
    {
        match &self.email {
            Some(email) => email.as_str(),
            None => "secret@person.club",
        }
    }
}

impl CommitView {
    /// Whether one person both wrote and recorded the commit, going by what
    /// is shown of each.
    pub open spec fn single_handed(self) -> bool {
        self.author.shown_name() == self.committer.shown_name() && self.author.shown_email()
            == self.committer.shown_email()
    }
}

impl Commit {
    /// Whether the author need not be named beside the committer.
    pub fn author_matches_committer(&self) -> (r: bool)
        ensures
            r == self@.single_handed(),
    {
        str_eq(self.author.shown_name(), self.committer.shown_name()) && str_eq(
            self.author.shown_email(),
            self.committer.shown_email(),
        )
    }
}

} // verus!
