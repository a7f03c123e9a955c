use vstd::prelude::*;
use vstd::std_specs::cmp::PartialOrdSpecImpl;
use std::cmp::Ordering;

verus! {

/// Which kind of object a directory entry points at.
#[derive(Clone, Copy, Debug, PartialEq, Eq, Structural)]
pub enum TreeEntryKind {
    Blob,
    Tree,
}

impl TreeEntryKind {
    /// The URL segment under which entries of this kind are served.
    pub open spec fn prefix(self) -> Seq<char> {
        match self {
            TreeEntryKind::Blob => "/blob"@,
            TreeEntryKind::Tree => "/tree"@,
        }
    }

    /// The place of the kind in a listing: directories stand before files.
    pub open spec fn place(self) -> int {
        match self {
            TreeEntryKind::Tree => 0,
            TreeEntryKind::Blob => 1,
        }
    }

    pub fn url_prefix(&self) -> (r: &'static str)
        ensures
            r@ == self.prefix(),
    {
        match self {
            TreeEntryKind::Blob => "/blob",
            TreeEntryKind::Tree => "/tree",
        }
    }

    /// How two kinds stand to each other in a listing.
    pub open spec fn listing_order(self, other: TreeEntryKind) -> Ordering {
        if self.place() < other.place() {
            Ordering::Less
        } else if self.place() == other.place() {
            Ordering::Equal
        } else {
            Ordering::Greater
        }
    }

    /// Compares two kinds by their place in a listing.
    pub fn cmp(&self, other: &TreeEntryKind) -> (r: Ordering)
        ensures
            r == self.listing_order(*other),
    {
        match (self, other) {
            (TreeEntryKind::Blob, TreeEntryKind::Blob) => Ordering::Equal,
            (TreeEntryKind::Tree, TreeEntryKind::Tree) => Ordering::Equal,
            (TreeEntryKind::Tree, TreeEntryKind::Blob) => Ordering::Less,
            (TreeEntryKind::Blob, TreeEntryKind::Tree) => Ordering::Greater,
        }
    }
}

impl PartialOrd for TreeEntryKind {
    fn partial_cmp(&self, other: &TreeEntryKind) -> (r: Option<Ordering>) {
        Some(self.cmp(other))
    }
}

impl PartialOrdSpecImpl for TreeEntryKind {
    open spec fn obeys_partial_cmp_spec() -> bool {
        true
    }

    open spec fn partial_cmp_spec(&self, other: &TreeEntryKind) -> Option<Ordering> {
        Some(self.listing_order(*other))
    }
}

} // verus!
