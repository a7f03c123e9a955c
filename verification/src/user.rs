use vstd::prelude::*;
use vstd::string::*;
use crate::missing::Missing;
use crate::order::reversed;
use crate::repository::{Repository, user_url_of};
use crate::text::{file_name, file_name_of};

verus! {

/// What a user's directory holds under one name: the path of the entry
/// and, where the entry has a description file that can be read, what the
/// file says.
pub struct DirEntry {
    pub path: String,
    pub description: Option<String>,
}

/// A user and the repositories found in the user's directory.
pub struct User {
    pub name: String,
    pub repos: Vec<Repository>,
}

/// Those of the outcomes of opening that are repositories, in order.
pub open spec fn opened(outcomes: Seq<Result<Repository, std::io::Error>>) -> Seq<Repository>
    decreases outcomes.len(),
{
    if outcomes.len() == 0 {
        Seq::empty()
    } else {
        match outcomes.last() {
            Ok(repo) => opened(outcomes.drop_last()).push(repo),
            Err(_) => opened(outcomes.drop_last()),
        }
    }
}

/// Keeps the repositories among the outcomes of opening one directory
/// entry after another: each that opened, in order, and nothing else.
pub fn kept(outcomes: Vec<Result<Repository, std::io::Error>>) -> (repos: Vec<Repository>)
    ensures
        repos@ == opened(outcomes@),
        repos@.len() <= outcomes@.len(),
        forall|i: int| 0 <= i < repos@.len() ==> outcomes@.contains(Ok(#[trigger] repos@[i])),
{
    let ghost given = outcomes@;
    let mut pending = reversed(outcomes);
    let mut repos: Vec<Repository> = Vec::new();
    while pending.len() > 0
        invariant
            pending@.len() <= given.len(),
            forall|k: int|
                0 <= k < pending@.len() ==> #[trigger] pending@[k] == given[given.len() - 1 - k],
            repos@ == opened(given.subrange(0, given.len() - pending@.len())),
            repos@.len() <= given.len() - pending@.len(),
            forall|i: int| 0 <= i < repos@.len() ==> given.contains(Ok(#[trigger] repos@[i])),
        decreases pending@.len(),
    {
        let ghost done = given.len() - pending@.len();
        let outcome = pending.pop().unwrap();
        proof {
            assert(outcome == given[done]);
            assert(given.subrange(0, done + 1).drop_last() =~= given.subrange(0, done));
            assert(given.subrange(0, done + 1).last() == outcome);
        }
        match outcome {
            Ok(repo) => {
                repos.push(repo);
            },
            Err(_) => {},
        }
    }
    proof {
        assert(given.subrange(0, given.len() as int) =~= given);
    }
    repos
}

/// The paths of a list of directory entries.
pub open spec fn entry_paths(entries: Seq<DirEntry>) -> Seq<Seq<char>> {
    Seq::new(entries.len(), |i: int| entries[i].path@)
}

impl User {
    /// The user whose directory is `path`, with every entry of the
    /// directory that opens as a bare repository.
    ///
    /// `entries` is what the directory holds, or `None` where `path` is no
    /// directory that can be read. The user is named after the last part
    /// of the path. An entry that does not open is passed over.
    pub fn from_path(path: &str, entries: Option<Vec<DirEntry>>) -> (r: Result<User, Missing>)
        ensures
            r is Ok <==> entries is Some && file_name_of(path@) is Some,
            r matches Err(missing) ==> missing == Missing::Nowhere,
            r matches Ok(user) ==> {
                &&& Some(user.name@) == file_name_of(path@)
                &&& user.repos@.len() <= entries->Some_0@.len()
                &&& forall|i: int|
                    0 <= i < user.repos@.len() ==> {
                        &&& (#[trigger] user.repos@[i]).user_name@ == user.name@
                        &&& entry_paths(entries->Some_0@).contains(user.repos@[i].path@)
                    }
            },
    {
        let entries = match entries {
            Some(entries) => entries,
            None => {
                return Err(Missing::Nowhere);
            },
        };
        let name = match file_name(path) {
            Some(name) => name,
            None => {
                return Err(Missing::Nowhere);
            },
        };
        let ghost all = entries@;
        let mut pending = reversed(entries);
        let mut outcomes: Vec<Result<Repository, std::io::Error>> = Vec::new();
        while pending.len() > 0
            invariant
                pending@.len() <= all.len(),
                outcomes@.len() + pending@.len() == all.len(),
                forall|k: int|
                    0 <= k < pending@.len() ==> #[trigger] pending@[k] == all[all.len() - 1 - k],
                forall|i: int|
                    0 <= i < outcomes@.len() ==> ((#[trigger] outcomes@[i]) matches Ok(repo) ==> {
                        &&& repo.user_name@ == name@
                        &&& entry_paths(all).contains(repo.path@)
                    }),
            decreases pending@.len(),
        {
            let ghost at = all.len() - pending@.len();
            let entry = pending.pop().unwrap();
            proof {
                assert(entry == all[at]);
                assert(entry_paths(all)[at] == entry.path@);
            }
            outcomes.push(Repository::open(name.as_str(), entry.path.as_str(), entry.description));
        }
        let ghost tried = outcomes@;
        let repos = kept(outcomes);
        proof {
            assert forall|i: int| 0 <= i < repos@.len() implies (#[trigger] repos@[i]).user_name@
                == name@ && entry_paths(all).contains(repos@[i].path@) by {
                assert(tried.contains(Ok(repos@[i])));
                let k = choose|k: int| 0 <= k < tried.len() && tried[k] == Ok::<
                    Repository,
                    std::io::Error,
                >(repos@[i]);
                assert(tried[k] matches Ok(repo) ==> repo.user_name@ == name@);
            }
        }
        Ok(User { name, repos })
    }

    pub fn url(&self) -> (r: String)
        ensures
            r@ == user_url_of(self.name@),
    {
        let mut url = "/".to_owned();
        url.append(self.name.as_str());
        url
    }
}

} // verus!
