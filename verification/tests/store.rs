use gitforge::commit::Commit;
use gitforge::kind::TreeEntryKind;
use gitforge::mime::MimeKind;
use gitforge::missing::Missing;
use gitforge::oid::ObjectId;
use gitforge::page;
use gitforge::repository::Repository;
use gitforge::tree::Tree;
use gitforge::user::{DirEntry, User};

/// A bare repository of user `alice`, project `demo`, with three commits on
/// `main`:
///
/// 1. adds `a.txt`, `README.md`, `bin.dat` and `docs/guide.md`;
/// 2. changes `a.txt`;
/// 3. adds `b.txt`.
///
/// HEAD stands at `main`, and the tag `first` at the first commit.
struct Fixture {
    dir: tempfile::TempDir,
    ids: Vec<String>,
}

fn blob_mode() -> i32 {
    0o100644
}

fn tree_mode() -> i32 {
    0o040000
}

fn write_tree(raw: &git2::Repository, a: &str, with_b: bool) -> git2::Oid {
    let mut docs = raw.treebuilder(None).unwrap();
    docs.insert("guide.md", raw.blob(b"guide\n").unwrap(), blob_mode()).unwrap();
    let docs = docs.write().unwrap();
    let mut root = raw.treebuilder(None).unwrap();
    root.insert("a.txt", raw.blob(a.as_bytes()).unwrap(), blob_mode()).unwrap();
    root.insert("README.md", raw.blob(b"# demo\n").unwrap(), blob_mode()).unwrap();
    root.insert("bin.dat", raw.blob(&[0xff, 0xfe, 0x00, 0x80]).unwrap(), blob_mode()).unwrap();
    root.insert("docs", docs, tree_mode()).unwrap();
    if with_b {
        root.insert("b.txt", raw.blob(b"bee\n").unwrap(), blob_mode()).unwrap();
    }
    root.write().unwrap()
}

fn fixture() -> Fixture {
    let dir = tempfile::tempdir().unwrap();
    let path = dir.path().join("alice").join("demo.git");
    let raw = git2::Repository::init_bare(&path).unwrap();
    let mut ids = Vec::new();
    let mut parent: Option<git2::Oid> = None;
    let steps = [("one\n", false, "add a", 1000), ("two\n", false, "change a", 2000), (
        "two\n",
        true,
        "add b\n\nwith a body",
        3000,
    )];
    for (a, with_b, message, seconds) in steps {
        let who = git2::Signature::new("Ann", "ann@example.org", &git2::Time::new(seconds, 0))
            .unwrap();
        let tree = raw.find_tree(write_tree(&raw, a, with_b)).unwrap();
        let parents: Vec<git2::Commit> = match parent {
            Some(id) => vec![raw.find_commit(id).unwrap()],
            None => vec![],
        };
        let borrowed: Vec<&git2::Commit> = parents.iter().collect();
        let id = raw.commit(Some("refs/heads/main"), &who, &who, message, &tree, &borrowed)
            .unwrap();
        ids.push(id.to_string());
        parent = Some(id);
    }
    raw.set_head("refs/heads/main").unwrap();
    let first = raw.find_object(git2::Oid::from_str(&ids[0]).unwrap(), None).unwrap();
    raw.tag_lightweight("first", &first, false).unwrap();
    Fixture { dir, ids }
}

impl Fixture {
    fn root(&self) -> String {
        self.dir.path().to_str().unwrap().to_owned()
    }

    fn repo_path(&self) -> String {
        self.dir.path().join("alice").join("demo.git").to_str().unwrap().to_owned()
    }

    fn open(&self) -> Repository {
        Repository::open_user_project(&self.root(), "alice", "demo", Some("a demo".to_owned()))
            .unwrap()
    }
}

fn log_ids(log: &[Commit]) -> Vec<String> {
    log.iter().map(|commit| commit.id.hex.clone()).collect()
}

fn names(tree: &Tree) -> Vec<String> {
    tree.entries.iter().map(|entry| entry.name.clone()).collect()
}

fn credited(tree: &Tree, name: &str) -> Option<String> {
    let entry = tree.entries.iter().find(|entry| entry.name == name).unwrap();
    entry.last_id().map(|id| id.hex)
}

#[test]
fn open_names_the_repository_after_its_directory() {
    let fixture = fixture();
    let repo = fixture.open();
    assert_eq!(repo.name, "demo");
    assert_eq!(repo.user_name, "alice");
    assert_eq!(repo.path, fixture.repo_path());
    assert_eq!(repo.description, Some("a demo".to_owned()));
    assert_eq!(repo.url(), "/alice/demo");
    assert_eq!(repo.user_url(), "/alice");
    assert_eq!(repo.describe(), "Repository {name: demo, description: a demo}");
}

#[test]
fn open_fails_where_there_is_no_repository() {
    let fixture = fixture();
    assert!(Repository::open("alice", &fixture.root(), None).is_err());
    assert_eq!(
        Repository::open_user_project(&fixture.root(), "alice", "absent", None).err(),
        Some(Missing::Nowhere)
    );
    assert_eq!(
        page::get_repo(&fixture.root(), "nobody", "demo", None).err(),
        Some(Missing::Nowhere)
    );
    assert!(page::get_repo(&fixture.root(), "alice", "demo", None).is_ok());
}

#[test]
fn head_is_main() {
    let fixture = fixture();
    let repo = fixture.open();
    let head = repo.head().unwrap();
    assert_eq!(head.name, Some("refs/heads/main".to_owned()));
    assert_eq!(head.shorthand, Some("main".to_owned()));
    assert_eq!(head.target.map(|id| id.hex), Some(fixture.ids[2].clone()));
    assert!(head.is_branch);
    assert!(!head.is_tag);
}

#[test]
fn last_commit_is_the_newest() {
    let fixture = fixture();
    let repo = fixture.open();
    let commit = repo.last_commit().unwrap();
    assert_eq!(commit.id.hex, fixture.ids[2]);
    assert_eq!(commit.time, 3000);
    assert_eq!(commit.summary, Some("add b".to_owned()));
    assert_eq!(commit.message, Some("add b\n\nwith a body".to_owned()));
    assert_eq!(commit.author.name, Some("Ann".to_owned()));
    assert_eq!(commit.committer.email, Some("ann@example.org".to_owned()));
    assert!(fixture.ids[2].starts_with(commit.short_id.as_ref().unwrap().as_str()));
    assert!(commit.author_matches_committer());
    assert_eq!(repo.last_update(), Ok(3000));
}

#[test]
fn log_is_newest_first() {
    let fixture = fixture();
    let repo = fixture.open();
    let expected =
        vec![fixture.ids[2].clone(), fixture.ids[1].clone(), fixture.ids[0].clone()];
    assert_eq!(log_ids(&repo.log(None).unwrap()), expected);
    assert_eq!(log_ids(&repo.log(Some("main")).unwrap()), expected);
    assert_eq!(log_ids(&repo.log(Some("first")).unwrap()), vec![fixture.ids[0].clone()]);
    assert_eq!(log_ids(&page::get_log(&repo, None).unwrap()), expected);
}

#[test]
fn log_of_an_absent_reference_is_nowhere() {
    let fixture = fixture();
    let repo = fixture.open();
    assert_eq!(repo.log(Some("v1.0")).err(), Some(Missing::Nowhere));
    assert_eq!(page::log(&repo, Some("v1.0")).err(), Some(Missing::Nowhere));
}

#[test]
fn entries_are_credited_to_the_earliest_commit_with_their_content() {
    let fixture = fixture();
    let repo = fixture.open();
    let tree = repo.tree(None, None).unwrap();
    // `a.txt` was added in the first commit, changed in the second and left
    // alone in the third: the scan goes oldest first and stops at the first
    // commit that holds the content as it is now, which is the second.
    assert_eq!(credited(&tree, "a.txt"), Some(fixture.ids[1].clone()));
    assert_eq!(credited(&tree, "b.txt"), Some(fixture.ids[2].clone()));
    assert_eq!(credited(&tree, "README.md"), Some(fixture.ids[0].clone()));
    assert_eq!(credited(&tree, "docs"), Some(fixture.ids[0].clone()));
    let a = tree.entries.iter().find(|entry| entry.name == "a.txt").unwrap();
    assert_eq!(a.last_summary(), Some("change a"));
    assert_eq!(a.last_update(), Some(2000));
}

#[test]
fn a_listing_puts_directories_first_and_ignores_case() {
    let fixture = fixture();
    let repo = fixture.open();
    let tree = repo.tree(None, None).unwrap();
    assert_eq!(names(&tree), vec!["docs", "a.txt", "b.txt", "bin.dat", "README.md"]);
    assert_eq!(tree.entries[0].kind, TreeEntryKind::Tree);
    assert!(tree.entries[1..].iter().all(|entry| entry.kind == TreeEntryKind::Blob));
    assert!(!tree.subtree);
    assert_eq!(tree.repo_url, "/alice/demo");
    assert_eq!(tree.refname, "main");
}

#[test]
fn entries_are_addressed_by_kind_reference_and_directory() {
    let fixture = fixture();
    let repo = fixture.open();
    let root = repo.tree(Some("main"), None).unwrap();
    assert_eq!(root.entries[0].url, Some("/alice/demo/tree/main/docs".to_owned()));
    assert_eq!(root.entries[1].url, Some("/alice/demo/blob/main/a.txt".to_owned()));
    let docs = repo.tree(Some("main"), Some("docs")).unwrap();
    assert!(docs.subtree);
    assert_eq!(names(&docs), vec!["guide.md"]);
    assert_eq!(docs.entries[0].url, Some("/alice/demo/blob/main/docs/guide.md".to_owned()));
    assert_eq!(docs.entries[0].content(), Ok("guide\n"));
    assert_eq!(credited(&docs, "guide.md"), Some(fixture.ids[0].clone()));
}

#[test]
fn head_and_its_short_name_list_the_same() {
    let fixture = fixture();
    let repo = fixture.open();
    let by_default = repo.tree(None, None).unwrap();
    let by_name = repo.tree(Some("main"), None).unwrap();
    assert_eq!(by_default.entries, by_name.entries);
    assert_eq!(by_default.refname, by_name.refname);
    assert_eq!(by_default.id, by_name.id);
    let empty_path = repo.tree(None, Some("")).unwrap();
    assert_eq!(empty_path.entries, by_default.entries);
    assert!(!empty_path.subtree);
}

#[test]
fn a_file_asked_for_as_a_directory_is_elsewhere() {
    let fixture = fixture();
    let repo = fixture.open();
    assert_eq!(
        repo.tree(Some("main"), Some("a.txt")).err(),
        Some(Missing::Elsewhere("blob".to_owned()))
    );
    assert_eq!(
        repo.tree(None, Some("docs/guide.md")).err(),
        Some(Missing::Elsewhere("blob".to_owned()))
    );
    let rest = ["docs", "guide.md"];
    assert_eq!(
        page::tree(&repo, Some("main"), Some(&rest[..])).err(),
        Some(Missing::Elsewhere("/alice/demo/blob/main/docs/guide.md".to_owned()))
    );
}

#[test]
fn a_missing_path_is_nowhere() {
    let fixture = fixture();
    let repo = fixture.open();
    assert_eq!(repo.tree(Some("main"), Some("docs/missing.txt")).err(), Some(Missing::Nowhere));
    let rest = ["docs", "missing.txt"];
    assert_eq!(page::tree(&repo, Some("main"), Some(&rest[..])).err(), Some(Missing::Nowhere));
    assert_eq!(page::blob(&repo, Some("main"), Some(&rest[..])).err(), Some(Missing::Nowhere));
    assert_eq!(page::raw(&repo, Some("main"), Some(&rest[..])).err(), Some(Missing::Nowhere));
    assert_eq!(
        page::get_blob(&repo, Some("main"), Some(&rest[..])).err(),
        Some(Missing::Nowhere)
    );
}

#[test]
fn a_missing_reference_is_nowhere_whatever_the_path() {
    let fixture = fixture();
    let repo = fixture.open();
    assert_eq!(repo.tree(Some("v1.0"), None).err(), Some(Missing::Nowhere));
    assert_eq!(repo.tree(Some("v1.0"), Some("docs")).err(), Some(Missing::Nowhere));
    assert_eq!(repo.tree(Some("v1.0"), Some("a.txt")).err(), Some(Missing::Nowhere));
    let rest = ["a.txt"];
    assert_eq!(page::tree(&repo, Some("v1.0"), Some(&rest[..])).err(), Some(Missing::Nowhere));
    assert_eq!(page::blob(&repo, Some("v1.0"), Some(&rest[..])).err(), Some(Missing::Nowhere));
    assert_eq!(page::commit(&repo, Some("v1.0")).err(), Some(Missing::Nowhere));
}

#[test]
fn a_tag_lists_the_tree_it_stands_at() {
    let fixture = fixture();
    let repo = fixture.open();
    let tree = repo.tree(Some("first"), None).unwrap();
    assert_eq!(names(&tree), vec!["docs", "a.txt", "bin.dat", "README.md"]);
    assert_eq!(tree.refname, "first");
    assert_eq!(credited(&tree, "a.txt"), Some(fixture.ids[0].clone()));
    assert_eq!(tree.entries[1].content(), Ok("one\n"));
}

#[test]
fn new_lists_a_tree_by_its_id() {
    let fixture = fixture();
    let repo = fixture.open();
    let root = repo.tree(None, None).unwrap();
    let again = Tree::new("main", None, &root.id, &repo).unwrap();
    assert_eq!(again.entries, root.entries);
    let absent = ObjectId::new("1234567890123456789012345678901234567890");
    assert_eq!(Tree::new("main", None, &absent, &repo).err(), Some(Missing::Nowhere));
    let nothing: Vec<Commit> = Vec::new();
    let uncredited = Tree::with_history("main", None, &root.id, &repo, &nothing).unwrap();
    assert_eq!(names(&uncredited), names(&root));
    assert!(uncredited.entries.iter().all(|entry| entry.last_id().is_none()));
}

#[test]
fn readme_is_found_in_a_listing() {
    let fixture = fixture();
    let repo = fixture.open();
    let root = repo.tree(None, None).unwrap();
    assert_eq!(repo.readme(&root), Ok("# demo\n"));
    let docs = repo.tree(None, Some("docs")).unwrap();
    assert_eq!(repo.readme(&docs), Err(Missing::Nowhere));
}

#[test]
fn get_blob_reads_files_only() {
    let fixture = fixture();
    let repo = fixture.open();
    let root = repo.tree(None, None).unwrap();
    assert_eq!(root.get_blob(Some("a.txt")), Ok(b"two\n".to_vec()));
    assert_eq!(root.get_blob(Some("docs/guide.md")), Ok(b"guide\n".to_vec()));
    assert_eq!(root.get_blob(Some("docs")), Err(Missing::Elsewhere("tree".to_owned())));
    assert_eq!(root.get_blob(Some("nothing")), Err(Missing::Nowhere));
    assert_eq!(root.get_blob(None), Err(Missing::Nowhere));
    assert_eq!(root.url_for(Some("docs")), Ok("/alice/demo/tree/main/docs".to_owned()));
    assert_eq!(root.url_for(None), Err(Missing::Nowhere));
}

#[test]
fn the_first_commit_is_patched_from_nothing() {
    let fixture = fixture();
    let repo = fixture.open();
    let log = repo.log(None).unwrap();
    let first = &log[2];
    let patches = repo.diff(None, first);
    // Four files are in the first commit's tree: each has its patch.
    assert_eq!(patches.len(), 4);
    assert!(patches.iter().any(|patch| patch.text.contains("+one\n")));
    assert!(patches.iter().any(|patch| patch.text.contains("+guide\n")));
    assert!(patches.iter().any(|patch| patch.text.contains("+# demo\n")));
    assert!(patches.iter().all(|patch| patch.text.starts_with('F')));
    for pair in patches.windows(2) {
        assert_ne!(pair[0].file_id, pair[1].file_id);
    }
}

#[test]
fn a_commit_differs_in_nothing_from_itself() {
    let fixture = fixture();
    let repo = fixture.open();
    let log = repo.log(None).unwrap();
    for commit in &log {
        assert_eq!(repo.diff(Some(commit), commit).len(), 0);
    }
}

#[test]
fn a_change_of_one_file_is_one_patch() {
    let fixture = fixture();
    let repo = fixture.open();
    let log = repo.log(None).unwrap();
    let patches = repo.diff(Some(&log[2]), &log[1]);
    assert_eq!(patches.len(), 1);
    assert!(patches[0].text.contains("-one\n"));
    assert!(patches[0].text.contains("+two\n"));
    assert!(patches[0].text.starts_with("Fdiff --git a/a.txt b/a.txt\n"));
}

#[test]
fn a_diff_with_an_unreadable_tree_is_empty() {
    let fixture = fixture();
    let repo = fixture.open();
    let log = repo.log(None).unwrap();
    let mut broken = log[0].clone();
    broken.tree_id = ObjectId::new("1234567890123456789012345678901234567890");
    assert_eq!(repo.diff(None, &broken).len(), 0);
    assert_eq!(repo.diff(Some(&broken), &log[0]).len(), 0);
}

#[test]
fn commit_page_shows_what_a_commit_changed() {
    let fixture = fixture();
    let repo = fixture.open();
    let page = page::commit(&repo, Some(&fixture.ids[1])).unwrap();
    assert_eq!(page.commit.id.hex, fixture.ids[1]);
    assert_eq!(page.title, format!("change a - alice/demo@{}", fixture.ids[1]));
    assert_eq!(page.patches.len(), 1);
    let first = page::commit(&repo, Some(&fixture.ids[0])).unwrap();
    assert_eq!(first.patches.len(), 4);
    assert_eq!(page::commit(&repo, None).err(), Some(Missing::Nowhere));
    assert_eq!(page::commit(&repo, Some("main")).err(), Some(Missing::Nowhere));
}

#[test]
fn tree_page_has_listing_readme_and_title() {
    let fixture = fixture();
    let repo = fixture.open();
    let front = page::project(&repo).unwrap();
    assert_eq!(front.title, " alice/demo@refs/heads/main");
    assert_eq!(front.readme, Some("# demo\n".to_owned()));
    assert_eq!(names(&front.tree).len(), 5);
    let rest = ["docs"];
    let docs = page::tree(&repo, Some("main"), Some(&rest[..])).unwrap();
    assert_eq!(docs.title, "docs - alice/demo@main");
    assert_eq!(docs.readme, None);
    assert!(docs.tree.subtree);
}

#[test]
fn log_page_has_commits_and_title() {
    let fixture = fixture();
    let repo = fixture.open();
    let page = page::log(&repo, Some("first")).unwrap();
    assert_eq!(page.title, "Log - alice/demo @ first");
    assert_eq!(log_ids(&page.commits), vec![fixture.ids[0].clone()]);
    let page = page::log(&repo, None).unwrap();
    assert_eq!(page.title, "Log - alice/demo @ refs/heads/main");
    assert_eq!(page.commits.len(), 3);
}

#[test]
fn blob_page_shows_a_text_file() {
    let fixture = fixture();
    let repo = fixture.open();
    let rest = ["docs", "guide.md"];
    let page = page::blob(&repo, Some("main"), Some(&rest[..])).unwrap();
    assert_eq!(page.text, "guide\n");
    assert_eq!(page.file_name, "guide.md");
    assert_eq!(page.directory, "docs");
    assert_eq!(page.token, "md");
    assert_eq!(page.raw_url, "/alice/demo/raw/main/docs/guide.md");
    assert_eq!(page.directory_url, "/alice/demo/tree/main/docs");
    assert_eq!(page.title, "guide.md (docs) - alice/demo@main");
    let rest = ["a.txt"];
    let page = page::blob(&repo, None, Some(&rest[..])).unwrap();
    assert_eq!(page.text, "two\n");
    assert_eq!(page.directory, "");
    assert_eq!(page.title, "a.txt () - alice/demo@refs/heads/main");
}

#[test]
fn blob_page_sends_what_is_not_text_to_the_raw_view() {
    let fixture = fixture();
    let repo = fixture.open();
    let rest = ["bin.dat"];
    assert_eq!(
        page::blob(&repo, Some("main"), Some(&rest[..])).err(),
        Some(Missing::Elsewhere("/alice/demo/raw/main/bin.dat".to_owned()))
    );
}

#[test]
fn blob_page_sends_a_directory_to_the_tree_view() {
    let fixture = fixture();
    let repo = fixture.open();
    let rest = ["docs"];
    assert_eq!(
        page::blob(&repo, Some("main"), Some(&rest[..])).err(),
        Some(Missing::Elsewhere("/alice/demo/tree/main/docs".to_owned()))
    );
    assert_eq!(page::blob(&repo, Some("main"), None).err(), Some(Missing::Nowhere));
}

#[test]
fn raw_hands_out_bytes_with_a_media_type() {
    let fixture = fixture();
    let repo = fixture.open();
    let rest = ["bin.dat"];
    let file = page::raw(&repo, Some("main"), Some(&rest[..])).unwrap();
    assert_eq!(file.bytes, vec![0xff, 0xfe, 0x00, 0x80]);
    assert_eq!(file.mime, MimeKind::TextPlain);
    let rest = ["docs"];
    assert_eq!(page::raw(&repo, Some("main"), Some(&rest[..])).err(), Some(Missing::Nowhere));
    assert_eq!(page::raw(&repo, Some("main"), None).err(), Some(Missing::Nowhere));
}

#[test]
fn refs_tell_tags_from_branches() {
    let fixture = fixture();
    let repo = fixture.open();
    assert_eq!(repo.refs(), Ok((vec!["first".to_owned()], vec!["main".to_owned()])));
    let page = page::refs(&repo).unwrap();
    assert_eq!(page.title, "Refs - alice/demo");
    assert_eq!(page.tags, vec!["first"]);
    assert_eq!(page.branches, vec!["main"]);
    let references = repo.references().unwrap();
    assert_eq!(references.len(), 2);
}

#[test]
fn head_and_info_speak_to_plain_clients() {
    let fixture = fixture();
    let repo = fixture.open();
    assert_eq!(page::head(&repo), Ok("ref: refs/heads/main\n\n".to_owned()));
    let info = page::info(&repo, Some("refs")).unwrap();
    let mut lines: Vec<String> = info.lines().map(|line| line.to_owned()).collect();
    lines.sort();
    let mut expected = vec![
        format!("{}\trefs/heads/main", fixture.ids[2]),
        format!("{}\trefs/tags/first", fixture.ids[0]),
    ];
    expected.sort();
    assert_eq!(lines, expected);
    assert!(info.ends_with('\n'));
    assert_eq!(page::info(&repo, Some("packs")), Err(Missing::Nowhere));
    assert_eq!(page::info(&repo, None), Err(Missing::Nowhere));
}

#[test]
fn a_user_has_the_repositories_that_open() {
    let fixture = fixture();
    let user_dir = fixture.dir.path().join("alice").to_str().unwrap().to_owned();
    let entries = vec![
        DirEntry { path: format!("{}/notes.txt", user_dir), description: None },
        DirEntry { path: fixture.repo_path(), description: Some("a demo".to_owned()) },
    ];
    let user = User::from_path(&user_dir, Some(entries)).unwrap();
    assert_eq!(user.name, "alice");
    assert_eq!(user.url(), "/alice");
    assert_eq!(user.repos.len(), 1);
    assert_eq!(user.repos[0].name, "demo");
    assert_eq!(user.repos[0].user_name, "alice");
    assert_eq!(user.repos[0].description, Some("a demo".to_owned()));
    assert!(matches!(User::from_path(&user_dir, None), Err(Missing::Nowhere)));
    assert!(matches!(User::from_path("..", Some(Vec::new())), Err(Missing::Nowhere)));
}

#[test]
fn repositories_are_listed_by_their_last_update() {
    let fixture = fixture();
    let older = fixture.dir.path().join("alice").join("older.git");
    let raw = git2::Repository::init_bare(&older).unwrap();
    let who = git2::Signature::new("Ann", "ann@example.org", &git2::Time::new(500, 0)).unwrap();
    let tree = raw.find_tree(raw.treebuilder(None).unwrap().write().unwrap()).unwrap();
    raw.commit(Some("HEAD"), &who, &who, "empty", &tree, &[]).unwrap();
    let empty = fixture.dir.path().join("alice").join("empty.git");
    git2::Repository::init_bare(&empty).unwrap();
    let root = fixture.root();
    let mut repos = vec![
        Repository::open_user_project(&root, "alice", "empty", None).unwrap(),
        Repository::open_user_project(&root, "alice", "older", None).unwrap(),
        fixture.open(),
    ];
    page::sort_repos(&mut repos);
    let order: Vec<&str> = repos.iter().map(|repo| repo.name.as_str()).collect();
    assert_eq!(order, vec!["demo", "older", "empty"]);

    let user = User { name: "alice".to_owned(), repos };
    let users = vec![Err(Missing::Nowhere), Ok(user)];
    let all = page::root(Some(users)).unwrap();
    let order: Vec<&str> = all.iter().map(|repo| repo.name.as_str()).collect();
    assert_eq!(order, vec!["demo", "older", "empty"]);
    assert!(matches!(page::root(None), Err(Missing::Nowhere)));

    let again = page::user(Ok(User { name: "alice".to_owned(), repos: all })).unwrap();
    assert_eq!(again.name, "alice");
    assert_eq!(again.repos.len(), 3);
    assert_eq!(again.repos[0].name, "demo");
    assert!(matches!(page::user(Err(Missing::Nowhere)), Err(Missing::Nowhere)));
}

#[test]
fn a_walk_goes_from_a_commit_to_the_root() {
    let fixture = fixture();
    let repo = fixture.open();
    let second = ObjectId::new(&fixture.ids[1]);
    assert_eq!(
        log_ids(&repo.walk(&second).unwrap()),
        vec![fixture.ids[1].clone(), fixture.ids[0].clone()]
    );
    let absent = ObjectId::new("1234567890123456789012345678901234567890");
    assert_eq!(repo.walk(&absent).err(), Some(Missing::Nowhere));
    let garbled = ObjectId::new("not an id");
    assert_eq!(repo.walk(&garbled).err(), Some(Missing::Nowhere));
    let root = repo.tree(None, None).unwrap();
    assert_eq!(repo.walk(&root.id).err(), Some(Missing::Nowhere));
}

#[test]
fn a_given_reference_does_not_depend_on_head() {
    let fixture = fixture();
    let raw = git2::Repository::open_bare(fixture.repo_path()).unwrap();
    raw.set_head("refs/heads/unborn").unwrap();
    let repo = fixture.open();
    assert_eq!(repo.head().err(), Some(Missing::Nowhere));
    assert_eq!(repo.log(None).err(), Some(Missing::Nowhere));
    assert_eq!(repo.tree(None, None).err(), Some(Missing::Nowhere));
    assert_eq!(log_ids(&repo.log(Some("main")).unwrap()).len(), 3);
    let listing = repo.tree(Some("main"), Some("docs")).unwrap();
    assert_eq!(names(&listing), vec!["guide.md"]);
    assert_eq!(repo.tree(Some("v1.0"), None).err(), Some(Missing::Nowhere));

    assert_eq!(page::log(&repo, Some("main")).unwrap().title, "Log - alice/demo @ main");
    assert_eq!(page::log(&repo, None).err(), Some(Missing::Nowhere));
    let rest = ["docs"];
    assert_eq!(
        page::tree(&repo, Some("main"), Some(&rest[..])).unwrap().title,
        "docs - alice/demo@main"
    );
    assert!(page::project(&repo).is_err());
    let rest = ["a.txt"];
    let blob = page::blob(&repo, Some("main"), Some(&rest[..])).unwrap();
    assert_eq!(blob.title, "a.txt () - alice/demo@main");
    assert_eq!(blob.text, "two\n");
    assert_eq!(page::blob(&repo, None, Some(&rest[..])).err(), Some(Missing::Nowhere));
}

#[test]
fn a_listing_is_assembled_from_what_was_read() {
    let fixture = fixture();
    let repo = fixture.open();
    let tree = ObjectId::new(&"9".repeat(40));
    let read = vec![
        Some(gitforge::tree::TreeEntry::from_blob("b.txt".to_owned(), None, ObjectId::new("b"), vec![1])),
        None,
        Some(gitforge::tree::TreeEntry::from_tree("src".to_owned(), None, ObjectId::new("d"))),
        Some(gitforge::tree::TreeEntry::from_blob("A.txt".to_owned(), None, ObjectId::new("a"), vec![2])),
    ];
    let listing = Tree::assemble("main", Some("lib"), &tree, &repo, read);
    assert_eq!(names(&listing), vec!["src", "A.txt", "b.txt"]);
    assert_eq!(listing.entries[0].url, Some("/alice/demo/tree/main/lib/src".to_owned()));
    assert_eq!(listing.entries[1].url, Some("/alice/demo/blob/main/lib/A.txt".to_owned()));
    assert_eq!(listing.entries[1].content, Some(vec![2]));
    assert!(listing.subtree);
    assert_eq!(listing.refname, "main");
    assert_eq!(listing.id, tree);
    assert_eq!(listing.repo_url, "/alice/demo");
    let empty = Tree::assemble("main", None, &tree, &repo, vec![None, None]);
    assert!(empty.entries.is_empty());
    assert!(!empty.subtree);
}

#[test]
fn only_what_opened_is_kept() {
    let fixture = fixture();
    let path = fixture.repo_path();
    let outcomes = vec![
        Repository::open("alice", "/nowhere/at/all.git", None),
        Repository::open("alice", &path, Some("first".to_owned())),
        Repository::open("alice", &fixture.root(), None),
        Repository::open("bob", &path, None),
    ];
    let repos = gitforge::user::kept(outcomes);
    assert_eq!(repos.len(), 2);
    assert_eq!(repos[0].user_name, "alice");
    assert_eq!(repos[0].description, Some("first".to_owned()));
    assert_eq!(repos[1].user_name, "bob");
    assert!(gitforge::user::kept(Vec::new()).is_empty());
}

#[test]
fn a_listing_holds_every_file_and_directory_of_the_tree() {
    let fixture = fixture();
    let raw = git2::Repository::open_bare(fixture.repo_path()).unwrap();
    let head = raw.head().unwrap().peel_to_tree().unwrap();
    let mut in_tree: Vec<String> = head.iter().map(|item| item.name().unwrap().to_owned()).collect();
    in_tree.sort();
    let repo = fixture.open();
    let listing = repo.tree(None, None).unwrap();
    let mut listed = names(&listing);
    listed.sort();
    assert_eq!(listed, in_tree);
    for entry in &listing.entries {
        let item = head.get_name(&entry.name).unwrap();
        assert_eq!(entry.id.hex, item.id().to_string());
    }
}
