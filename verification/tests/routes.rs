use gitforge::kind::TreeEntryKind;
use gitforge::mime::{guess_mime, mime_of_extension, MimeKind};
use gitforge::missing::Missing;
use gitforge::oid::ObjectId;
use gitforge::page::{
    get_path, get_user_root, head_file, info_text, objects, pack_info, packs_dir, redirect,
    ObjectsPlan, Page,
};
use gitforge::repository::{project_repo_path, Reference};
use gitforge::response::{respond, ContentType};
use gitforge::view::{
    code_block_html, commit_url, entry_name_class, is_plain_block, mailto, nav_item_class,
    project_nav, ref_url, NavItem,
};
use gitforge::route::{
    check_static_exists, get_git_root, operation, route, static_asset, static_path, strip_git,
    Operation, Route, StaticAsset,
};

#[test]
fn pages_are_told_apart() {
    assert_eq!(Page::Tree, Page::Tree);
    assert_ne!(Page::Tree, Page::Log);
    assert_ne!(Page::Root, Page::User);
    assert_ne!(Page::Blob, Page::Commit);
    assert_ne!(Page::Refs, Page::Root);
}

#[test]
fn no_segment_is_the_root() {
    assert_eq!(route(&[]), Route::Root);
}

#[test]
fn one_segment_is_a_file_or_a_user() {
    assert_eq!(route(&["styles.css"]), Route::Static(StaticAsset::Styles));
    assert_eq!(route(&["custom.js"]), Route::Static(StaticAsset::CustomJs));
    assert_eq!(route(&["alice"]), Route::User("alice"));
    assert_eq!(route(&["tree"]), Route::User("tree"));
    assert_eq!(route(&["styles.CSS"]), Route::User("styles.CSS"));
}

#[test]
fn two_segments_are_a_project() {
    assert_eq!(route(&["alice", "demo"]), Route::Project { user: "alice", project: "demo" });
    assert_eq!(route(&["alice", "demo.git"]), Route::DotGit("/alice/demo".to_owned()));
    assert_eq!(route(&["alice", ".git"]), Route::DotGit("/alice/".to_owned()));
    assert_eq!(route(&["alice", "git"]), Route::Project { user: "alice", project: "git" });
}

#[test]
fn three_segments_are_an_operation_without_target() {
    assert_eq!(
        route(&["alice", "demo", "log"]),
        Route::Page {
            operation: Operation::Log,
            user: "alice",
            project: "demo",
            target: None,
            rest: None
        }
    );
    assert_eq!(
        route(&["alice", "demo.git", "HEAD"]),
        Route::Page {
            operation: Operation::Head,
            user: "alice",
            project: "demo",
            target: None,
            rest: None
        }
    );
    assert_eq!(route(&["alice", "demo", "head"]), Route::NotFound);
    assert_eq!(route(&["alice", "demo", "wiki"]), Route::NotFound);
}

#[test]
fn more_segments_are_target_and_rest() {
    let empty: &[&str] = &[];
    assert_eq!(
        route(&["alice", "demo", "tree", "main"]),
        Route::Page {
            operation: Operation::Tree,
            user: "alice",
            project: "demo",
            target: Some("main"),
            rest: Some(empty)
        }
    );
    let rest: &[&str] = &["src", "lib.rs"];
    assert_eq!(
        route(&["alice", "demo.git", "blob", "main", "src", "lib.rs"]),
        Route::Page {
            operation: Operation::Blob,
            user: "alice",
            project: "demo",
            target: Some("main"),
            rest: Some(rest)
        }
    );
    let rest: &[&str] = &["packs"];
    assert_eq!(
        route(&["alice", "demo.git", "objects", "info", "packs"]),
        Route::Page {
            operation: Operation::Objects,
            user: "alice",
            project: "demo",
            target: Some("info"),
            rest: Some(rest)
        }
    );
    assert_eq!(route(&["alice", "demo", "wiki", "main", "x"]), Route::NotFound);
}

#[test]
fn operations_go_by_their_names() {
    assert_eq!(operation("tree"), Some(Operation::Tree));
    assert_eq!(operation("log"), Some(Operation::Log));
    assert_eq!(operation("blob"), Some(Operation::Blob));
    assert_eq!(operation("commit"), Some(Operation::Commit));
    assert_eq!(operation("refs"), Some(Operation::Refs));
    assert_eq!(operation("raw"), Some(Operation::Raw));
    assert_eq!(operation("info"), Some(Operation::Info));
    assert_eq!(operation("HEAD"), Some(Operation::Head));
    assert_eq!(operation("objects"), Some(Operation::Objects));
    assert_eq!(operation(""), None);
    assert_eq!(operation("Tree"), None);
}

#[test]
fn static_files_go_by_their_names() {
    assert_eq!(static_asset("normalize.css"), Some(StaticAsset::Normalize));
    assert_eq!(static_asset("styles.css"), Some(StaticAsset::Styles));
    assert_eq!(static_asset("logo.svg"), Some(StaticAsset::Logo));
    assert_eq!(static_asset("favicon.ico"), Some(StaticAsset::Favicon));
    assert_eq!(static_asset("javascript.js"), Some(StaticAsset::Javascript));
    assert_eq!(static_asset("custom.css"), Some(StaticAsset::CustomCss));
    assert_eq!(static_asset("custom.js"), Some(StaticAsset::CustomJs));
    assert_eq!(static_asset("blob-theme.css"), None);
    assert_eq!(static_asset(""), None);
}

#[test]
fn strip_git_removes_the_suffix_once() {
    assert_eq!(strip_git("demo.git"), "demo");
    assert_eq!(strip_git("demo"), "demo");
    assert_eq!(strip_git("demo.git.git"), "demo.git");
    assert_eq!(strip_git(".git"), "");
}

#[test]
fn the_root_is_the_first_argument() {
    let args = vec!["forge".to_owned(), "/srv/git".to_owned(), "tcp".to_owned()];
    assert_eq!(get_git_root(&args), "/srv/git");
    let args = vec!["forge".to_owned(), "repos".to_owned()];
    assert_eq!(get_git_root(&args), "repos");
}

#[test]
fn static_files_lie_under_static() {
    assert_eq!(static_path("styles.css"), "static/styles.css");
    assert_eq!(check_static_exists("styles.css", true), Some("static/styles.css".to_owned()));
    assert_eq!(check_static_exists("styles.css", false), None);
}

#[test]
fn paths_below_the_root() {
    assert_eq!(get_user_root("/srv/git", "alice"), "/srv/git/alice");
    assert_eq!(get_user_root("/srv/git/", "alice"), "/srv/git/alice");
    assert_eq!(get_user_root("/srv/git", "/etc"), "/etc");
    assert_eq!(project_repo_path("/srv/git", "alice", "demo"), "/srv/git/alice/demo.git");
    assert_eq!(packs_dir("/srv/git", "alice", "demo"), "/srv/git/alice/demo.git/objects/packs");
}

#[test]
fn get_path_joins_the_rest() {
    assert_eq!(get_path(None), None);
    assert_eq!(get_path(Some(&[])), Some("".to_owned()));
    assert_eq!(get_path(Some(&["src"])), Some("src".to_owned()));
    assert_eq!(get_path(Some(&["src", "a", "b.rs"])), Some("src/a/b.rs".to_owned()));
}

#[test]
fn redirect_names_the_view_and_the_place() {
    assert_eq!(
        redirect("/alice/demo", "blob", Some("main"), Some(&["src", "lib.rs"])),
        Missing::Elsewhere("/alice/demo/blob/main/src/lib.rs".to_owned())
    );
    assert_eq!(
        redirect("/alice/demo", "raw", None, None),
        Missing::Elsewhere("/alice/demo/raw//".to_owned())
    );
    assert_eq!(
        redirect("/u/p", "tree", Some("v1"), Some(&[])),
        Missing::Elsewhere("/u/p/tree/v1/".to_owned())
    );
}

#[test]
fn media_types_go_by_extension() {
    assert_eq!(guess_mime("logo.png"), MimeKind::ImagePng);
    assert_eq!(guess_mime("photo.jpg"), MimeKind::ImageJpeg);
    assert_eq!(guess_mime("photo.jpeg"), MimeKind::ImageJpeg);
    assert_eq!(guess_mime("anim.gif"), MimeKind::ImageGif);
    assert_eq!(guess_mime("logo.svg"), MimeKind::ImageSvg);
    assert_eq!(guess_mime("styles.css"), MimeKind::TextCss);
    assert_eq!(guess_mime("data.json"), MimeKind::ApplicationJson);
    assert_eq!(guess_mime("javascript.js"), MimeKind::ApplicationJavascript);
    assert_eq!(guess_mime("favicon.ico"), MimeKind::TextPlain);
    assert_eq!(guess_mime("README"), MimeKind::TextPlain);
    assert_eq!(guess_mime(".png"), MimeKind::TextPlain);
    assert_eq!(guess_mime("a.tar.png"), MimeKind::ImagePng);
    assert_eq!(guess_mime("logo.PNG"), MimeKind::TextPlain);
    assert_eq!(mime_of_extension(None), MimeKind::TextPlain);
    assert_eq!(mime_of_extension(Some("js")), MimeKind::ApplicationJavascript);
    assert_eq!(mime_of_extension(Some("")), MimeKind::TextPlain);
}

#[test]
fn media_types_are_written_as_in_a_header() {
    assert_eq!(MimeKind::ImagePng.as_str(), "image/png");
    assert_eq!(MimeKind::ImageJpeg.as_str(), "image/jpeg");
    assert_eq!(MimeKind::ImageGif.as_str(), "image/gif");
    assert_eq!(MimeKind::ImageSvg.as_str(), "image/svg+xml");
    assert_eq!(MimeKind::TextCss.as_str(), "text/css");
    assert_eq!(MimeKind::ApplicationJson.as_str(), "application/json");
    assert_eq!(MimeKind::ApplicationJavascript.as_str(), "application/javascript");
    assert_eq!(MimeKind::TextPlain.as_str(), "text/plain");
}

#[test]
fn content_is_served_with_type_and_length() {
    let response = respond(Ok(ContentType::PlainText("gr\u{fc}n".to_owned())));
    assert_eq!(response.status, 200);
    assert_eq!(response.content_type, Some("text/plain".to_owned()));
    assert_eq!(response.content_length, Some(5));
    assert_eq!(response.body, "gr\u{fc}n".as_bytes().to_vec());
    assert_eq!(response.location, None);

    let response = respond(Ok(ContentType::Markup("<p>hi</p>".to_owned(), Some("t".to_owned()))));
    assert_eq!(response.status, 200);
    assert_eq!(response.content_type, Some("text/html".to_owned()));
    assert_eq!(response.content_length, Some(9));
    assert_eq!(response.body, b"<p>hi</p>".to_vec());

    let response = respond(Ok(ContentType::Binary("image/png".to_owned(), vec![1, 2, 3])));
    assert_eq!(response.status, 200);
    assert_eq!(response.content_type, Some("image/png".to_owned()));
    assert_eq!(response.content_length, Some(3));
    assert_eq!(response.body, vec![1, 2, 3]);
}

#[test]
fn what_is_missing_is_answered_with_sorry() {
    let response = respond(Err(Missing::Nowhere));
    assert_eq!(response.status, 402);
    assert_eq!(response.location, None);
    assert_eq!(response.content_type, None);
    assert_eq!(response.content_length, None);
    assert_eq!(response.body, b"sorry".to_vec());

    let response = respond(Err(Missing::Elsewhere("/alice/demo".to_owned())));
    assert_eq!(response.status, 302);
    assert_eq!(response.location, Some("/alice/demo".to_owned()));
    assert_eq!(response.body, b"sorry".to_vec());
}

#[test]
fn head_file_names_the_reference() {
    let mut head = Reference {
        name: Some("refs/heads/main".to_owned()),
        shorthand: Some("main".to_owned()),
        target: None,
        is_branch: true,
        is_tag: false,
    };
    assert_eq!(head_file(&head), Ok("ref: refs/heads/main\n\n".to_owned()));
    head.name = None;
    assert_eq!(head_file(&head), Err(Missing::Nowhere));
}

#[test]
fn info_lists_ids_and_names() {
    let reference = |name: Option<&str>, target: Option<&str>| Reference {
        name: name.map(|s| s.to_owned()),
        shorthand: None,
        target: target.map(ObjectId::new),
        is_branch: false,
        is_tag: false,
    };
    let a = "a".repeat(40);
    let b = "b".repeat(40);
    let references = vec![
        reference(Some("refs/heads/main"), Some(&a)),
        reference(Some("HEAD"), None),
        reference(None, Some(&b)),
    ];
    assert_eq!(
        info_text(&references),
        format!("{}\trefs/heads/main\n{}\tHEAD\n{}\t\n", a, "0".repeat(40), b)
    );
    assert_eq!(info_text(&Vec::new()), "\n");
    let one = vec![reference(Some("refs/heads/main"), Some(&a))];
    assert_eq!(info_text(&one), format!("{}\trefs/heads/main\n", a));
}

#[test]
fn pack_info_lists_packs_only() {
    assert_eq!(pack_info(&["pack-1.pack", "pack-1.idx", "pack-2.pack"]), "P pack-1.pack\nP pack-2.pack\n\n");
    assert_eq!(pack_info(&[]), "\n");
    assert_eq!(pack_info(&["readme", ".pack"]), "P .pack\n\n");
}

#[test]
fn objects_are_files_or_the_pack_list() {
    assert_eq!(
        objects("/srv/git", "alice", "demo", Some("info"), Some(&["packs"])),
        Ok(ObjectsPlan::PackInfo)
    );
    assert_eq!(
        objects("/srv/git", "alice", "demo", Some("ab"), Some(&["cdef", "more"])),
        Ok(ObjectsPlan::File("/srv/git/alice/demo.git/objects/ab/cdef".to_owned()))
    );
    assert_eq!(
        objects("/srv/git", "alice", "demo", Some("info"), Some(&["refs"])),
        Ok(ObjectsPlan::File("/srv/git/alice/demo.git/objects/info/refs".to_owned()))
    );
    assert_eq!(
        objects("/srv/git", "alice", "demo", Some("pack"), None),
        Ok(ObjectsPlan::File("/srv/git/alice/demo.git/objects/pack/".to_owned()))
    );
    assert_eq!(objects("/srv/git", "alice", "demo", None, None), Err(Missing::Nowhere));
    assert_eq!(objects("/srv/git", "alice", "demo", Some("ab"), Some(&[])), Err(Missing::Nowhere));
}

#[test]
fn a_request_path_splits_into_segments() {
    assert_eq!(gitforge::route::request_parts("/"), Vec::<String>::new());
    assert_eq!(gitforge::route::request_parts(""), Vec::<String>::new());
    assert_eq!(gitforge::route::request_parts("/alice"), vec!["alice"]);
    assert_eq!(gitforge::route::request_parts("/alice/demo/"), vec!["alice", "demo"]);
    assert_eq!(
        gitforge::route::request_parts("/alice//demo/./tree/main/src"),
        vec!["alice", "demo", "tree", "main", "src"]
    );
    assert_eq!(gitforge::route::request_parts("/a/../b"), vec!["a", "..", "b"]);
}

#[test]
fn the_navigation_marks_the_page_shown() {
    assert_eq!(
        project_nav("/alice/demo", Page::Log),
        vec![
            NavItem { label: "tree", href: "/alice/demo/".to_owned(), active: false },
            NavItem { label: "log", href: "/alice/demo/log".to_owned(), active: true },
            NavItem { label: "refs", href: "/alice/demo/refs".to_owned(), active: false },
        ]
    );
    let shown: Vec<bool> =
        project_nav("/u/p", Page::Blob).iter().map(|item| item.active).collect();
    assert_eq!(shown, vec![false, false, false]);
    assert!(project_nav("", Page::Tree)[0].active);
    assert!(project_nav("", Page::Refs)[2].active);
    assert_eq!(nav_item_class(true), "project-nav-item project-nav-item--active");
    assert_eq!(nav_item_class(false), "project-nav-item");
}

#[test]
fn addresses_for_the_templates() {
    let id = ObjectId::new(&"c".repeat(40));
    assert_eq!(commit_url("/alice/demo", &id), format!("/alice/demo/commit/{}", "c".repeat(40)));
    assert_eq!(ref_url("/alice/demo", "v1.0"), "/alice/demo/tree/v1.0");
    assert_eq!(mailto("ann@example.org"), "mailto:ann@example.org");
    assert_eq!(entry_name_class(TreeEntryKind::Blob), "tree-entry-name tree-entry-name--blob");
    assert_eq!(entry_name_class(TreeEntryKind::Tree), "tree-entry-name tree-entry-name--tree");
    assert_eq!(code_block_html("rs", "<b>x</b>"), "<pre lang=rs><code><b>x</b></pre></code>");
    assert!(is_plain_block("text"));
    assert!(!is_plain_block(""));
    assert!(!is_plain_block("rs"));
}
