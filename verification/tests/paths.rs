use release_plz_core::io::{Reply, Request};
use release_plz_core::next_ver::{
    canonicalized_path, is_dependency_referred_to_package, new_manifest_dir_path, root_repo_path,
    root_repo_path_from_manifest_dir, DependencyPath, OutsideProject, RootRepoError, RootRepoPath,
    NO_COMMIT_ID,
};
use release_plz_core::order::{order_of, sort_texts, Order};
use release_plz_core::path::{
    are_same_parts, are_same_paths, is_part_name, is_same_path, ordered_paths, PathPart,
};

fn texts(list: &[&str]) -> Vec<String> {
    list.iter().map(|s| s.to_string()).collect()
}

#[test]
fn paths_are_compared_by_their_parts() {
    assert!(is_same_path("a/b", "a//b/"));
    assert!(is_same_path("a/./b", "a/b"));
    assert!(!is_same_path("./a", "a"));
    assert!(!is_same_path("/a", "a"));
    assert!(!is_same_path("a/../b", "b"));
    assert!(are_same_paths(&texts(&["a/b", "c"]), &texts(&["a/b/", "c"])));
    assert!(!are_same_paths(&texts(&["a", "c"]), &texts(&["c", "a"])));
    assert!(!are_same_paths(&texts(&["a"]), &texts(&["a", "a"])));
}

#[test]
fn parts_are_compared_by_kind_and_name() {
    let name = |name: &str| PathPart::Normal(name.to_string());
    assert!(are_same_parts(&vec![PathPart::RootDir, name("a")], &vec![PathPart::RootDir, name("a")]));
    assert!(!are_same_parts(&vec![name("a")], &vec![name("b")]));
    assert!(!are_same_parts(&vec![name("a")], &vec![name("a"), PathPart::CurDir]));
    assert!(!are_same_parts(&vec![PathPart::CurDir], &vec![PathPart::ParentDir]));
    assert!(is_part_name(&name("a"), "a"));
    assert!(!is_part_name(&name("a"), "b"));
    assert!(!is_part_name(&PathPart::Prefix("a".to_string()), "a"));
}

#[test]
fn a_set_of_paths_is_ordered_part_by_part() {
    // As texts, `a-b` comes before `a/b`.
    assert_eq!(
        ordered_paths(&texts(&["b", "a-b", "a/b", "../x", "a//b", "/r", "a"])),
        ["/r", "../x", "a", "a/b", "a-b", "b"]
    );
    assert!(ordered_paths(&vec![]).is_empty());
}

#[test]
fn texts_are_ordered_by_their_bytes() {
    assert_eq!(order_of("a", "b"), Order::Before);
    assert_eq!(order_of("b", "a"), Order::After);
    assert_eq!(order_of("a", "a"), Order::Same);
    assert_eq!(order_of("a", "ab"), Order::Before);
    assert_eq!(order_of("\u{e9}", "z"), Order::After);
    assert_eq!(sort_texts(texts(&["b", "a", "B", "a"])), ["B", "a", "a", "b"]);
}

#[test]
fn the_root_of_the_repository_is_asked_from_git() {
    let search = root_repo_path("/work/demo/Cargo.toml");
    assert_eq!(search, RootRepoPath::Ask("/work/demo".to_string()));
    assert_eq!(
        search.request(),
        Some(Request::GitText {
            dir: "/work/demo".to_string(),
            args: texts(&["rev-parse", "--show-toplevel"]),
        })
    );
    let found = search.reply(Reply::Text(Ok("/work".to_string())));
    assert_eq!(found, RootRepoPath::Done(Ok("/work".to_string())));
    assert_eq!(found.request(), None);
    // A manifest without a directory in its path is in the current one.
    assert_eq!(root_repo_path("Cargo.toml"), RootRepoPath::Ask("".to_string()));
}

#[test]
fn the_root_of_the_repository_may_not_be_known() {
    assert_eq!(root_repo_path("/"), RootRepoPath::Done(Err(RootRepoError::NoManifestDir)));
    let search = || root_repo_path_from_manifest_dir("/work");
    assert_eq!(
        search().reply(Reply::Text(Err("not a git repository".to_string()))),
        RootRepoPath::Done(Err(RootRepoError::Git("not a git repository".to_string())))
    );
    assert_eq!(
        search().reply(Reply::Flag(true)),
        RootRepoPath::Done(Err(RootRepoError::UnexpectedReply))
    );
}

#[test]
fn a_manifest_directory_moves_with_its_project() {
    assert_eq!(
        new_manifest_dir_path("/old/project", "/old/project/crates/demo", "/tmp/new").as_deref(),
        Ok("/tmp/new/project/crates/demo")
    );
    assert_eq!(
        new_manifest_dir_path("/old/project", "/old/project", "/tmp/new").as_deref(),
        Ok("/tmp/new/project")
    );
    // In the directory that holds the project, it stays where it is.
    assert_eq!(
        new_manifest_dir_path("/old/project", "/old/project/crates/demo", "/old").as_deref(),
        Ok("/old/project/crates/demo")
    );
    // The root directory has no parent.
    assert_eq!(new_manifest_dir_path("/", "/demo", "/tmp").as_deref(), Ok("/tmp/demo"));
    assert_eq!(
        new_manifest_dir_path("/old/project", "/elsewhere/project", "/tmp"),
        Err(OutsideProject)
    );
}

#[test]
fn a_dependency_refers_to_the_package_that_its_path_resolves_to() {
    // The manifest in `/work/demo` lists a dependency with the path `../dep`.
    let check = || is_dependency_referred_to_package(Some("../dep"), "/work/dep", "/work/demo");
    assert_eq!(check().request(), Some(Request::Canonicalize("/work/demo/../dep".to_string())));
    assert_eq!(check().result(), None);
    let reply = |path: &str| Reply::Canonical(Ok(path.to_string()));
    let resolved = || check().reply(reply("/work/dep"));
    assert_eq!(resolved().request(), Some(Request::Canonicalize("/work/dep".to_string())));
    assert_eq!(resolved().result(), None);
    let done = resolved().reply(reply("/work/dep/"));
    assert_eq!(done.request(), None);
    assert_eq!(done.result(), Some(true));
    assert_eq!(resolved().reply(reply("/work/other")).result(), Some(false));
    let gone = || Reply::Canonical(Err("gone".to_string()));
    assert_eq!(resolved().reply(gone()).result(), Some(false));
    // Both may be links to one directory.
    let linked = check().reply(reply("/real")).reply(reply("/real"));
    assert_eq!(linked.result(), Some(true));
    // Without an absolute path of the dependency nothing else is asked.
    for none in [check().reply(gone()), check().reply(Reply::Flag(true))] {
        assert_eq!(none.request(), None);
        assert_eq!(none.result(), Some(false));
    }
    let none = is_dependency_referred_to_package(None, "/work/demo", "/work/demo");
    assert_eq!(none.request(), None);
    assert_eq!(none.result(), Some(false));
}

#[test]
fn a_dependency_is_taken_from_the_directory_of_its_manifest() {
    // `../y` in the manifest of `/y` is no reference to `/x`.
    let check = is_dependency_referred_to_package(Some("../y"), "/x", "/y");
    assert_eq!(check.request(), Some(Request::Canonicalize("/y/../y".to_string())));
    let check = check.reply(Reply::Canonical(Ok("/y".to_string())));
    let check = check.reply(Reply::Canonical(Ok("/x".to_string())));
    assert_eq!(check.result(), Some(false));
}

#[test]
fn the_path_of_a_dependency_is_resolved_from_its_manifest() {
    let search = canonicalized_path(Some("../dep"), "/work/demo");
    assert_eq!(search, DependencyPath::Resolve("/work/demo/../dep".to_string()));
    // An absolute path stays.
    let absolute = canonicalized_path(Some("/dep"), "/work/demo");
    assert_eq!(absolute, DependencyPath::Resolve("/dep".to_string()));
    let found = search.reply(Reply::Canonical(Ok("/work/dep".to_string())));
    assert_eq!(found, DependencyPath::Done(Some("/work/dep".to_string())));
    assert_eq!(canonicalized_path(None, "/work/demo"), DependencyPath::Done(None));
}

#[test]
fn the_commit_id_that_stands_for_none_is_long_enough() {
    assert!(NO_COMMIT_ID.len() >= 7);
    assert_eq!(NO_COMMIT_ID, "0000000");
}
