use std::collections::BTreeMap;

use release_plz_core::io::{Reply, Request};
use release_plz_core::package::{Metadata, Package};
use release_plz_core::readme::{
    is_readme_updated, local_readme_override, read_package_metadata, LocalReadme, ReadmeError,
};
use release_plz_core::version::Version;

fn package(name: &str, readme: Option<&str>) -> Package {
    Package {
        id: format!("id {name}"),
        name: name.to_string(),
        version: Version::new(0, 1, 0),
        publish: None,
        targets: vec![],
        readme: readme.map(str::to_string),
        manifest_path: "/local/Cargo.toml".to_string(),
    }
}

fn workspace(packages: Vec<Package>, members: &[&str]) -> Metadata {
    Metadata {
        packages,
        workspace_members: members.iter().map(|m| format!("id {m}")).collect(),
        target_directory: "/local/target".to_string(),
    }
}

/// Whether the README of `demo` changed, with these files on the disk.
fn check(
    metadata: Result<Metadata, String>,
    files: &[(&str, &str)],
    resolves: bool,
) -> Result<bool, ReadmeError> {
    let files: BTreeMap<&str, &str> = files.iter().copied().collect();
    let mut metadata = Some(metadata);
    let mut check = is_readme_updated("demo", "/local", "/release");
    while let Some(request) = check.request() {
        let reply = match request {
            Request::ManifestMetadata(path) => {
                assert_eq!(path, "/local/Cargo.toml");
                Reply::Metadata(metadata.take().unwrap())
            }
            Request::Exists(path) => Reply::Flag(files.contains_key(path.as_str())),
            Request::Canonicalize(path) => Reply::Canonical(if resolves {
                Ok(path)
            } else {
                Err("too many links".to_string())
            }),
            Request::ReadFile(path) => Reply::Content(match files.get(path.as_str()) {
                Some(&"unreadable") | None => Err("denied".to_string()),
                Some(content) => Ok(content.as_bytes().to_vec()),
            }),
            other => panic!("unexpected request {other:?}"),
        };
        check = check.reply(reply);
    }
    check.result().unwrap()
}

fn demo(readme: Option<&str>) -> Result<Metadata, String> {
    Ok(workspace(vec![package("other", None), package("demo", readme)], &["demo", "other"]))
}

#[test]
fn a_changed_readme_is_updated() {
    let files = [("/local/docs/R.md", "new"), ("/release/README.md", "old")];
    assert_eq!(check(demo(Some("docs/R.md")), &files, true), Ok(true));
}

#[test]
fn the_same_readme_is_not_updated() {
    let files = [("/local/docs/R.md", "same"), ("/release/README.md", "same")];
    assert_eq!(check(demo(Some("docs/R.md")), &files, true), Ok(false));
}

#[test]
fn a_readme_that_was_not_released_is_updated() {
    let files = [("/local/docs/R.md", "new")];
    assert_eq!(check(demo(Some("docs/R.md")), &files, true), Ok(true));
}

#[test]
fn without_a_readme_nothing_is_updated() {
    let files = [("/release/README.md", "old")];
    assert_eq!(check(demo(None), &files, true), Ok(false));
    assert_eq!(check(demo(Some("gone.md")), &files, true), Ok(false));
}

#[test]
fn without_the_package_nothing_is_updated() {
    let files = [("/local/docs/R.md", "new"), ("/release/README.md", "old")];
    assert_eq!(check(Err("no manifest".to_string()), &files, true), Ok(false));
    let not_a_member = Ok(workspace(vec![package("demo", Some("docs/R.md"))], &[]));
    assert_eq!(check(not_a_member, &files, true), Ok(false));
}

#[test]
fn readmes_that_cannot_be_compared_are_not_updated() {
    let files = [("/local/docs/R.md", "unreadable"), ("/release/README.md", "old")];
    assert_eq!(check(demo(Some("docs/R.md")), &files, true), Ok(false));
    let files = [("/local/docs/R.md", "new"), ("/release/README.md", "unreadable")];
    assert_eq!(check(demo(Some("docs/R.md")), &files, true), Ok(false));
}

#[test]
fn a_readme_that_cannot_be_resolved_is_an_error() {
    let files = [("/local/docs/R.md", "new"), ("/release/README.md", "old")];
    assert_eq!(
        check(demo(Some("docs/R.md")), &files, false),
        Err(ReadmeError::CannotCanonicalize("too many links".to_string()))
    );
}

#[test]
fn a_reply_to_another_request_ends_the_check() {
    let done = is_readme_updated("demo", "/local", "/release").reply(Reply::Flag(true));
    assert_eq!(done.request(), None);
    assert_eq!(done.result(), Some(Err(ReadmeError::UnexpectedReply)));
    assert_eq!(is_readme_updated("demo", "/local", "/release").result(), None);
}

#[test]
fn the_readme_of_the_manifest_is_searched_in_the_package() {
    let search = local_readme_override(&package("demo", Some("R.md")), "/local");
    assert_eq!(search.request(), Some(Request::Exists("/local/R.md".to_string())));
    let search = search.reply(Reply::Flag(true));
    assert_eq!(search.request(), Some(Request::Canonicalize("/local/R.md".to_string())));
    let found = search.reply(Reply::Canonical(Ok("/real/R.md".to_string())));
    assert_eq!(found, LocalReadme::Done(Ok(Some("/real/R.md".to_string()))));
    let none = local_readme_override(&package("demo", None), "/local");
    assert_eq!(none, LocalReadme::Done(Ok(None)));
    assert_eq!(none.request(), None);
    let unfit = local_readme_override(&package("demo", Some("R.md")), "/local")
        .reply(Reply::Renamed(Ok(())));
    assert_eq!(unfit, LocalReadme::Done(Err(ReadmeError::UnexpectedReply)));
}

#[test]
fn the_first_member_with_the_name_is_read() {
    let first = package("demo", Some("first.md"));
    let second = package("demo", Some("second.md"));
    let metadata = workspace(vec![first, second], &["demo"]);
    let found = read_package_metadata("demo", Ok(metadata)).unwrap();
    assert_eq!(found.readme.as_deref(), Some("first.md"));
    assert_eq!(read_package_metadata("demo", Err("no".to_string())), None);
    assert_eq!(read_package_metadata("other", demo(None)).unwrap().name, "other");
    assert_eq!(read_package_metadata("gone", demo(None)), None);
}
