use std::collections::BTreeMap;

use release_plz_core::git_only::{
    get_cargo_package, get_cargo_package_from_source, get_temp_worktree_and_repo,
    packaged_manifest_path, process_git_only_package, run_cargo_package, CargoPackageError,
    GitOnlyError, GitReply, GitRequest, PackageError, ReleaseTag, TagTemplate, WorktreeError,
};
use release_plz_core::io::CargoOutput;
use release_plz_core::next_ver::{next_versions, NextReply, NextRequest, NextVersionsError};
use release_plz_core::package::{Metadata, Package, Target, TargetKind};
use release_plz_core::packages_update::{PackagesUpdate, SemverCheck, UpdateResult};
use release_plz_core::registry::{PackageMap, PackagesCollection, RegistryPackage};
use release_plz_core::release_packages::{
    by_source, collect_git_only_packages, collect_registry_packages, packages_to_fetch,
};
use release_plz_core::update_request::{PackageConfig, UpdateRequest};
use release_plz_core::version::Version;

fn package(name: &str) -> Package {
    Package {
        id: format!("id {name}"),
        name: name.to_string(),
        version: Version::new(0, 2, 0),
        publish: None,
        targets: vec![Target { kind: vec![TargetKind::Lib] }],
        readme: None,
        manifest_path: format!("/work/{name}/Cargo.toml"),
    }
}

fn packages(names: &[&str]) -> Vec<Package> {
    names.iter().map(|name| package(name)).collect()
}

fn workspace(names: &[&str]) -> Metadata {
    Metadata {
        packages: packages(names),
        workspace_members: names.iter().map(|name| format!("id {name}")).collect(),
        target_directory: "/tree/target".to_string(),
    }
}

fn names(list: &[Package]) -> Vec<&str> {
    list.iter().map(|p| p.name.as_str()).collect()
}

/// A request in which the named packages are found by their git tags.
fn request(git_only: &[&str], allow_dirty: bool) -> UpdateRequest {
    UpdateRequest {
        default_config: PackageConfig { release: true, tag_name_template: None, git_only: false },
        package_configs: git_only
            .iter()
            .map(|name| {
                let config =
                    PackageConfig { release: true, tag_name_template: None, git_only: true };
                (name.to_string(), config)
            })
            .collect(),
        allow_dirty,
    }
}

/// What git and cargo reply.
struct Git {
    project: Result<(), String>,
    regex: Result<String, String>,
    cleanup: Result<(), String>,
    worktree: Result<Option<String>, String>,
    open: Result<(), String>,
    tag: Result<Option<&'static str>, String>,
    commit: Result<String, String>,
    checkout: Result<(), String>,
    cargo: Result<bool, String>,
    worktree_metadata: Result<&'static [&'static str], String>,
    packaged_metadata: Result<&'static [&'static str], String>,
    asked: Vec<GitRequest>,
}

impl Git {
    fn new() -> Git {
        Git {
            project: Ok(()),
            regex: Ok("^v(.*)$".to_string()),
            cleanup: Ok(()),
            worktree: Ok(Some("/tree".to_string())),
            open: Ok(()),
            tag: Ok(Some("v0.2.0")),
            commit: Ok("1234567".to_string()),
            checkout: Ok(()),
            cargo: Ok(true),
            worktree_metadata: Ok(&["demo", "other"]),
            packaged_metadata: Ok(&["demo", "other"]),
            asked: vec![],
        }
    }

    fn answer(&mut self, request: GitRequest) -> GitReply {
        let metadata = |names: &Result<&'static [&'static str], String>| {
            GitReply::Metadata(names.clone().map(workspace))
        };
        let reply = match &request {
            GitRequest::OpenProject => GitReply::Done(self.project.clone()),
            GitRequest::ReleaseRegex { .. } => GitReply::Pattern(self.regex.clone()),
            GitRequest::CleanupWorktree { .. } => GitReply::Done(self.cleanup.clone()),
            GitRequest::CreateWorktree { .. } => GitReply::Worktree(self.worktree.clone()),
            GitRequest::OpenWorktree { .. } => GitReply::Done(self.open.clone()),
            GitRequest::FindReleaseTag { .. } => GitReply::Tag(self.tag.clone().map(|tag| {
                tag.map(|name| ReleaseTag {
                    name: name.to_string(),
                    version: Version::new(0, 2, 0),
                })
            })),
            GitRequest::TagCommit { .. } => GitReply::Commit(self.commit.clone()),
            GitRequest::Checkout { .. } => GitReply::Done(self.checkout.clone()),
            GitRequest::Cargo { .. } => GitReply::Cargo(self.cargo.clone().map(|success| {
                CargoOutput { success, stdout: String::new(), stderr: "no version".to_string() }
            })),
            GitRequest::WorktreeMetadata { .. } => metadata(&self.worktree_metadata),
            GitRequest::ManifestMetadata { .. } => metadata(&self.packaged_metadata),
        };
        self.asked.push(request);
        reply
    }

    fn search(&mut self, name: &str) -> Result<Option<RegistryPackage>, GitOnlyError> {
        let mut search = process_git_only_package(name, &request(&[], false), true);
        while let Some(request) = search.request() {
            search = search.reply(self.answer(request));
        }
        assert!(search.is_done());
        search.result().unwrap()
    }
}

#[test]
fn the_last_release_is_the_package_at_its_tag() {
    let mut git = Git::new();
    let release = git.search("demo").unwrap().unwrap();
    assert_eq!(release.package.name, "demo");
    assert_eq!(release.published_at_sha1(), Some("1234567"));
    let name = || "demo".to_string();
    assert_eq!(
        git.asked,
        [
            GitRequest::ReleaseRegex {
                template: TagTemplate::Default { is_multi_package: true },
                package: name(),
            },
            GitRequest::CleanupWorktree { name: name() },
            GitRequest::CreateWorktree { name: name() },
            GitRequest::OpenWorktree { name: name() },
            GitRequest::FindReleaseTag { package: name(), pattern: "^v(.*)$".to_string() },
            GitRequest::TagCommit { package: name(), tag: "v0.2.0".to_string() },
            GitRequest::Checkout { package: name(), commit: "1234567".to_string() },
            GitRequest::Cargo {
                dir: "/tree".to_string(),
                args: vec![
                    "package".to_string(),
                    "--allow-dirty".to_string(),
                    "--workspace".to_string()
                ],
            },
            GitRequest::WorktreeMetadata {
                dir: "/tree".to_string(),
                manifest: "/tree/Cargo.toml".to_string(),
            },
            GitRequest::ManifestMetadata {
                manifest: "/tree/target/package/demo-0.2.0/Cargo.toml".to_string(),
            },
        ]
    );
}

#[test]
fn without_a_release_tag_there_is_no_last_release() {
    let mut git = Git::new();
    git.tag = Ok(None);
    assert_eq!(git.search("demo"), Ok(None));
}

#[test]
fn the_source_stands_in_for_a_package_that_cannot_be_packaged() {
    for cargo in [Ok(false), Err("no cargo".to_string())] {
        let mut git = Git::new();
        git.cargo = cargo;
        git.packaged_metadata = Err("not asked".to_string());
        let release = git.search("demo").unwrap().unwrap();
        assert_eq!(release.package.name, "demo");
        assert_eq!(release.published_at_sha1(), Some("1234567"));
        assert!(matches!(git.asked.last(), Some(GitRequest::WorktreeMetadata { .. })));
    }
}

#[test]
fn each_failure_of_a_search_is_told() {
    let cause = || "cause".to_string();
    let search = |change: fn(&mut Git)| {
        let mut git = Git::new();
        change(&mut git);
        git.search("demo").unwrap_err()
    };
    assert_eq!(
        search(|git| git.regex = Err("cause".to_string())),
        GitOnlyError::ReleaseRegex(cause())
    );
    assert_eq!(
        search(|git| git.cleanup = Err("cause".to_string())),
        GitOnlyError::Worktree(WorktreeError::Cleanup(cause()))
    );
    assert_eq!(
        search(|git| git.worktree = Err("cause".to_string())),
        GitOnlyError::Worktree(WorktreeError::Create(cause()))
    );
    assert_eq!(
        search(|git| git.open = Err("cause".to_string())),
        GitOnlyError::Worktree(WorktreeError::Open(cause()))
    );
    assert_eq!(
        search(|git| git.tag = Err("cause".to_string())),
        GitOnlyError::ReleaseTag(cause())
    );
    assert_eq!(
        search(|git| git.commit = Err("cause".to_string())),
        GitOnlyError::TagCommit(cause())
    );
    assert_eq!(
        search(|git| git.checkout = Err("cause".to_string())),
        GitOnlyError::Checkout(cause())
    );
    assert_eq!(
        search(|git| git.worktree = Ok(None)),
        GitOnlyError::Source(PackageError::NotUtf8)
    );
    assert_eq!(
        search(|git| git.worktree_metadata = Err("cause".to_string())),
        GitOnlyError::Packaged(PackageError::WorktreeMetadata(cause()))
    );
    assert_eq!(
        search(|git| git.worktree_metadata = Ok(&["other"])),
        GitOnlyError::Packaged(PackageError::NotInWorktree)
    );
    assert_eq!(
        search(|git| git.packaged_metadata = Err("cause".to_string())),
        GitOnlyError::Packaged(PackageError::PackagedMetadata(cause()))
    );
    assert_eq!(
        search(|git| git.packaged_metadata = Ok(&["other"])),
        GitOnlyError::Packaged(PackageError::NotPackaged)
    );
    let from_source = |metadata: Result<&'static [&'static str], String>| {
        let mut git = Git::new();
        git.cargo = Ok(false);
        git.worktree_metadata = metadata;
        git.search("demo").unwrap_err()
    };
    assert_eq!(
        from_source(Err(cause())),
        GitOnlyError::Source(PackageError::WorktreeMetadata(cause()))
    );
    assert_eq!(
        from_source(Ok(&["other"])),
        GitOnlyError::Source(PackageError::NotInWorktree)
    );
}

#[test]
fn a_reply_to_another_request_ends_a_search() {
    let search = process_git_only_package("demo", &request(&[], false), false);
    let done = search.reply(GitReply::Tag(Ok(None)));
    assert_eq!(done.request(), None);
    assert_eq!(done.result(), Some(Err(GitOnlyError::UnexpectedReply)));
    let setup = get_temp_worktree_and_repo("demo").reply(GitReply::Tag(Ok(None)));
    assert_eq!(setup.request(), None);
    assert_eq!(setup.result(), Some(Err(WorktreeError::UnexpectedReply)));
}

#[test]
fn a_worktree_is_made_in_place_of_an_old_one() {
    let setup = get_temp_worktree_and_repo("demo");
    let name = || "demo".to_string();
    assert_eq!(setup.request(), Some(GitRequest::CleanupWorktree { name: name() }));
    let setup = setup.reply(GitReply::Done(Ok(())));
    assert_eq!(setup.request(), Some(GitRequest::CreateWorktree { name: name() }));
    let setup = setup.reply(GitReply::Worktree(Ok(Some("/tree".to_string()))));
    assert_eq!(setup.request(), Some(GitRequest::OpenWorktree { name: name() }));
    let setup = setup.reply(GitReply::Done(Ok(())));
    assert_eq!(setup.request(), None);
    assert_eq!(setup.result(), Some(Ok(Some("/tree".to_string()))));
}

#[test]
fn a_configured_template_is_used() {
    let mut input = request(&["demo"], false);
    input.package_configs[0].1.tag_name_template = Some("rel-{{ version }}".to_string());
    let search = process_git_only_package("demo", &input, false);
    assert_eq!(
        search.request(),
        Some(GitRequest::ReleaseRegex {
            template: TagTemplate::Configured("rel-{{ version }}".to_string()),
            package: "demo".to_string(),
        })
    );
    let search = process_git_only_package("other", &input, false);
    assert_eq!(
        search.request(),
        Some(GitRequest::ReleaseRegex {
            template: TagTemplate::Default { is_multi_package: false },
            package: "other".to_string(),
        })
    );
}

#[test]
fn cargo_says_whether_a_workspace_was_packaged() {
    let output = |success: bool| CargoOutput {
        success,
        stdout: String::new(),
        stderr: "no version".to_string(),
    };
    assert_eq!(run_cargo_package(Ok(output(true))), Ok(()));
    assert_eq!(
        run_cargo_package(Ok(output(false))),
        Err(CargoPackageError::Failed("no version".to_string()))
    );
    assert_eq!(
        run_cargo_package(Err("no cargo".to_string())),
        Err(CargoPackageError::CannotRun("no cargo".to_string()))
    );
}

#[test]
fn packages_are_found_in_what_cargo_says() {
    assert_eq!(
        packaged_manifest_path(Ok(workspace(&["demo"])), "demo").as_deref(),
        Ok("/tree/target/package/demo-0.2.0/Cargo.toml")
    );
    assert_eq!(
        packaged_manifest_path(Ok(workspace(&["demo"])), "gone"),
        Err(PackageError::NotInWorktree)
    );
    assert_eq!(get_cargo_package(Ok(workspace(&["demo"])), "demo").unwrap().name, "demo");
    // A dependency with the name is no member.
    let mut metadata = workspace(&["demo"]);
    metadata.workspace_members.clear();
    assert_eq!(get_cargo_package(Ok(metadata), "demo"), Err(PackageError::NotPackaged));
    assert_eq!(
        get_cargo_package_from_source(Ok(workspace(&["demo"])), "demo").unwrap().name,
        "demo"
    );
    assert_eq!(
        get_cargo_package_from_source(Err("no".to_string()), "demo"),
        Err(PackageError::WorktreeMetadata("no".to_string()))
    );
}

#[test]
fn packages_are_parted_by_where_their_release_is() {
    let (git_only, registry) =
        by_source(&packages(&["a", "b", "c", "d"]), &request(&["b", "d"], false));
    assert_eq!(names(&git_only), ["b", "d"]);
    assert_eq!(names(&registry), ["a", "c"]);
}

#[test]
fn releases_are_collected_one_package_after_the_other() {
    let input = request(&["demo", "other"], false);
    let collect = |git: &mut Git, list: &[&str]| {
        let mut collection = collect_git_only_packages(&packages(list), &input, false);
        while let Some(request) = collection.request() {
            collection = collection.reply(git.answer(request));
        }
        assert!(collection.is_done());
        collection.result().unwrap()
    };
    let mut git = Git::new();
    let found = collect(&mut git, &["other", "demo"]).unwrap();
    assert_eq!(found.names(), &["demo", "other"]);
    assert_eq!(found.get("other").unwrap().package.name, "other");
    assert_eq!(git.asked[0], GitRequest::OpenProject);

    let mut git = Git::new();
    assert_eq!(collect(&mut git, &[]), Ok(PackageMap::new()));
    assert!(git.asked.is_empty());

    let mut git = Git::new();
    git.tag = Ok(None);
    assert_eq!(collect(&mut git, &["other", "demo"]), Ok(PackageMap::new()));

    let mut git = Git::new();
    git.project = Err("no repository".to_string());
    assert_eq!(
        collect(&mut git, &["demo"]),
        Err(GitOnlyError::OpenProject("no repository".to_string()))
    );

    let mut git = Git::new();
    git.commit = Err("gone".to_string());
    assert_eq!(
        collect(&mut git, &["demo", "other"]),
        Err(GitOnlyError::TagCommit("gone".to_string()))
    );
}

#[test]
fn worktrees_are_kept_for_the_packages_that_were_found() {
    let input = request(&[], false);
    let mut collection =
        collect_git_only_packages(&packages(&["other", "demo", "third"]), &input, false);
    assert!(collection.worktrees().is_empty());
    let mut seen = vec![];
    while let Some(request) = collection.request() {
        let mut git = Git::new();
        if let GitRequest::FindReleaseTag { package, .. } = &request {
            if package == "other" {
                git.tag = Ok(None);
            }
        }
        git.worktree_metadata = Ok(&["demo", "other", "third"]);
        git.packaged_metadata = Ok(&["demo", "other", "third"]);
        collection = collection.reply(git.answer(request));
        let names = collection.worktrees();
        if seen.last() != Some(&names) {
            seen.push(names);
        }
    }
    // The worktree of the package without a tag goes before the next one is made.
    assert_eq!(
        seen,
        [vec!["other"], vec!["demo"], vec!["demo", "third"]]
            .map(|names| names.into_iter().map(str::to_string).collect::<Vec<_>>())
    );
    let names = collection.worktrees();
    let found = collection.result().unwrap().unwrap();
    assert_eq!(&names, found.names());

    let mut failed = collect_git_only_packages(&packages(&["demo"]), &input, false);
    failed = failed.reply(GitReply::Done(Ok(())));
    assert_eq!(failed.worktrees(), ["demo"]);
    failed = failed.reply(GitReply::Pattern(Err("bad".to_string())));
    assert!(failed.worktrees().is_empty());
}

#[test]
fn worktrees_are_kept_until_the_packages_are_updated() {
    let mut world = World::new();
    let input = request(&["demo"], false);
    let mut versions = next_versions(&input, &workspace(&["a", "demo"]), &packages(&["a"]));
    while let Some(request) = versions.request() {
        let reply = match request {
            NextRequest::GitOnly(request) => NextReply::GitOnly(world.git.answer(request)),
            NextRequest::FetchPackages(_) => {
                assert_eq!(versions.worktrees(), ["demo"]);
                NextReply::Fetched(world.fetch.clone())
            }
            NextRequest::PackagesToUpdate(_) => {
                assert_eq!(versions.worktrees(), ["demo"]);
                NextReply::Updated(world.update.clone())
            }
            _ => NextReply::Done(Ok(())),
        };
        versions = versions.reply(reply);
    }
    assert!(versions.worktrees().is_empty());
}

#[test]
fn only_packages_that_can_be_published_are_fetched() {
    let fetch = packages_to_fetch(&packages(&["a", "b", "c"]), &packages(&["c", "a", "z"]));
    assert_eq!(names(&fetch), ["a", "c"]);
    assert!(packages_to_fetch(&packages(&["a"]), &vec![]).is_empty());
}

fn release(name: &str, sha1: Option<&str>) -> RegistryPackage {
    RegistryPackage::new(package(name), sha1.map(str::to_string))
}

fn fetched(releases: &[(&str, Option<&str>)]) -> PackagesCollection {
    let mut map = PackageMap::new();
    for (name, sha1) in releases {
        map.insert(name.to_string(), release(name, *sha1));
    }
    PackagesCollection::default().with_packages(map)
}

#[test]
fn packages_that_were_never_published_are_left_out() {
    let found = collect_registry_packages(
        &packages(&["a", "b"]),
        &fetched(&[("a", Some("abc")), ("z", None)]),
    );
    assert_eq!(found.names(), &["a"]);
    assert_eq!(found.get("a"), Some(&release("a", Some("abc"))));
}

/// What is replied while the next versions are determined.
struct World {
    git: Git,
    fetch: Result<PackagesCollection, String>,
    repo: Result<(), String>,
    clean: Result<(), String>,
    stash: Result<(), String>,
    update: Result<PackagesUpdate, String>,
    asked: BTreeMap<&'static str, usize>,
    to_fetch: Vec<String>,
    stash_args: Vec<String>,
    releases: Option<PackagesCollection>,
}

impl World {
    fn new() -> World {
        let result = UpdateResult {
            version: Version::new(0, 3, 0),
            changelog: None,
            semver_check: SemverCheck::Skipped,
            new_changelog_entry: None,
            registry_version: None,
        };
        World {
            git: Git::new(),
            fetch: Ok(fetched(&[("a", Some("abc")), ("b", None), ("demo", None)])),
            repo: Ok(()),
            clean: Ok(()),
            stash: Ok(()),
            update: Ok(PackagesUpdate::new(vec![(package("a"), result)])),
            asked: BTreeMap::new(),
            to_fetch: vec![],
            stash_args: vec![],
            releases: None,
        }
    }

    fn run(
        &mut self,
        input: &UpdateRequest,
        members: &[&str],
        publishable: &[&str],
    ) -> Result<PackagesUpdate, NextVersionsError> {
        let mut versions = next_versions(input, &workspace(members), &packages(publishable));
        while let Some(request) = versions.request() {
            let (kind, reply) = match request {
                NextRequest::GitOnly(request) => {
                    ("git", NextReply::GitOnly(self.git.answer(request)))
                }
                NextRequest::FetchPackages(list) => {
                    self.to_fetch = list.iter().map(|p| p.name.clone()).collect();
                    ("fetch", NextReply::Fetched(self.fetch.clone()))
                }
                NextRequest::TempRepo => ("repo", NextReply::Done(self.repo.clone())),
                NextRequest::IsClean => ("clean", NextReply::Done(self.clean.clone())),
                NextRequest::Git(args) => {
                    self.stash_args = args;
                    ("stash", NextReply::Done(self.stash.clone()))
                }
                NextRequest::PackagesToUpdate(releases) => {
                    self.releases = Some(releases);
                    ("update", NextReply::Updated(self.update.clone()))
                }
            };
            *self.asked.entry(kind).or_default() += 1;
            versions = versions.reply(reply);
        }
        versions.result().unwrap()
    }
}

#[test]
fn packages_are_compared_with_their_last_releases() {
    let mut world = World::new();
    let update = world.run(&request(&["demo"], false), &["a", "b", "demo"], &["a", "demo"]);
    assert_eq!(update, world.update.map_err(NextVersionsError::Update));
    assert_eq!(world.to_fetch, ["a"]);
    let releases = world.releases.unwrap();
    assert_eq!(releases.get_registry_package("a"), Some(&release("a", Some("abc"))));
    assert_eq!(releases.get_registry_package("b"), None);
    let demo = releases.get_registry_package("demo").unwrap();
    assert_eq!(demo.published_at_sha1(), Some("1234567"));
    assert_eq!(world.asked.get("stash"), None);
    // Two packages can be published.
    assert!(matches!(
        &world.git.asked[1],
        GitRequest::ReleaseRegex {
            template: TagTemplate::Default { is_multi_package: true },
            ..
        }
    ));
}

#[test]
fn neither_git_tags_nor_the_registry_are_asked_in_vain() {
    let mut world = World::new();
    assert!(world.run(&request(&[], false), &["a"], &[]).is_ok());
    assert_eq!(world.asked.keys().copied().collect::<Vec<_>>(), ["clean", "repo", "update"]);
    let releases = world.releases.unwrap();
    assert_eq!(releases, PackagesCollection::default());
}

#[test]
fn changes_that_are_not_committed_are_refused_or_stashed() {
    let mut world = World::new();
    world.clean = Err("changes".to_string());
    assert_eq!(
        world.run(&request(&[], false), &["a"], &["a"]),
        Err(NextVersionsError::NotClean("changes".to_string()))
    );
    assert_eq!(world.asked.get("update"), None);

    let mut world = World::new();
    world.clean = Err("changes".to_string());
    assert!(world.run(&request(&[], true), &["a"], &["a"]).is_ok());
    assert_eq!(
        world.stash_args,
        [
            "stash",
            "push",
            "--include-untracked",
            "-m",
            "uncommitted changes stashed by release-plz"
        ]
    );

    let mut world = World::new();
    assert!(world.run(&request(&[], true), &["a"], &["a"]).is_ok());
    assert_eq!(world.asked.get("stash"), None);

    let mut world = World::new();
    world.clean = Err("changes".to_string());
    world.stash = Err("no stash".to_string());
    assert_eq!(
        world.run(&request(&[], true), &["a"], &["a"]),
        Err(NextVersionsError::Stash("no stash".to_string()))
    );
}

#[test]
fn each_failure_to_determine_versions_is_told() {
    let cause = || "cause".to_string();
    let run = |change: fn(&mut World)| {
        let mut world = World::new();
        change(&mut world);
        world.run(&request(&["demo"], false), &["a", "demo"], &["a"]).unwrap_err()
    };
    assert_eq!(
        run(|w| w.git.checkout = Err("cause".to_string())),
        NextVersionsError::GitOnly(GitOnlyError::Checkout(cause()))
    );
    assert_eq!(
        run(|w| w.fetch = Err("cause".to_string())),
        NextVersionsError::Fetch(cause())
    );
    assert_eq!(
        run(|w| w.repo = Err("cause".to_string())),
        NextVersionsError::TempRepo(cause())
    );
    assert_eq!(
        run(|w| w.update = Err("cause".to_string())),
        NextVersionsError::Update(cause())
    );
    let versions = next_versions(&request(&[], false), &workspace(&["a"]), &packages(&["a"]));
    let done = versions.reply(NextReply::Done(Ok(())));
    assert_eq!(done.request(), None);
    assert_eq!(done.result(), Some(Err(NextVersionsError::UnexpectedReply)));
}
