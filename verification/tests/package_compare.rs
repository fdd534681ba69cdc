use std::collections::{BTreeMap, BTreeSet};

use release_plz_core::file_list::get_cargo_package_files;
use release_plz_core::io::{CargoOutput, DirEntry, GitOutput, ListError, Reply, Request};
use release_plz_core::package_compare::{
    are_files_equal, are_packages_equal, are_source_dirs_equal, file_hash, file_in,
    is_comparable_name, is_comparable_source_file, is_content_compared, list_git_tracked_files,
    tracked_files, CompareError, TrackedError,
};

const CARGO_TOML: &str = "[package]
name = \"demo\"
version = \"0.1.0\"
edition = \"2021\"
";

/// Files in memory, some of which git tracks.
#[derive(Default)]
struct Disk {
    files: BTreeMap<String, Vec<u8>>,
    symlinks: BTreeSet<String>,
    unreadable: BTreeSet<String>,
    in_git: BTreeMap<String, Vec<String>>,
    packages: BTreeMap<String, Result<Vec<String>, String>>,
    no_rename: bool,
    renames: Vec<(String, String)>,
}

impl Disk {
    fn write(&mut self, path: &str, content: &str) {
        self.files.insert(path.to_string(), content.as_bytes().to_vec());
    }

    fn track(&mut self, dir: &str, file: &str) {
        self.in_git.entry(dir.to_string()).or_default().push(file.to_string());
    }

    fn answer(&mut self, request: Request) -> Reply {
        match request {
            Request::Exists(path) => Reply::Flag(self.files.contains_key(&path)),
            Request::IsSymlink(path) => Reply::Flag(self.symlinks.contains(&path)),
            Request::ReadFile(path) => {
                if self.unreadable.contains(&path) {
                    return Reply::Content(Err(format!("cannot read {path}")));
                }
                Reply::Content(
                    self.files.get(&path).cloned().ok_or_else(|| format!("no file {path}")),
                )
            }
            Request::Rename { from, to } => {
                if self.no_rename {
                    return Reply::Renamed(Err("read-only".to_string()));
                }
                self.renames.push((from.clone(), to.clone()));
                match self.files.remove(&from) {
                    Some(content) => {
                        self.files.insert(to, content);
                        Reply::Renamed(Ok(()))
                    }
                    None => Reply::Renamed(Err(format!("no file {from}"))),
                }
            }
            Request::Git { dir, args } => {
                assert_eq!(args, ["ls-files", "-z"]);
                match self.in_git.get(&dir) {
                    Some(files) => {
                        let mut stdout = Vec::new();
                        for file in files {
                            stdout.extend_from_slice(file.as_bytes());
                            stdout.push(0);
                        }
                        Reply::Git(Ok(GitOutput { success: true, stdout, stderr: String::new() }))
                    }
                    None => Reply::Git(Ok(GitOutput {
                        success: false,
                        stdout: vec![],
                        stderr: "not a git repository".to_string(),
                    })),
                }
            }
            Request::PackageFiles(dir) => Reply::Files(match &self.packages[&dir] {
                Ok(files) => Ok(files.clone()),
                Err(cause) => Err(ListError::CannotRunCargo(cause.clone())),
            }),
            other => panic!("unexpected request {other:?}"),
        }
    }

    fn compare(&mut self, local: &str, registry: &str) -> Result<bool, CompareError> {
        let mut comparison = are_packages_equal(local, registry);
        while let Some(request) = comparison.request() {
            let reply = self.answer(request);
            comparison = comparison.reply(reply);
        }
        comparison.result().unwrap()
    }
}

/// Two source package directories `a/` and `b/` with the same content. Both have a minimal
/// manifest and an optional additional file, all of them tracked by git.
fn two_source_packages(extra_file: Option<(&str, &str)>) -> Disk {
    let mut disk = Disk::default();
    for dir in ["/root/a", "/root/b"] {
        disk.write(&format!("{dir}/Cargo.toml"), CARGO_TOML);
        disk.track(dir, "Cargo.toml");
        if let Some((name, contents)) = extra_file {
            disk.write(&format!("{dir}/{name}"), contents);
            disk.track(dir, name);
        }
    }
    disk
}

/// A local package and its packaged release.
fn packaged_release() -> Disk {
    let mut disk = Disk::default();
    disk.write("/local/Cargo.toml", CARGO_TOML);
    disk.write("/local/src/lib.rs", "fn a() {}\n");
    disk.write("/local/Cargo.lock", "# local lock\n");
    disk.write("/release/Cargo.toml.orig", CARGO_TOML);
    disk.write("/release/Cargo.toml", "# generated\n");
    disk.write("/release/src/lib.rs", "fn a() {}\n");
    disk.write("/release/Cargo.lock", "# published lock\n");
    let names = |list: &[&str]| Ok(list.iter().map(|s| s.to_string()).collect());
    disk.packages.insert(
        "/local".to_string(),
        names(&[".cargo_vcs_info.json", "Cargo.lock", "Cargo.toml", "Cargo.toml.orig", "src/lib.rs"]),
    );
    disk.packages.insert(
        "/release".to_string(),
        names(&["Cargo.lock", "Cargo.toml", "Cargo.toml.orig.orig", "src/lib.rs"]),
    );
    disk
}

#[test]
fn source_dir_comparison_identical_sources_are_equal() {
    let mut disk = two_source_packages(Some(("lib.rs", "fn a() {}\n")));
    let result = disk.compare("/root/a", "/root/b").expect("are_packages_equal");
    assert!(result, "two source directories with identical content must compare equal");
}

#[test]
fn source_dir_comparison_different_content_is_not_equal() {
    let mut disk = two_source_packages(Some(("lib.rs", "fn a() {}\n")));
    // Git still tracks the file, but its content is another one.
    disk.write("/root/a/lib.rs", "fn different() {}\n");
    let result = disk.compare("/root/a", "/root/b").expect("are_packages_equal");
    assert!(!result, "source directories with differing file content must compare NOT equal");
}

#[test]
fn source_dir_comparison_different_cargo_toml_is_not_equal() {
    let mut disk = two_source_packages(None);
    disk.write(
        "/root/a/Cargo.toml",
        "[package]\nname = \"demo\"\nversion = \"0.2.0\"\nedition = \"2021\"\n",
    );
    let result = disk.compare("/root/a", "/root/b").expect("are_packages_equal");
    assert!(!result, "source directories with differing Cargo.toml must compare NOT equal");
}

#[test]
fn source_dir_comparison_ignores_cargo_lock_and_vcs_info() {
    let mut disk = two_source_packages(Some(("lib.rs", "fn a() {}\n")));
    // Git does not track these two.
    disk.write("/root/a/Cargo.lock", "# lock\n");
    disk.write("/root/a/.cargo_vcs_info.json", "{\"git\": {\"sha1\": \"deadbeef\"}}");
    let result = disk.compare("/root/a", "/root/b").expect("are_packages_equal");
    assert!(result, "Cargo.lock and .cargo_vcs_info.json must be ignored in source comparison");
}

#[test]
fn is_comparable_source_file_filters_known_artifacts() {
    assert!(!is_comparable_source_file("Cargo.lock"));
    assert!(!is_comparable_source_file("Cargo.toml.orig"));
    assert!(!is_comparable_source_file("Cargo.toml.orig.orig"));
    assert!(!is_comparable_source_file(".cargo_vcs_info.json"));
    assert!(is_comparable_source_file("src/lib.rs"));
    assert!(is_comparable_source_file("Cargo.toml"));
    assert!(is_comparable_source_file("README.md"));
}

#[test]
fn generated_files_are_known_by_their_name_in_any_directory() {
    assert!(!is_comparable_source_file("inner/Cargo.lock"));
    assert!(!is_comparable_source_file("inner/Cargo.lock/"));
    assert!(is_comparable_source_file("Cargo.lock/inner"));
    assert!(is_comparable_source_file(""));
}

#[test]
fn tracked_generated_files_are_ignored_too() {
    let mut disk = two_source_packages(Some(("lib.rs", "fn a() {}\n")));
    disk.write("/root/a/Cargo.lock", "# lock\n");
    disk.track("/root/a", "Cargo.lock");
    assert_eq!(disk.compare("/root/a", "/root/b"), Ok(true));
}

#[test]
fn another_tracked_file_makes_a_difference() {
    let mut disk = two_source_packages(Some(("lib.rs", "fn a() {}\n")));
    disk.write("/root/b/more.rs", "");
    disk.track("/root/b", "more.rs");
    assert_eq!(disk.compare("/root/a", "/root/b"), Ok(false));
}

#[test]
fn a_file_that_git_lists_twice_counts_once() {
    let mut disk = two_source_packages(Some(("lib.rs", "fn a() {}\n")));
    disk.track("/root/a", "lib.rs");
    disk.track("/root/a", "./lib.rs");
    // `./lib.rs` begins with another part than `lib.rs`.
    assert_eq!(disk.compare("/root/a", "/root/b"), Ok(false));
    let mut disk = two_source_packages(Some(("src/lib.rs", "fn a() {}\n")));
    disk.track("/root/a", "src//lib.rs");
    assert_eq!(disk.compare("/root/a", "/root/b"), Ok(true));
}

#[test]
fn missing_files_and_symbolic_links_are_passed_over() {
    let mut disk = two_source_packages(Some(("lib.rs", "fn a() {}\n")));
    disk.files.remove("/root/a/lib.rs");
    assert_eq!(disk.compare("/root/a", "/root/b"), Ok(true));

    let mut disk = two_source_packages(Some(("lib.rs", "fn a() {}\n")));
    disk.write("/root/b/lib.rs", "fn other() {}\n");
    assert_eq!(disk.compare("/root/a", "/root/b"), Ok(false));
    disk.symlinks.insert("/root/b/lib.rs".to_string());
    assert_eq!(disk.compare("/root/a", "/root/b"), Ok(true));
}

#[test]
fn a_manifest_that_cannot_be_read_is_a_difference() {
    let mut disk = two_source_packages(None);
    disk.unreadable.insert("/root/b/Cargo.toml".to_string());
    assert_eq!(disk.compare("/root/a", "/root/b"), Ok(false));
    let mut disk = two_source_packages(None);
    disk.files.remove("/root/a/Cargo.toml");
    assert_eq!(disk.compare("/root/a", "/root/b"), Ok(false));
}

#[test]
fn a_file_that_cannot_be_read_is_an_error() {
    let mut disk = two_source_packages(Some(("lib.rs", "fn a() {}\n")));
    disk.unreadable.insert("/root/b/lib.rs".to_string());
    assert_eq!(
        disk.compare("/root/a", "/root/b"),
        Err(CompareError::CannotHash("cannot read /root/b/lib.rs".to_string()))
    );
}

#[test]
fn without_git_source_directories_cannot_be_compared() {
    let mut disk = two_source_packages(None);
    disk.in_git.remove("/root/a");
    let failed = || TrackedError::GitFailed("not a git repository".to_string());
    assert_eq!(disk.compare("/root/a", "/root/b"), Err(CompareError::LocalTracked(failed())));
    let mut disk = two_source_packages(None);
    disk.in_git.remove("/root/b");
    assert_eq!(disk.compare("/root/a", "/root/b"), Err(CompareError::RegistryTracked(failed())));
}

#[test]
fn a_packaged_release_is_compared_by_its_files() {
    let mut disk = packaged_release();
    assert_eq!(disk.compare("/local", "/release"), Ok(true));
    assert_eq!(
        disk.renames,
        [
            (
                "/release/Cargo.toml.orig".to_string(),
                "/release/Cargo.toml.orig.orig".to_string()
            ),
            (
                "/release/Cargo.toml.orig.orig".to_string(),
                "/release/Cargo.toml.orig".to_string()
            ),
        ]
    );
    disk.write("/release/src/lib.rs", "fn b() {}\n");
    assert_eq!(disk.compare("/local", "/release"), Ok(false));
}

#[test]
fn a_packaged_release_with_another_manifest_differs() {
    let mut disk = packaged_release();
    disk.write("/release/Cargo.toml.orig", "[package]\n");
    assert_eq!(disk.compare("/local", "/release"), Ok(false));
    assert!(disk.renames.is_empty());
}

#[test]
fn a_packaged_release_with_other_files_differs() {
    let mut disk = packaged_release();
    disk.packages.insert(
        "/release".to_string(),
        Ok(vec!["Cargo.lock".to_string(), "Cargo.toml".to_string()]),
    );
    assert_eq!(disk.compare("/local", "/release"), Ok(false));
}

#[test]
fn files_that_are_not_there_are_passed_over() {
    let mut disk = packaged_release();
    disk.files.remove("/local/src/lib.rs");
    assert_eq!(disk.compare("/local", "/release"), Ok(true));
}

#[test]
fn each_failure_of_a_packaged_comparison_is_told() {
    let mut disk = packaged_release();
    disk.no_rename = true;
    assert_eq!(
        disk.compare("/local", "/release"),
        Err(CompareError::CannotRename("read-only".to_string()))
    );
    let mut disk = packaged_release();
    disk.packages.insert("/local".to_string(), Err("no cargo".to_string()));
    assert_eq!(
        disk.compare("/local", "/release"),
        Err(CompareError::LocalFiles(ListError::CannotRunCargo("no cargo".to_string())))
    );
    let mut disk = packaged_release();
    disk.packages.insert("/release".to_string(), Err("no cargo".to_string()));
    assert_eq!(
        disk.compare("/local", "/release"),
        Err(CompareError::RegistryFiles(ListError::CannotRunCargo("no cargo".to_string())))
    );
    let mut disk = packaged_release();
    disk.files.remove("/release/src/lib.rs");
    assert_eq!(
        disk.compare("/local", "/release"),
        Err(CompareError::CannotHash("no file /release/src/lib.rs".to_string()))
    );
    // An absolute path in the list leads out of the package.
    let mut disk = packaged_release();
    disk.write("/elsewhere", "");
    for dir in ["/local", "/release"] {
        disk.packages.insert(dir.to_string(), Ok(vec!["/elsewhere".to_string()]));
    }
    assert_eq!(disk.compare("/local", "/release"), Err(CompareError::OutsidePackage));
}

#[test]
fn a_reply_to_another_request_ends_the_comparison() {
    let comparison = are_packages_equal("/a", "/b");
    let done = comparison.reply(Reply::Renamed(Ok(())));
    assert_eq!(done.request(), None);
    // It stays as it is.
    let done = done.reply(Reply::Flag(true));
    assert_eq!(done.result(), Some(Err(CompareError::UnexpectedReply)));
}

#[test]
fn an_unfinished_comparison_has_no_result() {
    let comparison = are_packages_equal("/a", "/b");
    assert_eq!(comparison.request(), Some(Request::Exists("/b/Cargo.toml.orig".to_string())));
    assert_eq!(comparison.result(), None);
}

#[test]
fn tracked_files_are_read_and_sorted() {
    let stdout = b"src/lib.rs\0Cargo.toml\0\0a\xff\0README.md".to_vec();
    assert_eq!(tracked_files(&stdout), ["Cargo.toml", "README.md", "src/lib.rs"]);
    assert!(tracked_files(&vec![]).is_empty());
    // In the order of the bytes, capital letters come first, and `-` before `/`.
    assert_eq!(
        tracked_files(&b"a/b\0a-b\0B\0\xc3\xa9\0z\0".to_vec()),
        ["B", "a-b", "a/b", "z", "\u{e9}"]
    );
}

#[test]
fn listing_tracked_files_can_fail() {
    assert_eq!(
        list_git_tracked_files(Err("no git".to_string())),
        Err(TrackedError::CannotRunGit("no git".to_string()))
    );
    let output =
        GitOutput { success: false, stdout: b"a\0".to_vec(), stderr: "fatal".to_string() };
    assert_eq!(
        list_git_tracked_files(Ok(output)),
        Err(TrackedError::GitFailed("fatal".to_string()))
    );
    let output = GitOutput { success: true, stdout: b"a\0".to_vec(), stderr: String::new() };
    assert_eq!(list_git_tracked_files(Ok(output)), Ok(vec!["a".to_string()]));
}

#[test]
fn files_are_compared_by_their_hash() {
    assert!(are_files_equal(&b"abc".to_vec(), &b"abc".to_vec()));
    assert!(!are_files_equal(&b"abc".to_vec(), &b"abd".to_vec()));
    assert!(!are_files_equal(&b"".to_vec(), &b"\0".to_vec()));
    assert_eq!(file_hash(&b"abc".to_vec()), file_hash(&b"abc".to_vec()));
}

#[test]
fn source_directories_are_compared_beginning_with_their_manifests() {
    let comparison = are_source_dirs_equal("/a", "/b");
    assert_eq!(comparison.request(), Some(Request::ReadFile("/a/Cargo.toml".to_string())));
    let packaged = are_packages_equal("/a", "/b").reply(Reply::Flag(false));
    assert_eq!(packaged, comparison);
}

#[test]
fn names_say_which_files_are_compared() {
    for name in ["Cargo.lock", "Cargo.toml.orig", "Cargo.toml.orig.orig", ".cargo_vcs_info.json"] {
        assert!(!is_comparable_name(Some(name)), "{name}");
    }
    for name in ["Cargo.toml", "lib.rs", "cargo.lock", ""] {
        assert!(is_comparable_name(Some(name)), "{name}");
    }
    assert!(is_comparable_name(None));
    for name in ["Cargo.lock", "Cargo.toml", "Cargo.toml.orig"] {
        assert!(!is_content_compared(Some(name)), "{name}");
    }
    for name in ["Cargo.toml.orig.orig", "lib.rs"] {
        assert!(is_content_compared(Some(name)), "{name}");
    }
    assert!(is_content_compared(None));
}

#[test]
fn only_the_name_of_a_file_counts_in_any_directory() {
    for dir in ["crates/x", "/", "", "Cargo.lock", "a/.."] {
        for name in ["Cargo.lock", "notes.txt", "Cargo.toml.orig"] {
            assert_eq!(
                is_comparable_source_file(&file_in(dir, name)),
                is_comparable_source_file(name),
                "{dir} {name}"
            );
        }
    }
    assert_eq!(file_in("crates/x", "Cargo.lock"), "crates/x/Cargo.lock");
    assert!(is_comparable_source_file("Cargo.lock/notes.txt"));
}

#[test]
fn source_directories_compare_the_same_the_other_way_round() {
    let changes: [fn(&mut Disk); 5] = [
        |_| {},
        |disk| disk.write("/root/a/lib.rs", "fn other() {}\n"),
        |disk| disk.track("/root/b", "more.rs"),
        |disk| {
            disk.unreadable.insert("/root/a/lib.rs".to_string());
        },
        |disk| {
            disk.in_git.remove("/root/b");
        },
    ];
    for (change, expected) in changes.iter().zip([Some(true), Some(false), Some(false), None, None]) {
        let mut disk = two_source_packages(Some(("lib.rs", "fn a() {}\n")));
        change(&mut disk);
        assert_eq!(disk.compare("/root/a", "/root/b").ok(), expected);
        assert_eq!(disk.compare("/root/b", "/root/a").ok(), expected);
    }
}

/// Files in memory that are also listed: below a directory that is packaged locally they are read
/// from the disk, and elsewhere cargo lists them.
fn list_files(disk: &Disk, package: &str) -> Result<Vec<String>, ListError> {
    let mut list = get_cargo_package_files(package);
    while let Some(request) = list.request() {
        let reply = match request {
            Request::Exists(path) => Reply::Flag(disk.files.contains_key(&path)),
            Request::ReadDir(dir) => {
                let mut entries: Vec<DirEntry> = vec![];
                for path in disk.files.keys() {
                    if let Some(rest) = path.strip_prefix(&format!("{dir}/")) {
                        let (name, is_dir) = match rest.split_once('/') {
                            Some((name, _)) => (name, true),
                            None => (rest, false),
                        };
                        let entry = DirEntry { path: format!("{dir}/{name}"), is_dir };
                        if entries.last() != Some(&entry) {
                            entries.push(entry);
                        }
                    }
                }
                Reply::Entries(Ok(entries))
            }
            Request::Cargo { dir, .. } => Reply::Cargo(Ok(CargoOutput {
                success: true,
                stdout: disk
                    .files
                    .keys()
                    .filter_map(|path| path.strip_prefix(&format!("{dir}/")))
                    .map(|file| format!("{file}\n"))
                    .collect(),
                stderr: String::new(),
            })),
            other => panic!("unexpected request {other:?}"),
        };
        list = list.reply(reply);
    }
    list.result().unwrap()
}

fn compare_with_listing(disk: &mut Disk, local: &str, registry: &str) -> Result<bool, CompareError> {
    let mut comparison = are_packages_equal(local, registry);
    while let Some(request) = comparison.request() {
        let reply = match request {
            Request::PackageFiles(dir) => {
                // The original manifest of the release has its other name now.
                assert!(disk.files.contains_key(&format!("{registry}/Cargo.toml.orig.orig")));
                Reply::Files(list_files(disk, &dir))
            }
            request => disk.answer(request),
        };
        comparison = comparison.reply(reply);
    }
    comparison.result().unwrap()
}

#[test]
fn a_locally_packaged_release_is_compared_by_the_files_on_the_disk() {
    let release = "/tree/target/package/demo-0.1.0";
    let mut disk = Disk::default();
    disk.write("/local/Cargo.toml", CARGO_TOML);
    disk.write("/local/src/lib.rs", "fn a() {}\n");
    disk.write(&format!("{release}/Cargo.toml.orig"), CARGO_TOML);
    disk.write(&format!("{release}/Cargo.toml"), "# generated\n");
    disk.write(&format!("{release}/.cargo_vcs_info.json"), "{}");
    disk.write(&format!("{release}/src/lib.rs"), "fn a() {}\n");
    assert_eq!(compare_with_listing(&mut disk, "/local", release), Ok(true));
    assert!(disk.files.contains_key(&format!("{release}/Cargo.toml.orig")));
    disk.write("/local/src/new.rs", "");
    assert_eq!(compare_with_listing(&mut disk, "/local", release), Ok(false));
    disk.write(&format!("{release}/src/new.rs"), "");
    assert_eq!(compare_with_listing(&mut disk, "/local", release), Ok(true));
    disk.write(&format!("{release}/src/new.rs"), "fn changed() {}\n");
    assert_eq!(compare_with_listing(&mut disk, "/local", release), Ok(false));
}

#[test]
fn what_is_not_compared_changes_nothing() {
    let mut disk = two_source_packages(Some(("lib.rs", "fn a() {}\n")));
    disk.write("/root/a/notes.txt", "not in git\n");
    assert_eq!(disk.compare("/root/a", "/root/b"), Ok(true));
    disk.write("/root/b/Cargo.lock", "# one\n");
    disk.track("/root/b", "Cargo.lock");
    assert_eq!(disk.compare("/root/a", "/root/b"), Ok(true));
    disk.write("/root/b/Cargo.lock", "# another\n");
    assert_eq!(disk.compare("/root/a", "/root/b"), Ok(true));
}
