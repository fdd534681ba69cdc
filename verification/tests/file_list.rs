use release_plz_core::file_list::{
    get_cargo_package_files, get_cargo_package_list, has_target_package, is_cargo_packaged_dir,
    list_packaged_files, FileList,
};
use release_plz_core::io::{CargoOutput, DirEntry, ListError, Reply, Request};
use release_plz_core::path::PathPart;

fn output(success: bool, stdout: &str, stderr: &str) -> Result<CargoOutput, String> {
    Ok(CargoOutput { success, stdout: stdout.to_string(), stderr: stderr.to_string() })
}

fn entry(path: &str, is_dir: bool) -> DirEntry {
    DirEntry { path: path.to_string(), is_dir }
}

fn finish(mut list: FileList, mut answer: impl FnMut(Request) -> Reply) -> Result<Vec<String>, ListError> {
    while let Some(request) = list.request() {
        list = list.reply(answer(request));
    }
    list.result().unwrap()
}

#[test]
fn packaged_directories_are_inside_target_package() {
    assert!(is_cargo_packaged_dir("/work/target/package"));
    assert!(is_cargo_packaged_dir("/work/target/package/demo-0.1.0"));
    assert!(is_cargo_packaged_dir("target/package/demo-0.1.0/src"));
    assert!(is_cargo_packaged_dir("/target/package/../x"));
    assert!(!is_cargo_packaged_dir("/work/package/target"));
    assert!(!is_cargo_packaged_dir("/work/target/other/package"));
    assert!(!is_cargo_packaged_dir("/work/target"));
    assert!(!is_cargo_packaged_dir("package"));
    assert!(!is_cargo_packaged_dir("/"));
    assert!(!is_cargo_packaged_dir(""));
}

#[test]
fn parts_say_whether_a_directory_is_inside_target_package() {
    let name = |name: &str| PathPart::Normal(name.to_string());
    assert!(has_target_package(&vec![name("target"), name("package")]));
    assert!(has_target_package(&vec![
        PathPart::RootDir,
        name("target"),
        name("package"),
        PathPart::ParentDir,
        name("x"),
    ]));
    assert!(!has_target_package(&vec![name("target"), PathPart::CurDir, name("package")]));
    assert!(!has_target_package(&vec![name("target"), name("package"), PathPart::RootDir]));
    assert!(!has_target_package(&vec![name("package")]));
    assert!(!has_target_package(&vec![]));
}

#[test]
fn cargo_lists_one_file_in_each_line() {
    assert_eq!(
        get_cargo_package_list(output(true, "Cargo.toml\r\nsrc/lib.rs\n\nlast", "")),
        Ok(vec![
            "Cargo.toml".to_string(),
            "src/lib.rs".to_string(),
            "".to_string(),
            "last".to_string()
        ])
    );
    assert_eq!(get_cargo_package_list(output(true, "", "")), Ok(vec![]));
    // A carriage return alone ends no line.
    assert_eq!(get_cargo_package_list(output(true, "a\rb\r", "")), Ok(vec!["a\rb\r".to_string()]));
}

#[test]
fn a_failing_cargo_lists_nothing() {
    assert_eq!(
        get_cargo_package_list(output(false, "Cargo.toml\n", "oops")),
        Err(ListError::CargoFailed("oops".to_string()))
    );
    assert_eq!(
        get_cargo_package_list(Err("no cargo".to_string())),
        Err(ListError::CannotRunCargo("no cargo".to_string()))
    );
}

#[test]
fn cargo_is_asked_for_a_package_elsewhere() {
    let files = finish(get_cargo_package_files("/work/demo"), |request| match request {
        Request::Cargo { dir, args } => {
            assert_eq!(dir, "/work/demo");
            assert_eq!(args, ["package", "--list", "--quiet", "--allow-dirty"]);
            Reply::Cargo(output(true, "Cargo.toml\n", ""))
        }
        other => panic!("unexpected request {other:?}"),
    });
    assert_eq!(files, Ok(vec!["Cargo.toml".to_string()]));
}

#[test]
fn cargo_is_asked_where_the_original_manifest_is_missing() {
    let dir = "/work/target/package/demo-0.1.0";
    let mut asked = vec![];
    let files = finish(get_cargo_package_files(dir), |request| match request {
        Request::Exists(path) => {
            asked.push(path);
            Reply::Flag(false)
        }
        Request::Cargo { .. } => Reply::Cargo(output(true, "a\n", "")),
        other => panic!("unexpected request {other:?}"),
    });
    assert_eq!(files, Ok(vec!["a".to_string()]));
    assert_eq!(asked, [format!("{dir}/Cargo.toml.orig"), format!("{dir}/Cargo.toml.orig.orig")]);
}

#[test]
fn files_of_a_packaged_directory_are_read_from_the_disk() {
    let dir = "/work/target/package/demo-0.1.0";
    for moved in [false, true] {
        let mut read = vec![];
        let files = finish(get_cargo_package_files(dir), |request| match request {
            Request::Exists(path) => Reply::Flag(path.ends_with(".orig.orig") == moved),
            Request::ReadDir(path) => {
                let entries = if path == dir {
                    vec![
                        entry(&format!("{dir}/src"), true),
                        entry(&format!("{dir}/Cargo.toml"), false),
                        entry(&format!("{dir}/empty"), true),
                        entry(&format!("{dir}/build.rs"), false),
                    ]
                } else if path.ends_with("/src") {
                    vec![
                        entry(&format!("{dir}/src/lib.rs"), false),
                        entry(&format!("{dir}/src/inner"), true),
                    ]
                } else if path.ends_with("/inner") {
                    vec![entry(&format!("{dir}/src/inner/mod.rs"), false)]
                } else {
                    vec![]
                };
                read.push(path);
                Reply::Entries(Ok(entries))
            }
            other => panic!("unexpected request {other:?}"),
        });
        assert_eq!(
            files,
            Ok(vec![
                "Cargo.toml".to_string(),
                "build.rs".to_string(),
                "src/inner/mod.rs".to_string(),
                "src/lib.rs".to_string(),
            ])
        );
        // Each directory is read once, the last one that was found first.
        assert_eq!(
            read,
            [
                dir.to_string(),
                format!("{dir}/empty"),
                format!("{dir}/src"),
                format!("{dir}/src/inner")
            ]
        );
    }
}

#[test]
fn a_file_outside_the_package_is_an_error() {
    let files = finish(list_packaged_files("/pkg"), |_| {
        Reply::Entries(Ok(vec![entry("/pkg/a", false), entry("/other/b", false)]))
    });
    assert_eq!(files, Err(ListError::OutsidePackage));
}

#[test]
fn a_directory_that_cannot_be_read_is_an_error() {
    let files = finish(list_packaged_files("/pkg"), |request| {
        assert_eq!(request, Request::ReadDir("/pkg".to_string()));
        Reply::Entries(Err("denied".to_string()))
    });
    assert_eq!(files, Err(ListError::CannotReadDir("denied".to_string())));
}

#[test]
fn a_reply_to_another_request_ends_the_listing() {
    let list = list_packaged_files("/pkg").reply(Reply::Flag(true));
    assert_eq!(list.request(), None);
    assert_eq!(list.result(), Some(Err(ListError::UnexpectedReply)));
    assert_eq!(list_packaged_files("/pkg").result(), None);
}
