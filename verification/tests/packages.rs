use release_plz_core::package::{
    find_package, is_example_package, publishable_packages_from_manifest, workspace_packages,
    Metadata, Package, Publishable, Target, TargetKind,
};
use release_plz_core::registry::{PackageMap, PackagesCollection, RegistryPackage};
use release_plz_core::text::{is_blank, lines};
use release_plz_core::update_request::{
    ChangelogRequest, PackageConfig, ReleaseMetadata, ReleaseMetadataBuilder, UpdateRequest,
};
use release_plz_core::version::Version;

fn package(name: &str, publish: Option<Vec<&str>>, kinds: Vec<Vec<TargetKind>>) -> Package {
    Package {
        id: format!("id {name}"),
        name: name.to_string(),
        version: Version::new(0, 1, 0),
        publish: publish.map(|p| p.into_iter().map(str::to_string).collect()),
        targets: kinds.into_iter().map(|kind| Target { kind }).collect(),
        readme: None,
        manifest_path: format!("/work/{name}/Cargo.toml"),
    }
}

fn names(list: &[Package]) -> Vec<&str> {
    list.iter().map(|p| p.name.as_str()).collect()
}

#[test]
fn a_package_can_be_published_unless_the_manifest_forbids_it() {
    let lib = || vec![vec![TargetKind::Lib]];
    assert!(package("a", None, lib()).is_publishable());
    assert!(package("a", Some(vec!["my-reg"]), lib()).is_publishable());
    assert!(!package("a", Some(vec![]), lib()).is_publishable());
}

#[test]
fn an_example_is_published_only_where_the_manifest_says_so() {
    let example = || vec![vec![TargetKind::Example], vec![TargetKind::Example]];
    assert!(is_example_package(&package("a", None, example())));
    assert!(!package("a", None, example()).is_publishable());
    assert!(package("a", Some(vec!["my-reg"]), example()).is_publishable());
    let mixed = vec![vec![TargetKind::Example], vec![TargetKind::Bin]];
    assert!(!is_example_package(&package("a", None, mixed)));
    let both = vec![vec![TargetKind::Example, TargetKind::Lib]];
    assert!(!is_example_package(&package("a", None, both)));
    // All of no targets are examples.
    assert!(is_example_package(&package("a", None, vec![])));
}

#[test]
fn members_of_a_workspace_keep_their_order() {
    let lib = || vec![vec![TargetKind::Lib]];
    let metadata = Metadata {
        packages: vec![
            package("dep", None, lib()),
            package("b", Some(vec![]), lib()),
            package("a", None, lib()),
            package("c", None, vec![vec![TargetKind::Example]]),
        ],
        workspace_members: vec!["id a".to_string(), "id b".to_string(), "id c".to_string()],
        target_directory: "/work/target".to_string(),
    };
    assert_eq!(names(&workspace_packages(&metadata)), ["b", "a", "c"]);
    assert_eq!(names(&publishable_packages_from_manifest(&metadata)), ["a"]);
    assert_eq!(find_package(&metadata.packages, "a").unwrap().id, "id a");
    assert_eq!(find_package(&metadata.packages, "z"), None);
}

#[test]
fn versions_are_written_as_semantic_versions() {
    assert_eq!(Version::new(1, 20, 300).to_string(), "1.20.300");
    assert_eq!(Version::new(0, 0, u64::MAX).to_string(), "0.0.18446744073709551615");
    let mut version = Version::new(1, 0, 0);
    version.pre = "rc.1".to_string();
    assert_eq!(version.to_string(), "1.0.0-rc.1");
    version.build = "7f3".to_string();
    assert_eq!(version.to_string(), "1.0.0-rc.1+7f3");
    assert_ne!(version, Version::new(1, 0, 0));
    assert_eq!(version.clone(), version);
}

#[test]
fn released_packages_are_kept_by_name() {
    let release = |name: &str, sha1: Option<&str>| {
        RegistryPackage::new(package(name, None, vec![]), sha1.map(str::to_string))
    };
    let mut map = PackageMap::new();
    assert_eq!(map.get("a"), None);
    map.insert("b".to_string(), release("b", None));
    map.insert("a".to_string(), release("a", Some("1234567")));
    map.insert("c".to_string(), release("c", None));
    assert_eq!(map.names(), &["a", "b", "c"]);
    assert_eq!(map.get("a").unwrap().published_at_sha1(), Some("1234567"));
    assert_eq!(map.get("b").unwrap().published_at_sha1(), None);
    assert_eq!(map.get("b").unwrap().package().name, "b");
    assert_eq!(map.get("b").unwrap().package.name, "b");
    map.insert("a".to_string(), release("a", Some("7654321")));
    assert_eq!(map.names(), &["a", "b", "c"]);
    assert_eq!(map.get("a").unwrap().published_at_sha1(), Some("7654321"));

    let mut other = PackageMap::new();
    other.insert("b".to_string(), release("b", Some("abc")));
    other.insert("d".to_string(), release("d", None));
    map.extend(other);
    assert_eq!(map.names(), &["a", "b", "c", "d"]);
    // The other map takes precedence.
    assert_eq!(map.get("b").unwrap().published_at_sha1(), Some("abc"));

    let collection = PackagesCollection::default();
    assert_eq!(collection.get_registry_package("a"), None);
    let collection = collection.with_packages(map.clone());
    assert_eq!(collection.get_registry_package("a"), map.get("a"));
    assert_eq!(collection.clone(), collection);
}

#[test]
fn a_package_that_is_not_released_has_no_release_metadata() {
    let config = |release: bool, template: Option<&str>, git_only: bool| PackageConfig {
        release,
        tag_name_template: template.map(str::to_string),
        git_only,
    };
    let request = UpdateRequest {
        default_config: config(true, Some("v{{ version }}"), false),
        package_configs: vec![
            ("quiet".to_string(), config(false, Some("x"), false)),
            ("tagged".to_string(), config(true, None, true)),
            ("tagged".to_string(), config(false, None, false)),
        ],
        allow_dirty: false,
    };
    assert_eq!(request.get_release_metadata("quiet"), None);
    assert_eq!(
        request.get_release_metadata("any"),
        Some(ReleaseMetadata {
            tag_name_template: Some("v{{ version }}".to_string()),
            release_name_template: None,
        })
    );
    assert_eq!(
        request.get_release_metadata("tagged"),
        Some(ReleaseMetadata { tag_name_template: None, release_name_template: None })
    );
    assert_eq!(request.get_package_tag_name("tagged"), None);
    assert_eq!(request.get_package_tag_name("quiet").as_deref(), Some("x"));
    assert!(request.should_use_git_only("tagged"));
    assert!(!request.should_use_git_only("any"));
    assert!(!request.get_package_config("quiet").release);
    let metadata = request.get_release_metadata("any").unwrap();
    assert_eq!(metadata.clone(), metadata);
}

#[test]
fn blank_texts_hold_nothing_but_white_space() {
    assert!(is_blank(""));
    assert!(is_blank(" \t\r\n\u{a0}\u{2003}\u{3000}"));
    assert!(!is_blank(" x "));
    assert!(!is_blank("\u{200b}"));
}

#[test]
fn lines_end_with_a_line_feed() {
    assert_eq!(lines("a\nb\r\n\n"), ["a", "b", ""]);
    assert_eq!(lines("a"), ["a"]);
    assert!(lines("").is_empty());
}

#[test]
fn by_default_neither_date_nor_configuration_of_changelogs_is_set() {
    let request = ChangelogRequest::default();
    assert!(request.release_date.is_none());
    assert!(request.changelog_config.is_none());
    let dated = ChangelogRequest {
        release_date: chrono::NaiveDate::from_ymd_opt(2024, 2, 29),
        changelog_config: None,
    };
    assert_eq!(dated.clone().release_date, dated.release_date);
}
