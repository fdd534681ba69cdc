use release_plz_core::changelog::{
    last_release, last_release_from_str, ChangelogError, ChangelogRelease, Section,
};
use release_plz_core::package::Package;
use release_plz_core::packages_update::{
    notes_from, previous_version, release_notes, OutcomeTexts, PackagesUpdate, SemverCheck,
    UpdateResult,
};
use release_plz_core::version::Version;

/// A package's changelog file as it stands after the previous release.
const EXISTING_CHANGELOG: &str = "\
# Changelog

## [0.5.2](https://example.com/compare/v0.5.1...v0.5.2) - 2026-08-30

### Fixed

- something that shipped last time
";

fn update(new_entry: Option<&str>) -> UpdateResult {
    UpdateResult {
        version: Version::new(0, 5, 3),
        changelog: Some(EXISTING_CHANGELOG.to_string()),
        semver_check: SemverCheck::Skipped,
        new_changelog_entry: new_entry.map(str::to_string),
        registry_version: None,
    }
}

fn package(name: &str, version: Version) -> Package {
    Package {
        id: format!("path+file:///work#{name}"),
        name: name.to_string(),
        version,
        publish: None,
        targets: vec![],
        readme: None,
        manifest_path: format!("/work/{name}/Cargo.toml"),
    }
}

fn outcomes() -> OutcomeTexts {
    OutcomeTexts {
        compatible: " (fine)".to_string(),
        incompatible: " (breaking)".to_string(),
        skipped: "".to_string(),
    }
}

/// A package bumped only because a dependency moved has nothing to say in
/// the release notes. Reporting the top of its changelog would republish
/// the previous release's entries under the new version.
#[test]
fn a_package_without_a_new_entry_contributes_no_notes() {
    let (title, notes) = release_notes(&update(None), "coordinode-core");
    assert_eq!(title, None, "no title for a package with no changes");
    assert_eq!(notes, None, "no notes for a package with no changes");
}

/// A package bumped only by a dependency gets an entry that exists but is
/// blank. It is the same "nothing happened here" as no entry at all.
#[test]
fn a_package_with_a_blank_entry_contributes_no_notes() {
    let (title, notes) = release_notes(&update(Some("\n  \n")), "coordinode-core");
    assert_eq!(title, None, "no title for a blank entry");
    assert_eq!(notes, None, "no notes for a blank entry");
}

/// A package updated because a dependency moved carries a real entry for
/// this release, but its changelog still starts at the previous version. The
/// notes must come from the entry, not from that section.
#[test]
fn a_stale_top_section_does_not_describe_this_release() {
    let (title, notes) = release_notes(
        &update(Some("### Fixed\n\n- the thing this release fixes\n")),
        "coordinode-server",
    );
    assert_eq!(
        title, None,
        "a section for an older version must not title this release",
    );
    let notes = notes.expect("the entry computed for this release describes it");
    assert!(
        notes.contains("the thing this release fixes"),
        "notes must come from this release's entry, got: {notes}",
    );
    assert!(
        !notes.contains("shipped last time"),
        "the previous release's notes must not appear, got: {notes}",
    );
}

/// A package that did change is described by its changelog.
#[test]
fn a_package_with_a_new_entry_is_described() {
    let mut u = update(Some("### Fixed\n\n- the thing this release fixes\n"));
    // Its changelog was regenerated, so the top section is this release.
    u.changelog = Some(
        "# Changelog\n\n## [0.5.3](https://example.com/compare/v0.5.2...v0.5.3) - 2026-08-30\n\n### Fixed\n\n- the thing this release fixes\n"
            .to_string(),
    );
    let (title, notes) = release_notes(&u, "coordinode-server");
    assert!(
        title.is_some_and(|t| t.contains("0.5.3")),
        "a changed package is titled with the version being released",
    );
    assert!(
        notes.is_some_and(|n| n.contains("the thing this release fixes")),
        "a changed package keeps its notes",
    );
}

#[test]
fn the_changelog_gives_title_and_notes_of_its_last_release() {
    let last = last_release_from_str(EXISTING_CHANGELOG).unwrap().unwrap();
    assert_eq!(last.version(), "0.5.2");
    assert_eq!(
        last.title(),
        "[0.5.2](https://example.com/compare/v0.5.1...v0.5.2) - 2026-08-30"
    );
    assert_eq!(last.notes(), "### Fixed\n\n- something that shipped last time");
}

#[test]
fn an_unreleased_section_is_no_release() {
    let text = "# Changelog\n\n## [Unreleased]\n\n- not yet\n\n## [0.2.0] - 2024-01-02\n\n- done\n";
    let last = last_release_from_str(text).unwrap().unwrap();
    assert_eq!(last.title(), "[0.2.0] - 2024-01-02");
    assert_eq!(last.notes(), "- done");
}

#[test]
fn a_text_without_sections_is_no_changelog() {
    assert_eq!(last_release_from_str("no headings here"), Err(ChangelogError));
}

#[test]
fn last_release_skips_one_section_only() {
    let section = |version: &str| Section {
        version: version.to_string(),
        title: format!("title {version}"),
        notes: format!("notes {version}"),
    };
    assert_eq!(last_release(&vec![]), None);
    assert_eq!(last_release(&vec![section("Unreleased")]), None);
    let two = last_release(&vec![section("Unreleased"), section("1.0.0")]).unwrap();
    assert_eq!((two.title(), two.notes()), ("title 1.0.0", "notes 1.0.0"));
    assert_eq!(two.version(), "1.0.0");
    let one = last_release(&vec![section("2.0.0"), section("1.0.0")]).unwrap();
    assert_eq!(one.title(), "title 2.0.0");
}

#[test]
fn without_a_changelog_the_entry_describes_the_release() {
    let mut u = update(Some("- new\n"));
    u.changelog = None;
    assert_eq!(u.last_changes(), Ok(None));
    assert_eq!(release_notes(&u, "demo"), (None, Some("- new\n".to_string())));
}

#[test]
fn a_changelog_that_cannot_be_parsed_is_passed_over() {
    let mut u = update(Some("- new\n"));
    u.changelog = Some("nothing of a changelog".to_string());
    assert_eq!(u.last_changes(), Err(ChangelogError));
    assert_eq!(release_notes(&u, "demo"), (None, Some("- new\n".to_string())));
}

#[test]
fn notes_come_from_the_changelog_only_for_the_new_version() {
    let release = |version: &str| {
        Ok(Some(ChangelogRelease::new(
            version.to_string(),
            format!("[{version}]"),
            "from the changelog".to_string(),
        )))
    };
    let entry = || (None, Some("- entry".to_string()));
    let u = update(Some("- entry"));
    assert_eq!(
        notes_from(&u, release("0.5.3")),
        (Some("[0.5.3]".to_string()), Some("from the changelog".to_string()))
    );
    for other in ["0.5.2", "10.5.3", "0.5.31", "0.5.3-rc.1", "0.5.3+7f3", "0.5.3.", ""] {
        assert_eq!(notes_from(&u, release(other)), entry(), "{other}");
    }
    assert_eq!(notes_from(&u, Ok(None)), entry());
    assert_eq!(notes_from(&u, Err(ChangelogError)), entry());
    assert_eq!(notes_from(&update(None), release("0.5.3")), (None, None));
    assert_eq!(notes_from(&update(Some(" \u{3000}\t")), release("0.5.3")), (None, None));
}

/// The changelog still begins with a pre-release of the version that is released.
#[test]
fn a_pre_release_does_not_describe_the_release() {
    let changelog = "# Changelog\n\n## [1.0.0-rc.1] - 2026-08-30\n\n### Fixed\n\n- shipped in rc\n";
    let mut u = update(Some("### Fixed\n\n- final fix\n"));
    u.version = Version::new(1, 0, 0);
    u.changelog = Some(changelog.to_string());
    assert_eq!(
        release_notes(&u, "demo"),
        (None, Some("### Fixed\n\n- final fix\n".to_string()))
    );
    u.version.pre = "rc.1".to_string();
    assert_eq!(
        release_notes(&u, "demo"),
        (
            Some("[1.0.0-rc.1] - 2026-08-30".to_string()),
            Some("### Fixed\n\n- shipped in rc".to_string())
        )
    );
}

#[test]
fn a_longer_version_does_not_describe_the_release() {
    for other in ["10.5.3", "0.5.31"] {
        let mut u = update(Some("- entry"));
        u.changelog = Some(format!("# Changelog\n\n## [v{other}] - 2026-08-30\n\n- other\n"));
        assert_eq!(release_notes(&u, "demo"), (None, Some("- entry".to_string())));
    }
    let mut u = update(Some("- entry"));
    u.changelog = Some("# Changelog\n\n## [v0.5.3] - 2026-08-30\n\n- this\n".to_string());
    assert_eq!(
        release_notes(&u, "demo"),
        (Some("[v0.5.3] - 2026-08-30".to_string()), Some("- this".to_string()))
    );
}

#[test]
fn summary_tells_the_transitions_and_the_breaking_changes() {
    let mut bumped = update(None);
    bumped.semver_check = SemverCheck::Compatible;
    let mut breaking = update(None);
    breaking.semver_check = SemverCheck::Incompatible("fn gone".to_string());
    let same = update(None);
    let mut ahead = update(None);
    ahead.registry_version = Some(Version::new(0, 1, 0));
    let updates = PackagesUpdate::new(vec![
        (package("a", Version::new(0, 5, 2)), bumped),
        (package("b", Version::new(0, 5, 2)), breaking),
        (package("c", Version::new(0, 5, 3)), same),
        (package("d", Version::new(0, 5, 3)), ahead),
    ]);
    assert_eq!(
        updates.summary(&outcomes()),
        "\n* `a`: 0.5.2 -> 0.5.3 (fine)\
         \n* `b`: 0.5.2 -> 0.5.3 (breaking)\
         \n* `c`: 0.5.3\
         \n* `d`: 0.1.0 -> 0.5.3\
         \n\
         \n### ⚠️ `b` breaking changes\n\n```fn gone```\n"
    );
}

#[test]
fn there_are_no_breaking_changes_without_an_incompatible_update() {
    let mut fine = update(None);
    fine.semver_check = SemverCheck::Compatible;
    let updates = PackagesUpdate::new(vec![
        (package("a", Version::new(0, 5, 2)), fine),
        (package("b", Version::new(0, 5, 2)), update(None)),
    ]);
    assert_eq!(updates.breaking_changes(), "");
    assert_eq!(PackagesUpdate::default().summary(&outcomes()), "\n");
}

#[test]
fn breaking_changes_stand_one_after_the_other() {
    let breaking = |text: &str| {
        let mut u = update(None);
        u.semver_check = SemverCheck::Incompatible(text.to_string());
        u
    };
    let a = (package("a", Version::new(1, 0, 0)), breaking("x"));
    let b = (package("b", Version::new(1, 0, 0)), breaking("y"));
    let first = PackagesUpdate::new(vec![(a.0.clone(), a.1.clone())]).breaking_changes();
    let second = PackagesUpdate::new(vec![(b.0.clone(), b.1.clone())]).breaking_changes();
    assert_eq!(first, "\n### ⚠️ `a` breaking changes\n\n```x```\n");
    assert_eq!(PackagesUpdate::new(vec![a, b]).breaking_changes(), format!("{first}{second}"));
}

#[test]
fn releases_tell_what_each_update_does() {
    let mut breaking = update(Some("- entry"));
    breaking.semver_check = SemverCheck::Incompatible("fn gone".to_string());
    breaking.registry_version = Some(Version::new(0, 4, 9));
    let mut fine = update(None);
    fine.semver_check = SemverCheck::Compatible;
    let updates = PackagesUpdate::new(vec![
        (package("a", Version::new(0, 5, 2)), breaking),
        (package("b", Version::new(0, 5, 2)), fine),
        (package("c", Version::new(0, 5, 2)), update(None)),
    ]);
    let releases = updates.releases();
    assert_eq!(releases.len(), 3);
    assert_eq!(releases[0].package, "a");
    assert_eq!(releases[0].title, None);
    assert_eq!(releases[0].changelog.as_deref(), Some("- entry"));
    assert_eq!(releases[0].previous_version, "0.4.9");
    assert_eq!(releases[0].next_version, "0.5.3");
    assert_eq!(releases[0].breaking_changes.as_deref(), Some("fn gone"));
    assert_eq!(releases[0].semver_check, "incompatible");
    assert_eq!(releases[1].semver_check, "compatible");
    assert_eq!(releases[1].breaking_changes, None);
    assert_eq!(releases[1].previous_version, "0.5.2");
    assert_eq!(releases[2].semver_check, "skipped");
    assert_eq!(releases[2].changelog, None);
}

#[test]
fn updates_can_be_read_copied_and_changed() {
    let mut updates = PackagesUpdate::new(vec![(package("a", Version::new(0, 5, 2)), update(None))]);
    assert_eq!(updates.workspace_version(), None);
    updates.with_workspace_version(Version::new(1, 0, 0));
    assert_eq!(updates.workspace_version(), Some(&Version::new(1, 0, 0)));
    assert_eq!(updates.updates().len(), 1);
    let copy = updates.updates_clone();
    assert_eq!(copy.as_slice(), updates.updates());
    updates.updates_mut().push((package("b", Version::new(0, 1, 0)), update(None)));
    assert_eq!(updates.updates().len(), 2);
    assert_eq!(updates.updates()[1].0.name, "b");
    assert_eq!(updates.workspace_version(), Some(&Version::new(1, 0, 0)));
    assert_eq!(updates.clone(), updates);
}

#[test]
fn the_version_in_the_registry_comes_first() {
    let local = package("a", Version::new(0, 5, 3));
    let mut u = update(None);
    assert_eq!(previous_version(&local, &u).to_string(), "0.5.3");
    u.registry_version = Some(Version::new(0, 1, 0));
    assert_eq!(previous_version(&local, &u).to_string(), "0.1.0");
}

#[test]
fn lines_of_updates_stand_one_after_the_other() {
    let a = (package("a", Version::new(0, 5, 2)), update(None));
    let b = (package("b", Version::new(0, 4, 0)), update(None));
    let one = |u: &(Package, UpdateResult)| {
        PackagesUpdate::new(vec![(u.0.clone(), u.1.clone())]).summary(&outcomes())
    };
    let first = one(&a);
    let second = one(&b);
    assert_eq!(first, "\n* `a`: 0.5.2 -> 0.5.3\n");
    let both = PackagesUpdate::new(vec![a, b]).summary(&outcomes());
    assert_eq!(both, format!("{}{second}", first.strip_suffix('\n').unwrap()));
}

#[test]
fn an_entry_counts_only_where_it_says_something() {
    assert!(update(Some("- new")).has_new_entry());
    assert!(!update(Some(" \n")).has_new_entry());
    assert!(!update(None).has_new_entry());
}

#[test]
fn the_title_of_a_release_holds_its_version() {
    for heading in ["[1.2.3] - 2024-01-02", "v1.2.3", "Version [1.2.3](https://x) 2024", "[Release 1.2.3]"] {
        let mut u = update(Some("- new"));
        u.version = Version::new(1, 2, 3);
        u.changelog = Some(format!("# Changelog\n\n## {heading}\n\n- told\n"));
        let last = u.last_changes().unwrap().unwrap();
        assert_eq!((last.version(), last.title()), ("1.2.3", heading));
        assert!(last.title().contains(last.version()));
        let updates = PackagesUpdate::new(vec![(package("a", Version::new(1, 2, 2)), u)]);
        let releases = updates.releases();
        assert_eq!(releases[0].title.as_deref(), Some(heading));
        assert!(releases[0].title.as_ref().unwrap().contains(&releases[0].next_version));
    }
}
