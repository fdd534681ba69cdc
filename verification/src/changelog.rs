//! Changelogs.

use vstd::prelude::*;

use crate::text::{has_text, is_text};

verus! {

/// The outside error of a changelog that cannot be parsed.
#[verifier::external_type_specification]
#[verifier::external_body]
pub struct ExParseError(parse_changelog::Error);

/// A section of a changelog.
#[derive(Debug, PartialEq, Eq)]
pub struct Section {
    pub version: String,
    pub title: String,
    pub notes: String,
}

/// What a section of a changelog stands for.
pub ghost struct SectionView {
    pub version: Seq<char>,
    pub title: Seq<char>,
    pub notes: Seq<char>,
}

/// A release as a changelog describes it.
#[derive(Debug, PartialEq, Eq)]
pub struct ChangelogRelease {
    version: String,
    title: String,
    notes: String,
}

/// What a release that a changelog describes stands for.
pub ghost struct ChangelogReleaseView {
    pub version: Seq<char>,
    pub title: Seq<char>,
    pub notes: Seq<char>,
}

/// The changelog cannot be parsed.
#[derive(Debug, PartialEq, Eq)]
pub struct ChangelogError;

impl View for Section {
    type V = SectionView;

    open spec fn view(&self) -> SectionView {
        SectionView { version: self.version@, title: self.title@, notes: self.notes@ }
    }
}

impl View for ChangelogRelease {
    type V = ChangelogReleaseView;

    closed spec fn view(&self) -> ChangelogReleaseView {
        ChangelogReleaseView { version: self.version@, title: self.title@, notes: self.notes@ }
    }
}

/// What a list of sections stands for.
pub open spec fn sections(v: Seq<Section>) -> Seq<SectionView> {
    v.map_values(|s: Section| s@)
}

/// The sections of a changelog as `parse_changelog::parse` finds them, in the order in which they
/// are written; none where it fails.
pub uninterp spec fn changelog_sections(text: Seq<char>) -> Option<Seq<SectionView>>;

/// The title of each section holds its version.
pub open spec fn titles_hold_versions(list: Seq<SectionView>) -> bool {
    forall|i: int|
        0 <= i < list.len() ==> has_text((#[trigger] list[i]).title, list[i].version)
}

/// The section of the last release: the first one, or the one behind it where the first one holds
/// what is not released yet.
///
/// A changelog that is kept by the conventions of keepachangelog.com, which `parse_changelog`
/// reads, begins with a section `Unreleased` for changes that are still to be released.
pub open spec fn last_section(list: Seq<SectionView>) -> Option<SectionView> {
    if list.len() > 0 && list[0].version != "Unreleased"@ {
        Some(list[0])
    } else if list.len() > 1 {
        Some(list[1])
    } else {
        None
    }
}

/// The release that a section describes.
pub open spec fn described(section: SectionView) -> ChangelogReleaseView {
    ChangelogReleaseView { version: section.version, title: section.title, notes: section.notes }
}

/// What is known of the last release of a changelog: nothing where the changelog cannot be parsed.
pub open spec fn last_release_of(text: Seq<char>) -> Option<Option<ChangelogReleaseView>> {
    match changelog_sections(text) {
        Some(list) => Some(
            match last_section(list) {
                Some(section) => Some(described(section)),
                None => None,
            },
        ),
        None => None,
    }
}

/// `parse_changelog::parse` finds the sections of a changelog, or fails. The version of a section is
/// a part of its title. Which text makes a section is not said here: `changelog_sections` is the
/// name of the result.
#[verifier::external_body]
fn parse_sections(text: &str) -> (r: Result<Vec<Section>, parse_changelog::Error>)
    ensures
        r is Ok <==> changelog_sections(text@) is Some,
        r is Ok ==> sections(r->Ok_0@) == changelog_sections(text@)->0,
        r is Ok ==> titles_hold_versions(sections(r->Ok_0@)),
{
    let mut out = Vec::new();
    for release in parse_changelog::parse(text)?.into_values() {
        out.push(Section {
            version: release.version.to_string(),
            title: release.title.to_string(),
            notes: release.notes.to_string(),
        });
    }
    Ok(out)
}

impl ChangelogRelease {
    pub fn new(version: String, title: String, notes: String) -> (r: Self)
        ensures
            r@ == (ChangelogReleaseView { version: version@, title: title@, notes: notes@ }),
    {
        ChangelogRelease { version, title, notes }
    }

    /// The version that was released.
    pub fn version(&self) -> (r: &str)
        ensures
            r@ == self@.version,
    {
        self.version.as_str()
    }

    /// The title of the release.
    pub fn title(&self) -> (r: &str)
        ensures
            r@ == self@.title,
    {
        self.title.as_str()
    }

    /// What changed in the release.
    pub fn notes(&self) -> (r: &str)
        ensures
            r@ == self@.notes,
    {
        self.notes.as_str()
    }
}

/// The last release among the sections of a changelog.
pub fn last_release(list: &Vec<Section>) -> (r: Option<ChangelogRelease>)
    ensures
        match r {
            Some(release) => last_section(sections(list@)) is Some && release@ == described(
                last_section(sections(list@))->0,
            ),
            None => last_section(sections(list@)) is None,
        },
{
    let at: usize = if list.len() > 0 && !is_text(list[0].version.as_str(), "Unreleased") {
        0
    } else {
        1
    };
    if at < list.len() {
        let section = &list[at];
        Some(
            ChangelogRelease::new(
                section.version.clone(),
                section.title.clone(),
                section.notes.clone(),
            ),
        )
    } else {
        None
    }
}

/// The last release that a changelog describes. Its title holds its version.
pub fn last_release_from_str(text: &str) -> (r: Result<Option<ChangelogRelease>, ChangelogError>)
    ensures
        match r {
            Ok(Some(release)) => last_release_of(text@) == Some(Some(release@)),
            Ok(None) => last_release_of(text@) == Some(None::<ChangelogReleaseView>),
            Err(_) => last_release_of(text@) is None,
        },
        r matches Ok(Some(release)) ==> has_text(release@.title, release@.version),
{
    match parse_sections(text) {
        Ok(list) => Ok(last_release(&list)),
        Err(_) => Err(ChangelogError),
    }
}

/// The last release is the first section, however many sections follow, unless that one holds what
/// is not released yet: then it is the section right behind it.
pub proof fn law_last_section(first: SectionView, second: SectionView, older: Seq<SectionView>)
    ensures
        last_section(Seq::empty()) is None,
        first.version != "Unreleased"@ ==> last_section(seq![first] + older) == Some(first),
        first.version == "Unreleased"@ ==> last_section(seq![first]) is None,
        first.version == "Unreleased"@ ==> last_section(seq![first, second] + older) == Some(second),
{
    assert((seq![first] + older)[0] == first);
    assert((seq![first, second] + older)[0] == first);
    assert((seq![first, second] + older)[1] == second);
}

/// Older sections that are appended to a changelog with a release leave its last release as it is.
pub proof fn law_older_sections(list: Seq<SectionView>, older: Seq<SectionView>)
    requires
        last_section(list) is Some,
    ensures
        last_section(list + older) == last_section(list),
{
    assert((list + older)[0] == list[0]);
    if list.len() > 1 {
        assert((list + older)[1] == list[1]);
    }
}

/// The last release that a changelog describes has version, title and notes of the section of the
/// last release. There is none where there is no such section, and nothing is known where the
/// changelog cannot be parsed.
pub proof fn law_last_release(text: Seq<char>, section: SectionView)
    ensures
        last_release_of(text) is None <==> changelog_sections(text) is None,
        changelog_sections(text) is Some && last_section(changelog_sections(text)->0) == Some(
            section,
        ) ==> (last_release_of(text)->0 matches Some(release) && release.version == section.version
            && release.title == section.title && release.notes == section.notes),
        changelog_sections(text) is Some && last_section(changelog_sections(text)->0) is None
            ==> last_release_of(text)->0 is None,
{
}

/// What a section stands for has each part of it.
pub proof fn law_section_view(section: Section, list: Seq<Section>)
    ensures
        section@.version == section.version@,
        section@.title == section.title@,
        section@.notes == section.notes@,
        sections(list).len() == list.len(),
        forall|i: int| 0 <= i < list.len() ==> #[trigger] sections(list)[i] == list[i]@,
{
}

} // verus!
