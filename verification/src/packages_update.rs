//! Updates of packages, and how they are described.

use vstd::prelude::*;
use vstd::string::*;

use crate::changelog::{
    last_release_from_str, last_release_of, ChangelogError, ChangelogRelease, ChangelogReleaseView,
};
use crate::package::{Package, PackageView};
use crate::text::{
    clone_opt, has_text, is_blank, is_blank_text, is_text, is_white_space, law_has_text, law_within,
    opt_text,
};
use crate::version::{version_text, Version, VersionView};

verus! {

/// The outcome of checking whether a new version keeps the promises of semantic versioning.
#[derive(Debug, PartialEq, Eq)]
pub enum SemverCheck {
    /// The check found nothing incompatible.
    Compatible,
    /// The check found the described incompatibilities.
    Incompatible(String),
    /// There was no check.
    Skipped,
}

/// What the outcome of a check stands for.
pub ghost enum SemverCheckView {
    Compatible,
    Incompatible(Seq<char>),
    Skipped,
}

/// What a summary says behind the versions, for each outcome of a semver check.
#[derive(Debug, PartialEq, Eq)]
pub struct OutcomeTexts {
    pub compatible: String,
    pub incompatible: String,
    pub skipped: String,
}

/// The update of a package.
#[derive(Debug, PartialEq)]
pub struct UpdateResult {
    /// Next version of the package.
    pub version: Version,
    /// New changelog.
    pub changelog: Option<String>,
    pub semver_check: SemverCheck,
    pub new_changelog_entry: Option<String>,
    /// The last version in the registry.
    /// It is set when the local version is already higher than that one, so that the update can be
    /// told as a transition from the version in the registry.
    pub registry_version: Option<Version>,
}

/// What the update of a package stands for.
pub ghost struct UpdateResultView {
    pub version: VersionView,
    pub changelog: Option<Seq<char>>,
    pub semver_check: SemverCheckView,
    pub new_changelog_entry: Option<Seq<char>>,
    pub registry_version: Option<VersionView>,
}

/// A release of a package.
#[derive(Debug, PartialEq, Eq)]
pub struct ReleaseInfo {
    pub package: String,
    pub title: Option<String>,
    pub changelog: Option<String>,
    pub previous_version: String,
    pub next_version: String,
    pub breaking_changes: Option<String>,
    pub semver_check: String,
}

/// What a release of a package stands for.
pub ghost struct ReleaseInfoView {
    pub package: Seq<char>,
    pub title: Option<Seq<char>>,
    pub changelog: Option<Seq<char>>,
    pub previous_version: Seq<char>,
    pub next_version: Seq<char>,
    pub breaking_changes: Option<Seq<char>>,
    pub semver_check: Seq<char>,
}

pub type PackagesToUpdate = Vec<(Package, UpdateResult)>;

/// The updates of the packages of a workspace.
#[derive(Debug, PartialEq)]
pub struct PackagesUpdate {
    updates: PackagesToUpdate,
    /// New version of the workspace. If `None`, the version of the workspace is not updated.
    workspace_version: Option<Version>,
}

/// What the updates of the packages of a workspace stand for.
pub ghost struct PackagesUpdateView {
    pub updates: Seq<(PackageView, UpdateResultView)>,
    pub workspace_version: Option<VersionView>,
}

/// What an optional version stands for.
pub open spec fn opt_version(v: Option<Version>) -> Option<VersionView> {
    match v {
        Some(v) => Some(v@),
        None => None,
    }
}

impl View for SemverCheck {
    type V = SemverCheckView;

    open spec fn view(&self) -> SemverCheckView {
        match *self {
            SemverCheck::Compatible => SemverCheckView::Compatible,
            SemverCheck::Incompatible(s) => SemverCheckView::Incompatible(s@),
            SemverCheck::Skipped => SemverCheckView::Skipped,
        }
    }
}

impl View for UpdateResult {
    type V = UpdateResultView;

    open spec fn view(&self) -> UpdateResultView {
        UpdateResultView {
            version: self.version@,
            changelog: opt_text(self.changelog),
            semver_check: self.semver_check@,
            new_changelog_entry: opt_text(self.new_changelog_entry),
            registry_version: opt_version(self.registry_version),
        }
    }
}

impl View for ReleaseInfo {
    type V = ReleaseInfoView;

    open spec fn view(&self) -> ReleaseInfoView {
        ReleaseInfoView {
            package: self.package@,
            title: opt_text(self.title),
            changelog: opt_text(self.changelog),
            previous_version: self.previous_version@,
            next_version: self.next_version@,
            breaking_changes: opt_text(self.breaking_changes),
            semver_check: self.semver_check@,
        }
    }
}

/// What a list of updates stands for.
pub open spec fn updates_view(v: Seq<(Package, UpdateResult)>) -> Seq<
    (PackageView, UpdateResultView),
> {
    v.map_values(|u: (Package, UpdateResult)| (u.0@, u.1@))
}

/// What a list of releases stands for.
pub open spec fn releases_view(v: Seq<ReleaseInfo>) -> Seq<ReleaseInfoView> {
    v.map_values(|r: ReleaseInfo| r@)
}

impl View for PackagesUpdate {
    type V = PackagesUpdateView;

    closed spec fn view(&self) -> PackagesUpdateView {
        PackagesUpdateView {
            updates: updates_view(self.updates@),
            workspace_version: opt_version(self.workspace_version),
        }
    }
}

/// What is known of the last release in the changelog of an update: nothing where the changelog
/// cannot be parsed.
pub open spec fn last_changes_of(u: UpdateResultView) -> Option<Option<ChangelogReleaseView>> {
    match u.changelog {
        Some(text) => last_release_of(text),
        None => Some(None),
    }
}

/// What reading the last release of a changelog gave.
pub open spec fn found(
    last: Result<Option<ChangelogRelease>, ChangelogError>,
) -> Option<Option<ChangelogReleaseView>> {
    match last {
        Ok(Some(release)) => Some(Some(release@)),
        Ok(None) => Some(None),
        Err(_) => None,
    }
}

/// The update has an entry for the new release that says something.
pub open spec fn has_new_entry(u: UpdateResultView) -> bool {
    u.new_changelog_entry is Some && !is_blank_text(u.new_changelog_entry->0)
}

/// The title and the notes of an update, where `last` is what its changelog says of the last
/// release. The changelog speaks of the new release only where its last release has the very
/// version of the update.
pub open spec fn notes_of(
    u: UpdateResultView,
    last: Option<Option<ChangelogReleaseView>>,
) -> (Option<Seq<char>>, Option<Seq<char>>) {
    if !has_new_entry(u) {
        (None, None)
    } else if last is Some && last->0 is Some && last->0->0.version == version_text(u.version) {
        (Some(last->0->0.title), Some(last->0->0.notes))
    } else {
        (None, u.new_changelog_entry)
    }
}

/// The version that the update starts from.
pub open spec fn previous_version_of(p: PackageView, u: UpdateResultView) -> VersionView {
    match u.registry_version {
        Some(v) => v,
        None => p.version,
    }
}

/// What a summary says of the outcome of a check.
pub open spec fn outcome_text(check: SemverCheckView, outcomes: OutcomeTexts) -> Seq<char> {
    match check {
        SemverCheckView::Compatible => outcomes.compatible@,
        SemverCheckView::Incompatible(_) => outcomes.incompatible@,
        SemverCheckView::Skipped => outcomes.skipped@,
    }
}

/// What a summary says of an update.
pub open spec fn update_line(
    p: PackageView,
    u: UpdateResultView,
    outcomes: OutcomeTexts,
) -> Seq<char> {
    let previous = previous_version_of(p, u);
    if previous == u.version {
        "\n* `"@ + p.name + "`: "@ + version_text(u.version)
    } else {
        "\n* `"@ + p.name + "`: "@ + version_text(previous) + " -> "@ + version_text(u.version)
            + outcome_text(u.semver_check, outcomes)
    }
}

/// What a summary says of the updates, one after the other.
pub open spec fn update_lines(
    updates: Seq<(PackageView, UpdateResultView)>,
    outcomes: OutcomeTexts,
) -> Seq<char>
    decreases updates.len(),
{
    if updates.len() == 0 {
        Seq::empty()
    } else {
        update_lines(updates.drop_last(), outcomes) + update_line(
            updates.last().0,
            updates.last().1,
            outcomes,
        )
    }
}

/// What is said of the breaking changes of an update.
pub open spec fn breaking_text(p: PackageView, u: UpdateResultView) -> Seq<char> {
    match u.semver_check {
        SemverCheckView::Incompatible(incompatibilities) => "\n### ⚠️ `"@ + p.name
            + "` breaking changes\n\n```"@ + incompatibilities + "```\n"@,
        _ => Seq::empty(),
    }
}

/// What is said of the breaking changes of the updates, one after the other.
pub open spec fn breaking_texts(updates: Seq<(PackageView, UpdateResultView)>) -> Seq<char>
    decreases updates.len(),
{
    if updates.len() == 0 {
        Seq::empty()
    } else {
        breaking_texts(updates.drop_last()) + breaking_text(updates.last().0, updates.last().1)
    }
}

/// The release that an update of a package makes.
pub open spec fn release_of(p: PackageView, u: UpdateResultView) -> ReleaseInfoView {
    let notes = notes_of(u, last_changes_of(u));
    ReleaseInfoView {
        package: p.name,
        title: notes.0,
        changelog: notes.1,
        previous_version: version_text(previous_version_of(p, u)),
        next_version: version_text(u.version),
        breaking_changes: match u.semver_check {
            SemverCheckView::Incompatible(incompatibilities) => Some(incompatibilities),
            _ => None,
        },
        semver_check: match u.semver_check {
            SemverCheckView::Compatible => "compatible"@,
            SemverCheckView::Incompatible(_) => "incompatible"@,
            SemverCheckView::Skipped => "skipped"@,
        },
    }
}

impl SemverCheck {
    /// What a summary says of the outcome.
    pub fn outcome_str<'a>(&self, outcomes: &'a OutcomeTexts) -> (r: &'a str)
        ensures
            r@ == outcome_text(self@, *outcomes),
    {
        match self {
            SemverCheck::Compatible => outcomes.compatible.as_str(),
            SemverCheck::Incompatible(_) => outcomes.incompatible.as_str(),
            SemverCheck::Skipped => outcomes.skipped.as_str(),
        }
    }
}

impl Clone for SemverCheck {
    fn clone(&self) -> (r: Self)
        ensures
            r@ == self@,
    {
        match self {
            SemverCheck::Compatible => SemverCheck::Compatible,
            SemverCheck::Incompatible(s) => SemverCheck::Incompatible(s.clone()),
            SemverCheck::Skipped => SemverCheck::Skipped,
        }
    }
}

impl Clone for UpdateResult {
    fn clone(&self) -> (r: Self)
        ensures
            r@ == self@,
    {
        UpdateResult {
            version: self.version.clone(),
            changelog: clone_opt(&self.changelog),
            semver_check: self.semver_check.clone(),
            new_changelog_entry: clone_opt(&self.new_changelog_entry),
            registry_version: match &self.registry_version {
                Some(v) => Some(v.clone()),
                None => None,
            },
        }
    }
}

impl UpdateResult {
    /// Whether there is an entry for the new release that says something.
    pub fn has_new_entry(&self) -> (r: bool)
        ensures
            r == has_new_entry(self@),
    {
        match &self.new_changelog_entry {
            Some(entry) => !is_blank(entry.as_str()),
            None => false,
        }
    }

    /// The last release that the changelog describes.
    pub fn last_changes(&self) -> (r: Result<Option<ChangelogRelease>, ChangelogError>)
        ensures
            found(r) == last_changes_of(self@),
            r matches Ok(Some(release)) ==> has_text(release@.title, release@.version),
    {
        match &self.changelog {
            Some(text) => last_release_from_str(text.as_str()),
            None => Ok(None),
        }
    }
}

/// The title and the notes that describe an update, where `last` is the last release that its
/// changelog describes.
///
/// Both are `None` when there is no entry for the new release, or a blank one: a package that is
/// updated because a dependency moved has nothing to say. The changelog is used only where its
/// last release is the new one, that is, where it has the same version. Otherwise it still begins
/// with an older release, and the entry describes the update.
pub fn notes_from(
    update: &UpdateResult,
    last: Result<Option<ChangelogRelease>, ChangelogError>,
) -> (r: (Option<String>, Option<String>))
    ensures
        (opt_text(r.0), opt_text(r.1)) == notes_of(update@, found(last)),
{
    if !update.has_new_entry() {
        return (None, None);
    }
    if let Ok(Some(release)) = last {
        if is_text(release.version(), update.version.to_string().as_str()) {
            return (Some(release.title().to_owned()), Some(release.notes().to_owned()));
        }
    }
    (None, clone_opt(&update.new_changelog_entry))
}

/// The title and the notes that describe the update of a package. A title holds the version of the
/// update.
pub fn release_notes(update: &UpdateResult, _package_name: &str) -> (r: (
    Option<String>,
    Option<String>,
))
    ensures
        (opt_text(r.0), opt_text(r.1)) == notes_of(update@, last_changes_of(update@)),
        r.0 matches Some(title) ==> has_text(title@, version_text(update@.version)),
{
    notes_from(update, update.last_changes())
}

impl Default for PackagesUpdate {
    /// No updates.
    fn default() -> (r: Self)
        ensures
            r@ == (PackagesUpdateView { updates: Seq::empty(), workspace_version: None }),
    {
        let r = PackagesUpdate { updates: Vec::new(), workspace_version: None };
        assert(r@.updates =~= Seq::empty());
        r
    }
}

impl Clone for PackagesUpdate {
    fn clone(&self) -> (r: Self)
        ensures
            r@ == self@,
    {
        PackagesUpdate {
            updates: self.updates_clone(),
            workspace_version: match &self.workspace_version {
                Some(v) => Some(v.clone()),
                None => None,
            },
        }
    }
}

impl PackagesUpdate {
    /// The given updates, with the version of the workspace not updated.
    pub fn new(updates: PackagesToUpdate) -> (r: Self)
        ensures
            r@ == (PackagesUpdateView {
                updates: updates_view(updates@),
                workspace_version: None,
            }),
    {
        PackagesUpdate { updates, workspace_version: None }
    }

    /// Sets the new version of the workspace.
    pub fn with_workspace_version(&mut self, workspace_version: Version)
        ensures
            final(self)@ == (PackagesUpdateView {
                workspace_version: Some(workspace_version@),
                ..old(self)@
            }),
    {
        self.workspace_version = Some(workspace_version);
    }

    /// The updates.
    pub fn updates(&self) -> (r: &[(Package, UpdateResult)])
        ensures
            updates_view(r@) == self@.updates,
    {
        self.updates.as_slice()
    }

    /// A copy of the updates.
    pub fn updates_clone(&self) -> (r: PackagesToUpdate)
        ensures
            updates_view(r@) == self@.updates,
    {
        let mut out: PackagesToUpdate = Vec::new();
        let mut i: usize = 0;
        assert(updates_view(out@) =~= self@.updates.take(0));
        while i < self.updates.len()
            invariant
                i <= self.updates@.len(),
                updates_view(out@) == self@.updates.take(i as int),
            decreases self.updates@.len() - i,
        {
            let ghost before = out@;
            let copy = (self.updates[i].0.clone(), self.updates[i].1.clone());
            out.push(copy);
            assert(updates_view(out@) =~= updates_view(before).push((copy.0@, copy.1@)));
            assert(self@.updates.take(i + 1) =~= self@.updates.take(i as int).push(
                self@.updates[i as int],
            ));
            i += 1;
        }
        assert(self@.updates.take(self.updates@.len() as int) =~= self@.updates);
        out
    }

    /// The updates, to be changed in place.
    pub fn updates_mut(&mut self) -> (r: &mut PackagesToUpdate)
        ensures
            updates_view(r@) == old(self)@.updates,
            final(self)@ == (PackagesUpdateView {
                updates: updates_view(final(r)@),
                ..old(self)@
            }),
    {
        &mut self.updates
    }

    /// The new version of the workspace.
    pub fn workspace_version(&self) -> (r: Option<&Version>)
        ensures
            match r {
                Some(v) => self@.workspace_version == Some(v@),
                None => self@.workspace_version is None,
            },
    {
        self.workspace_version.as_ref()
    }

    /// A summary of the updates, followed by their breaking changes.
    pub fn summary(&self, outcomes: &OutcomeTexts) -> (r: String)
        ensures
            r@ == update_lines(self@.updates, *outcomes) + "\n"@ + breaking_texts(self@.updates),
    {
        let mut out = self.updates_summary(outcomes);
        out.append("\n");
        out.append(self.breaking_changes().as_str());
        out
    }

    /// One line for each update.
    fn updates_summary(&self, outcomes: &OutcomeTexts) -> (r: String)
        ensures
            r@ == update_lines(self@.updates, *outcomes),
    {
        let mut out = String::new();
        let mut i: usize = 0;
        assert(self@.updates.take(0) =~= Seq::empty());
        while i < self.updates.len()
            invariant
                i <= self.updates@.len(),
                out@ == update_lines(self@.updates.take(i as int), *outcomes),
            decreases self.updates@.len() - i,
        {
            let ghost before = out@;
            let (package, update) = &self.updates[i];
            proof {
                let taken = self@.updates.take(i + 1);
                assert(taken.drop_last() =~= self@.updates.take(i as int));
                assert(taken.last() == (package@, update@));
            }
            let previous = previous_version(package, update);
            out.append("\n* `");
            out.append(package.name.as_str());
            out.append("`: ");
            if *previous != update.version {
                out.append(previous.to_string().as_str());
                out.append(" -> ");
                out.append(update.version.to_string().as_str());
                out.append(update.semver_check.outcome_str(outcomes));
            } else {
                out.append(update.version.to_string().as_str());
            }
            assert(out@ =~= before + update_line(package@, update@, *outcomes));
            i += 1;
        }
        assert(self@.updates.take(self.updates@.len() as int) =~= self@.updates);
        out
    }

    /// The breaking changes of the updates.
    pub fn breaking_changes(&self) -> (r: String)
        ensures
            r@ == breaking_texts(self@.updates),
    {
        let mut out = String::new();
        let mut i: usize = 0;
        assert(self@.updates.take(0) =~= Seq::empty());
        while i < self.updates.len()
            invariant
                i <= self.updates@.len(),
                out@ == breaking_texts(self@.updates.take(i as int)),
            decreases self.updates@.len() - i,
        {
            let ghost before = out@;
            let (package, update) = &self.updates[i];
            proof {
                let taken = self@.updates.take(i + 1);
                assert(taken.drop_last() =~= self@.updates.take(i as int));
                assert(taken.last() == (package@, update@));
            }
            if let SemverCheck::Incompatible(incompatibilities) = &update.semver_check {
                out.append("\n### ⚠️ `");
                out.append(package.name.as_str());
                out.append("` breaking changes\n\n```");
                out.append(incompatibilities.as_str());
                out.append("```\n");
            }
            assert(out@ =~= before + breaking_text(package@, update@));
            i += 1;
        }
        assert(self@.updates.take(self.updates@.len() as int) =~= self@.updates);
        out
    }

    /// The releases of the updated packages. The title of a release holds its version.
    pub fn releases(&self) -> (r: Vec<ReleaseInfo>)
        ensures
            releases_view(r@) == self@.updates.map_values(
                |u: (PackageView, UpdateResultView)| release_of(u.0, u.1),
            ),
            forall|i: int|
                0 <= i < r@.len() && (#[trigger] r@[i]).title is Some ==> has_text(
                    r@[i].title->0@,
                    r@[i].next_version@,
                ),
    {
        let mut out: Vec<ReleaseInfo> = Vec::new();
        let mut i: usize = 0;
        while i < self.updates.len()
            invariant
                i <= self.updates@.len(),
                out@.len() == i,
                forall|k: int|
                    0 <= k < i ==> (#[trigger] out@[k])@ == release_of(
                        self@.updates[k].0,
                        self@.updates[k].1,
                    ),
                forall|k: int|
                    0 <= k < i && (#[trigger] out@[k]).title is Some ==> has_text(
                        out@[k].title->0@,
                        out@[k].next_version@,
                    ),
            decreases self.updates@.len() - i,
        {
            let (package, update) = &self.updates[i];
            let (title, changelog) = release_notes(update, package.name.as_str());
            let (semver_check, breaking_changes) = match &update.semver_check {
                SemverCheck::Incompatible(incompatibilities) => (
                    "incompatible",
                    Some(incompatibilities.clone()),
                ),
                SemverCheck::Compatible => ("compatible", None),
                SemverCheck::Skipped => ("skipped", None),
            };
            out.push(
                ReleaseInfo {
                    package: package.name.clone(),
                    title,
                    changelog,
                    previous_version: previous_version(package, update).to_string(),
                    next_version: update.version.to_string(),
                    breaking_changes,
                    semver_check: semver_check.to_owned(),
                },
            );
            i += 1;
        }
        assert(releases_view(out@) =~= self@.updates.map_values(
            |u: (PackageView, UpdateResultView)| release_of(u.0, u.1),
        ));
        out
    }
}

/// The version that an update starts from: the one in the registry where the local version is
/// already higher, and the local one otherwise.
pub fn previous_version<'a>(package: &'a Package, update: &'a UpdateResult) -> (r: &'a Version)
    ensures
        r@ == previous_version_of(package@, update@),
{
    match &update.registry_version {
        Some(v) => v,
        None => &package.version,
    }
}

/// A package without an entry for the new release, or with a blank one, contributes neither a title
/// nor notes, whatever its changelog says.
pub proof fn law_no_entry_no_notes(u: UpdateResultView, last: Option<Option<ChangelogReleaseView>>)
    requires
        u.new_changelog_entry is None || is_blank_text(u.new_changelog_entry->0),
    ensures
        notes_of(u, last) == (None::<Seq<char>>, None::<Seq<char>>),
{
}

/// A release with an entry has notes. They are the entry, without a title, unless the last release
/// in the changelog has the version of the update: only then do title and notes come from the
/// changelog. A section of another version, be it a pre-release of the new one, is never used.
pub proof fn law_notes_are_of_this_release(
    u: UpdateResultView,
    last: Option<Option<ChangelogReleaseView>>,
)
    ensures
        notes_of(u, last).1 is Some <==> has_new_entry(u),
        notes_of(u, last).0 matches Some(title) ==> last == Some(
            Some(
                ChangelogReleaseView {
                    version: version_text(u.version),
                    title,
                    notes: notes_of(u, last).1->0,
                },
            ),
        ),
        notes_of(u, last).0 is None && has_new_entry(u) ==> notes_of(u, last).1
            == u.new_changelog_entry,
        has_new_entry(u) && last is Some && last->0 is Some && last->0->0.version != version_text(
            u.version,
        ) ==> notes_of(u, last) == (None::<Seq<char>>, u.new_changelog_entry),
{
}

/// The breaking changes of two groups of updates are those of the first one, followed by those of
/// the second one.
pub proof fn law_breaking_changes_add_up(
    a: Seq<(PackageView, UpdateResultView)>,
    b: Seq<(PackageView, UpdateResultView)>,
)
    ensures
        breaking_texts(a + b) == breaking_texts(a) + breaking_texts(b),
    decreases b.len(),
{
    if b.len() == 0 {
        assert(a + b =~= a);
        assert(breaking_texts(a) + breaking_texts(b) =~= breaking_texts(a));
    } else {
        law_breaking_changes_add_up(a, b.drop_last());
        assert((a + b).drop_last() =~= a + b.drop_last());
        assert((a + b).last() == b.last());
        let end = breaking_text(b.last().0, b.last().1);
        assert((breaking_texts(a) + breaking_texts(b.drop_last())) + end =~= breaking_texts(a) + (
        breaking_texts(b.drop_last()) + end));
    }
}

/// The lines of two groups of updates are those of the first one, followed by those of the second
/// one.
pub proof fn law_update_lines_add_up(
    a: Seq<(PackageView, UpdateResultView)>,
    b: Seq<(PackageView, UpdateResultView)>,
    outcomes: OutcomeTexts,
)
    ensures
        update_lines(a + b, outcomes) == update_lines(a, outcomes) + update_lines(b, outcomes),
    decreases b.len(),
{
    if b.len() == 0 {
        assert(a + b =~= a);
        assert(update_lines(a, outcomes) + update_lines(b, outcomes) =~= update_lines(a, outcomes));
    } else {
        law_update_lines_add_up(a, b.drop_last(), outcomes);
        assert((a + b).drop_last() =~= a + b.drop_last());
        assert((a + b).last() == b.last());
        let end = update_line(b.last().0, b.last().1, outcomes);
        assert((update_lines(a, outcomes) + update_lines(b.drop_last(), outcomes)) + end
            =~= update_lines(a, outcomes) + (update_lines(b.drop_last(), outcomes) + end));
    }
}

/// Something is said of breaking changes exactly where some update is incompatible.
pub proof fn law_breaking_changes_are_incompatible(updates: Seq<(PackageView, UpdateResultView)>)
    ensures
        breaking_texts(updates).len() == 0 <==> forall|i: int|
            0 <= i < updates.len() ==> !((#[trigger] updates[i]).1.semver_check is Incompatible),
    decreases updates.len(),
{
    if updates.len() > 0 {
        reveal_strlit("```\n");
        let rest = updates.drop_last();
        law_breaking_changes_are_incompatible(rest);
        let last = updates.len() - 1;
        assert(updates[last] == updates.last());
        if breaking_texts(updates).len() == 0 {
            assert forall|i: int| 0 <= i < updates.len() implies !((
            #[trigger] updates[i]).1.semver_check is Incompatible) by {
                if i < last {
                    assert(rest[i] == updates[i]);
                }
            }
        } else if forall|i: int|
            0 <= i < updates.len() ==> !((#[trigger] updates[i]).1.semver_check is Incompatible) {
            assert forall|i: int| 0 <= i < rest.len() implies !((
            #[trigger] rest[i]).1.semver_check is Incompatible) by {
                assert(rest[i] == updates[i]);
            }
        }
    }
}

/// A release tells its breaking changes exactly where its semver check is told to be incompatible.
pub proof fn law_release_breaks_when_incompatible(p: PackageView, u: UpdateResultView)
    ensures
        release_of(p, u).breaking_changes is Some <==> release_of(p, u).semver_check
            == "incompatible"@,
{
    reveal_strlit("incompatible");
    reveal_strlit("compatible");
    reveal_strlit("skipped");
    assert("incompatible"@.len() != "compatible"@.len());
    assert("incompatible"@.len() != "skipped"@.len());
}

/// The notes of an update with an entry that says something, be it a single character: they are
/// those of the last release in the changelog, together with its title, where that has the version
/// of the update, and the entry in any other case.
pub proof fn law_notes(
    u: UpdateResultView,
    entry: Seq<char>,
    i: int,
    last: Option<Option<ChangelogReleaseView>>,
)
    requires
        u.new_changelog_entry == Some(entry),
        0 <= i < entry.len(),
        !is_white_space(entry[i]),
    ensures
        last matches Some(Some(release)) ==> notes_of(u, last) == if release.version == version_text(
            u.version,
        ) {
            (Some(release.title), Some(release.notes))
        } else {
            (None, Some(entry))
        },
        last is None || last->0 is None ==> notes_of(u, last) == (None::<Seq<char>>, Some(entry)),
{
}

/// What is known of the last release of an update is what its changelog says, and nothing is
/// released where there is no changelog.
pub proof fn law_last_changes(u: UpdateResultView, text: Seq<char>)
    ensures
        u.changelog is None ==> last_changes_of(u) == Some(None::<ChangelogReleaseView>),
        u.changelog == Some(text) ==> last_changes_of(u) == last_release_of(text),
{
}

/// The version that an update starts from: the last one in the registry, where it is told, and
/// otherwise that of the package.
pub open spec fn starts_from(p: PackageView, u: UpdateResultView, previous: VersionView) -> bool {
    ||| u.registry_version == Some(previous)
    ||| u.registry_version is None && p.version == previous
}

/// Wherever the version that an update starts from differs from the next one, in whatever part,
/// its line tells both, with an arrow between them, and ends with the text for the outcome of its
/// semver check. Where they are the same, the line tells the version and nothing else.
pub proof fn law_update_line(
    p: PackageView,
    u: UpdateResultView,
    outcomes: OutcomeTexts,
    previous: VersionView,
)
    requires
        starts_from(p, u, previous),
    ensures
        ({
            let line = update_lines(seq![(p, u)], outcomes);
            let start = "\n* `"@ + p.name + "`: "@;
            let outcome = match u.semver_check {
                SemverCheckView::Compatible => outcomes.compatible@,
                SemverCheckView::Incompatible(_) => outcomes.incompatible@,
                SemverCheckView::Skipped => outcomes.skipped@,
            };
            &&& line == update_line(p, u, outcomes)
            &&& previous == u.version ==> line == start + version_text(u.version)
            &&& (previous.major != u.version.major || previous.minor != u.version.minor
                || previous.patch != u.version.patch || previous.pre != u.version.pre
                || previous.build != u.version.build) ==> line == start + version_text(previous)
                + " -> "@ + version_text(u.version) + outcome
        }),
{
    reveal_with_fuel(update_lines, 2);
    assert(seq![(p, u)].drop_last() =~= Seq::empty());
    assert(Seq::<char>::empty() + update_line(p, u, outcomes) =~= update_line(p, u, outcomes));
}

/// The breaking changes of an update are told exactly where it is incompatible: under a heading with
/// the name of the package, with the found incompatibilities as they are.
pub proof fn law_breaking_changes(p: PackageView, u: UpdateResultView, found: Seq<char>)
    ensures
        u.semver_check == SemverCheckView::Incompatible(found) ==> breaking_texts(seq![(p, u)])
            == "\n### ⚠️ `"@ + p.name + "` breaking changes\n\n```"@ + found + "```\n"@,
        !(u.semver_check is Incompatible) ==> breaking_texts(seq![(p, u)]) == Seq::<char>::empty(),
{
    reveal_with_fuel(breaking_texts, 2);
    assert(seq![(p, u)].drop_last() =~= Seq::empty());
    assert(Seq::<char>::empty() + breaking_text(p, u) =~= breaking_text(p, u));
}

/// A release tells the package, both versions, the notes, and the outcome of the semver check with
/// what was found.
pub proof fn law_release(p: PackageView, u: UpdateResultView, previous: VersionView, found: Seq<char>)
    requires
        starts_from(p, u, previous),
    ensures
        ({
            let r = release_of(p, u);
            &&& r.package == p.name
            &&& r.next_version == version_text(u.version)
            &&& r.previous_version == version_text(previous)
            &&& (r.title, r.changelog) == notes_of(u, last_changes_of(u))
            &&& u.semver_check == SemverCheckView::Incompatible(found) ==> r.breaking_changes
                == Some(found) && r.semver_check == "incompatible"@
            &&& u.semver_check is Compatible ==> r.breaking_changes is None && r.semver_check
                == "compatible"@
            &&& u.semver_check is Skipped ==> r.breaking_changes is None && r.semver_check
                == "skipped"@
        }),
{
}

/// What an update stands for has each part of it.
pub proof fn law_update_view(u: UpdateResult, updates: Seq<(Package, UpdateResult)>)
    ensures
        u@.version == u.version@,
        u.changelog matches Some(text) ==> u@.changelog == Some(text@),
        u.changelog is None ==> u@.changelog is None,
        u.semver_check matches SemverCheck::Incompatible(text) ==> u@.semver_check
            == SemverCheckView::Incompatible(text@),
        u.semver_check is Compatible ==> u@.semver_check is Compatible,
        u.semver_check is Skipped ==> u@.semver_check is Skipped,
        u.new_changelog_entry matches Some(text) ==> u@.new_changelog_entry == Some(text@),
        u.new_changelog_entry is None ==> u@.new_changelog_entry is None,
        u.registry_version matches Some(v) ==> u@.registry_version == Some(v@),
        u.registry_version is None ==> u@.registry_version is None,
        updates_view(updates).len() == updates.len(),
        forall|i: int|
            0 <= i < updates.len() ==> #[trigger] updates_view(updates)[i] == (
                updates[i].0@,
                updates[i].1@,
            ),
{
}

/// Whatever other updates there are, a summary tells each update whose start differs from the next
/// version, in whatever part: both versions, with an arrow between them, and behind them the text
/// for the outcome of the semver check.
pub proof fn law_every_transition_is_told(
    updates: Seq<(PackageView, UpdateResultView)>,
    outcomes: OutcomeTexts,
    i: int,
    previous: VersionView,
)
    requires
        0 <= i < updates.len(),
        starts_from(updates[i].0, updates[i].1, previous),
        previous != updates[i].1.version,
    ensures
        has_text(
            update_lines(updates, outcomes),
            version_text(previous) + " -> "@ + version_text(updates[i].1.version) + (
            match updates[i].1.semver_check {
                SemverCheckView::Compatible => outcomes.compatible@,
                SemverCheckView::Incompatible(_) => outcomes.incompatible@,
                SemverCheckView::Skipped => outcomes.skipped@,
            }),
        ),
        has_text(update_lines(updates, outcomes), updates[i].0.name),
{
    let (p, u) = updates[i];
    let outcome = match u.semver_check {
        SemverCheckView::Compatible => outcomes.compatible@,
        SemverCheckView::Incompatible(_) => outcomes.incompatible@,
        SemverCheckView::Skipped => outcomes.skipped@,
    };
    let told = version_text(previous) + " -> "@ + version_text(u.version) + outcome;
    let before = update_lines(updates.take(i), outcomes);
    let line = update_lines(seq![(p, u)], outcomes);
    let behind = update_lines(updates.skip(i + 1), outcomes);
    lemma_line_of_update(updates, outcomes, i);
    law_update_line(p, u, outcomes, previous);
    let start = "\n* `"@ + p.name + "`: "@;
    let none = Seq::<char>::empty();
    assert(line =~= start + told + none);
    law_has_text(line, told, start, none);
    law_within(line, told, before, behind);
    let rest = "`: "@ + told;
    assert(line =~= "\n* `"@ + p.name + rest);
    law_has_text(line, p.name, "\n* `"@, rest);
    law_within(line, p.name, before, behind);
}

proof fn lemma_line_of_update(
    updates: Seq<(PackageView, UpdateResultView)>,
    outcomes: OutcomeTexts,
    i: int,
)
    requires
        0 <= i < updates.len(),
    ensures
        update_lines(updates, outcomes) == update_lines(updates.take(i), outcomes) + update_lines(
            seq![updates[i]],
            outcomes,
        ) + update_lines(updates.skip(i + 1), outcomes),
{
    let head = updates.take(i) + seq![updates[i]];
    assert(updates =~= head + updates.skip(i + 1));
    law_update_lines_add_up(head, updates.skip(i + 1), outcomes);
    law_update_lines_add_up(updates.take(i), seq![updates[i]], outcomes);
}

/// Whatever other updates there are, the breaking changes of each incompatible one are told.
pub proof fn law_every_breaking_change_is_told(
    updates: Seq<(PackageView, UpdateResultView)>,
    i: int,
    found: Seq<char>,
)
    requires
        0 <= i < updates.len(),
        updates[i].1.semver_check == SemverCheckView::Incompatible(found),
    ensures
        has_text(breaking_texts(updates), found),
        has_text(breaking_texts(updates), updates[i].0.name),
{
    let (p, u) = updates[i];
    let before = breaking_texts(updates.take(i));
    let text = breaking_texts(seq![(p, u)]);
    let behind = breaking_texts(updates.skip(i + 1));
    lemma_text_of_update(updates, i);
    law_breaking_changes(p, u, found);
    let start = "\n### ⚠️ `"@;
    let middle = "` breaking changes\n\n```"@;
    let end = "```\n"@;
    law_has_text(text, found, start + p.name + middle, end);
    law_within(text, found, before, behind);
    assert(text =~= start + p.name + (middle + found + end));
    law_has_text(text, p.name, start, middle + found + end);
    law_within(text, p.name, before, behind);
}

proof fn lemma_text_of_update(updates: Seq<(PackageView, UpdateResultView)>, i: int)
    requires
        0 <= i < updates.len(),
    ensures
        breaking_texts(updates) == breaking_texts(updates.take(i)) + breaking_texts(
            seq![updates[i]],
        ) + breaking_texts(updates.skip(i + 1)),
{
    let head = updates.take(i) + seq![updates[i]];
    assert(updates =~= head + updates.skip(i + 1));
    law_breaking_changes_add_up(head, updates.skip(i + 1));
    law_breaking_changes_add_up(updates.take(i), seq![updates[i]]);
}

/// What a release stands for has each part of it.
pub proof fn law_release_view(r: ReleaseInfo, v: Seq<ReleaseInfo>)
    ensures
        r@.package == r.package@,
        r.title matches Some(text) ==> r@.title == Some(text@),
        r.title is None ==> r@.title is None,
        r.changelog matches Some(text) ==> r@.changelog == Some(text@),
        r.changelog is None ==> r@.changelog is None,
        r@.previous_version == r.previous_version@,
        r@.next_version == r.next_version@,
        r.breaking_changes matches Some(text) ==> r@.breaking_changes == Some(text@),
        r.breaking_changes is None ==> r@.breaking_changes is None,
        r@.semver_check == r.semver_check@,
        releases_view(v).len() == v.len(),
        forall|i: int| 0 <= i < v.len() ==> #[trigger] releases_view(v)[i] == v[i]@,
{
}

} // verus!
