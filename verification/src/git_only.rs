//! Finding the last release of a package by its git tag.

use vstd::prelude::*;
use vstd::string::*;

use crate::io::CargoOutput;
use crate::order::texts;
use crate::package::{
    find_package, first_named, law_first_is_found, law_names, packages, workspace_packages,
    Metadata, Package, PackageView,
};
use crate::package_compare::manifest_in;
use crate::path::{join, joined};
use crate::readme::{law_member_named, member_named};
use crate::registry::{RegistryPackage, RegistryPackageView};
use crate::text::opt_text;
use crate::update_request::{UpdateRequest, UpdateRequestView};
use crate::version::{version_text, Version};

verus! {

/// The template for the git tags of a package.
#[derive(Debug, PartialEq, Eq)]
pub enum TagTemplate {
    /// The one that the user configured.
    Configured(String),
    /// The default one, for a project with one or with several packages that can be published.
    Default { is_multi_package: bool },
}

/// What the template for the git tags of a package stands for.
pub ghost enum TagTemplateView {
    Configured(Seq<char>),
    Default { is_multi_package: bool },
}

impl View for TagTemplate {
    type V = TagTemplateView;

    open spec fn view(&self) -> TagTemplateView {
        match *self {
            TagTemplate::Configured(template) => TagTemplateView::Configured(template@),
            TagTemplate::Default { is_multi_package } => TagTemplateView::Default {
                is_multi_package,
            },
        }
    }
}

/// The template for the git tags of a package.
pub open spec fn template_for(
    input: UpdateRequestView,
    name: Seq<char>,
    is_multi_package: bool,
) -> TagTemplateView {
    match input.config(name).tag_name_template {
        Some(template) => TagTemplateView::Configured(template),
        None => TagTemplateView::Default { is_multi_package },
    }
}

/// A request for something from git, or from cargo in a worktree.
#[derive(Debug, PartialEq, Eq)]
pub enum GitRequest {
    /// Open the repository of the project.
    OpenProject,
    /// Make the pattern that the release tags of the package match, from the template and the name.
    ReleaseRegex { template: TagTemplate, package: String },
    /// Remove the worktree with the name, if there is one.
    CleanupWorktree { name: String },
    /// Make a temporary worktree with the name.
    CreateWorktree { name: String },
    /// Open the repository of the worktree.
    OpenWorktree { name: String },
    /// The last tag of the package that matches the pattern.
    FindReleaseTag { package: String, pattern: String },
    /// The commit of the tag.
    TagCommit { package: String, tag: String },
    /// Check out the commit in the worktree of the package.
    Checkout { package: String, commit: String },
    /// Run cargo with the arguments in the directory.
    Cargo { dir: String, args: Vec<String> },
    /// What cargo, run in the directory, says of the manifest, without its dependencies.
    WorktreeMetadata { dir: String, manifest: String },
    /// What cargo says of the manifest.
    ManifestMetadata { manifest: String },
}

/// What a request stands for.
pub ghost enum GitRequestView {
    OpenProject,
    ReleaseRegex { template: TagTemplateView, package: Seq<char> },
    CleanupWorktree { name: Seq<char> },
    CreateWorktree { name: Seq<char> },
    OpenWorktree { name: Seq<char> },
    FindReleaseTag { package: Seq<char>, pattern: Seq<char> },
    TagCommit { package: Seq<char>, tag: Seq<char> },
    Checkout { package: Seq<char>, commit: Seq<char> },
    Cargo { dir: Seq<char>, args: Seq<Seq<char>> },
    WorktreeMetadata { dir: Seq<char>, manifest: Seq<char> },
    ManifestMetadata { manifest: Seq<char> },
}

impl View for GitRequest {
    type V = GitRequestView;

    open spec fn view(&self) -> GitRequestView {
        match *self {
            GitRequest::OpenProject => GitRequestView::OpenProject,
            GitRequest::ReleaseRegex { template, package } => GitRequestView::ReleaseRegex {
                template: template@,
                package: package@,
            },
            GitRequest::CleanupWorktree { name } => GitRequestView::CleanupWorktree {
                name: name@,
            },
            GitRequest::CreateWorktree { name } => GitRequestView::CreateWorktree { name: name@ },
            GitRequest::OpenWorktree { name } => GitRequestView::OpenWorktree { name: name@ },
            GitRequest::FindReleaseTag { package, pattern } => GitRequestView::FindReleaseTag {
                package: package@,
                pattern: pattern@,
            },
            GitRequest::TagCommit { package, tag } => GitRequestView::TagCommit {
                package: package@,
                tag: tag@,
            },
            GitRequest::Checkout { package, commit } => GitRequestView::Checkout {
                package: package@,
                commit: commit@,
            },
            GitRequest::Cargo { dir, args } => GitRequestView::Cargo {
                dir: dir@,
                args: texts(args@),
            },
            GitRequest::WorktreeMetadata { dir, manifest } => GitRequestView::WorktreeMetadata {
                dir: dir@,
                manifest: manifest@,
            },
            GitRequest::ManifestMetadata { manifest } => GitRequestView::ManifestMetadata {
                manifest: manifest@,
            },
        }
    }
}

/// What an optional request stands for.
pub open spec fn git_asked(request: Option<GitRequest>) -> Option<GitRequestView> {
    match request {
        Some(request) => Some(request@),
        None => None,
    }
}

/// The tag of a release.
#[derive(Debug, PartialEq)]
pub struct ReleaseTag {
    pub name: String,
    pub version: Version,
}

/// The reply to a request. A text in place of a result says why there is none.
#[derive(Debug, PartialEq)]
pub enum GitReply {
    /// To `OpenProject`, `CleanupWorktree`, `OpenWorktree` and `Checkout`.
    Done(Result<(), String>),
    /// To `ReleaseRegex`: the pattern as a text.
    Pattern(Result<String, String>),
    /// To `CreateWorktree`: the path of the worktree, unless it is not valid UTF-8.
    Worktree(Result<Option<String>, String>),
    /// To `FindReleaseTag`.
    Tag(Result<Option<ReleaseTag>, String>),
    /// To `TagCommit`.
    Commit(Result<String, String>),
    /// To `Cargo`.
    Cargo(Result<CargoOutput, String>),
    /// To `WorktreeMetadata` and `ManifestMetadata`.
    Metadata(Result<Metadata, String>),
}

/// Why there is no worktree.
#[derive(Debug, PartialEq, Eq)]
pub enum WorktreeError {
    /// A worktree of before could not be removed.
    Cleanup(String),
    /// The worktree could not be made.
    Create(String),
    /// The repository of the worktree could not be opened.
    Open(String),
    /// The reply was for another request.
    UnexpectedReply,
}

/// Making a temporary worktree with its repository.
#[derive(Debug, PartialEq, Eq)]
pub struct WorktreeSetup {
    package_name: String,
    stage: WorktreeStage,
}

/// How far the making of a worktree has come.
#[derive(Debug, PartialEq, Eq)]
enum WorktreeStage {
    Cleanup,
    Create,
    Open { path: Option<String> },
    Done(Result<Option<String>, WorktreeError>),
}

/// What the making of a worktree stands for.
pub ghost struct WorktreeSetupView {
    pub package_name: Seq<char>,
    pub stage: WorktreeStageView,
}

/// What a stage of the making of a worktree stands for.
pub ghost enum WorktreeStageView {
    /// A worktree of before is removed.
    Cleanup,
    /// The worktree is made.
    Create,
    /// The repository of the worktree is opened.
    Open { path: Option<Seq<char>> },
    /// There is a worktree with its repository, or none.
    Done(Result<Option<Seq<char>>, WorktreeError>),
}

spec fn worktree_stage_view(stage: WorktreeStage) -> WorktreeStageView {
    match stage {
        WorktreeStage::Cleanup => WorktreeStageView::Cleanup,
        WorktreeStage::Create => WorktreeStageView::Create,
        WorktreeStage::Open { path } => WorktreeStageView::Open { path: opt_text(path) },
        WorktreeStage::Done(Ok(path)) => WorktreeStageView::Done(Ok(opt_text(path))),
        WorktreeStage::Done(Err(error)) => WorktreeStageView::Done(Err(error)),
    }
}

impl View for WorktreeSetup {
    type V = WorktreeSetupView;

    closed spec fn view(&self) -> WorktreeSetupView {
        WorktreeSetupView {
            package_name: self.package_name@,
            stage: worktree_stage_view(self.stage),
        }
    }
}

/// Making a worktree for a package begins.
pub open spec fn worktree_setup(package_name: Seq<char>) -> WorktreeSetupView {
    WorktreeSetupView { package_name, stage: WorktreeStageView::Cleanup }
}

impl WorktreeSetupView {
    /// What is asked for.
    pub open spec fn asks(self) -> Option<GitRequestView> {
        match self.stage {
            WorktreeStageView::Cleanup => Some(
                GitRequestView::CleanupWorktree { name: self.package_name },
            ),
            WorktreeStageView::Create => Some(
                GitRequestView::CreateWorktree { name: self.package_name },
            ),
            WorktreeStageView::Open { .. } => Some(
                GitRequestView::OpenWorktree { name: self.package_name },
            ),
            WorktreeStageView::Done(_) => None,
        }
    }

    /// The stage after a reply to what is asked for.
    pub open spec fn next_stage(self, reply: GitReply) -> WorktreeStageView {
        match (self.stage, reply) {
            (WorktreeStageView::Done(_), _) => self.stage,
            (WorktreeStageView::Cleanup, GitReply::Done(done)) => match done {
                Ok(_) => WorktreeStageView::Create,
                Err(cause) => WorktreeStageView::Done(Err(WorktreeError::Cleanup(cause))),
            },
            (WorktreeStageView::Create, GitReply::Worktree(path)) => match path {
                Ok(path) => WorktreeStageView::Open { path: opt_text(path) },
                Err(cause) => WorktreeStageView::Done(Err(WorktreeError::Create(cause))),
            },
            (WorktreeStageView::Open { path }, GitReply::Done(done)) => match done {
                Ok(_) => WorktreeStageView::Done(Ok(path)),
                Err(cause) => WorktreeStageView::Done(Err(WorktreeError::Open(cause))),
            },
            _ => WorktreeStageView::Done(Err(WorktreeError::UnexpectedReply)),
        }
    }

    /// What follows a reply to what is asked for.
    pub open spec fn next(self, reply: GitReply) -> WorktreeSetupView {
        WorktreeSetupView { stage: self.next_stage(reply), ..self }
    }
}

/// Makes a temporary worktree for a package, and opens its repository.
///
/// A worktree with the name of the package is removed first.
pub fn get_temp_worktree_and_repo(package_name: &str) -> (r: WorktreeSetup)
    ensures
        r@ == worktree_setup(package_name@),
{
    WorktreeSetup { package_name: package_name.to_owned(), stage: WorktreeStage::Cleanup }
}

impl WorktreeSetup {
    /// What is asked for; nothing when it is done.
    pub fn request(&self) -> (r: Option<GitRequest>)
        ensures
            git_asked(r) == self@.asks(),
    {
        let name = self.package_name.clone();
        match &self.stage {
            WorktreeStage::Cleanup => Some(GitRequest::CleanupWorktree { name }),
            WorktreeStage::Create => Some(GitRequest::CreateWorktree { name }),
            WorktreeStage::Open { .. } => Some(GitRequest::OpenWorktree { name }),
            WorktreeStage::Done(_) => None,
        }
    }

    /// Goes on with the reply to what was asked for.
    pub fn reply(self, reply: GitReply) -> (r: WorktreeSetup)
        ensures
            r@ == self@.next(reply),
    {
        let WorktreeSetup { package_name, stage } = self;
        let stage = match (stage, reply) {
            (WorktreeStage::Done(path), _) => WorktreeStage::Done(path),
            (WorktreeStage::Cleanup, GitReply::Done(done)) => match done {
                Ok(_) => WorktreeStage::Create,
                Err(cause) => WorktreeStage::Done(Err(WorktreeError::Cleanup(cause))),
            },
            (WorktreeStage::Create, GitReply::Worktree(path)) => match path {
                Ok(path) => WorktreeStage::Open { path },
                Err(cause) => WorktreeStage::Done(Err(WorktreeError::Create(cause))),
            },
            (WorktreeStage::Open { path }, GitReply::Done(done)) => match done {
                Ok(_) => WorktreeStage::Done(Ok(path)),
                Err(cause) => WorktreeStage::Done(Err(WorktreeError::Open(cause))),
            },
            _ => WorktreeStage::Done(Err(WorktreeError::UnexpectedReply)),
        };
        WorktreeSetup { package_name, stage }
    }

    /// The path of the worktree, unless it is not valid UTF-8; nothing while it is not done.
    pub fn result(self) -> (r: Option<Result<Option<String>, WorktreeError>>)
        ensures
            match r {
                Some(Ok(path)) => self@.stage == WorktreeStageView::Done(Ok(opt_text(path))),
                Some(Err(error)) => self@.stage == WorktreeStageView::Done(Err(error)),
                None => !(self@.stage is Done),
            },
    {
        match self.stage {
            WorktreeStage::Done(path) => Some(path),
            _ => None,
        }
    }
}

/// The arguments with which cargo packages a workspace.
pub open spec fn cargo_package_args() -> Seq<Seq<char>> {
    seq!["package"@, "--allow-dirty"@, "--workspace"@]
}

fn package_args() -> (r: Vec<String>)
    ensures
        texts(r@) == cargo_package_args(),
{
    let args = vec!["package".to_owned(), "--allow-dirty".to_owned(), "--workspace".to_owned()];
    assert(texts(args@) =~= cargo_package_args());
    args
}

/// Why a workspace was not packaged.
#[derive(Debug, PartialEq, Eq)]
pub enum CargoPackageError {
    /// Cargo could not be run.
    CannotRun(String),
    /// Cargo failed, with this on its standard error.
    Failed(String),
}

/// Whether cargo packaged a workspace.
pub open spec fn packaged(output: Result<CargoOutput, String>) -> Result<(), CargoPackageError> {
    match output {
        Ok(output) => if output.success {
            Ok(())
        } else {
            Err(CargoPackageError::Failed(output.stderr))
        },
        Err(cause) => Err(CargoPackageError::CannotRun(cause)),
    }
}

/// Whether a workspace was packaged, from what running `cargo package` gave.
pub fn run_cargo_package(output: Result<CargoOutput, String>) -> (r: Result<
    (),
    CargoPackageError,
>)
    ensures
        r == packaged(output),
{
    match output {
        Ok(output) => if output.success {
            Ok(())
        } else {
            Err(CargoPackageError::Failed(output.stderr))
        },
        Err(cause) => Err(CargoPackageError::CannotRun(cause)),
    }
}

/// Why a package was not found in a worktree.
#[derive(Debug, PartialEq, Eq)]
pub enum PackageError {
    /// The path of the worktree is not valid UTF-8.
    NotUtf8,
    /// Cargo says nothing of the worktree.
    WorktreeMetadata(String),
    /// The worktree has no package with the name.
    NotInWorktree,
    /// Cargo says nothing of the packaged package.
    PackagedMetadata(String),
    /// The packaged package does not have the name.
    NotPackaged,
}

/// The manifest of a package that cargo packaged.
pub open spec fn packaged_manifest(target_directory: Seq<char>, package: PackageView) -> Seq<char> {
    let dir = "package/"@ + package.name + "-"@ + version_text(package.version);
    manifest_in(joined(target_directory, dir))
}

/// The manifest of a package that cargo packaged, from what cargo says of the worktree.
pub open spec fn packaged_manifest_of(
    metadata: Result<Metadata, String>,
    name: Seq<char>,
) -> Result<Seq<char>, PackageError> {
    match metadata {
        Ok(metadata) => match first_named(metadata@.packages, name) {
            Some(package) => Ok(packaged_manifest(metadata@.target_directory, package)),
            None => Err(PackageError::NotInWorktree),
        },
        Err(cause) => Err(PackageError::WorktreeMetadata(cause)),
    }
}

/// The manifest of a package that cargo packaged, from what cargo says of the worktree.
pub fn packaged_manifest_path(metadata: Result<Metadata, String>, package_name: &str) -> (r: Result<
    String,
    PackageError,
>)
    ensures
        match r {
            Ok(path) => packaged_manifest_of(metadata, package_name@) == Ok::<_, PackageError>(
                path@,
            ),
            Err(error) => packaged_manifest_of(metadata, package_name@) == Err::<Seq<char>, _>(
                error,
            ),
        },
{
    match metadata {
        Ok(metadata) => match find_package(&metadata.packages, package_name) {
            Some(package) => {
                let mut dir = "package/".to_owned();
                dir.append(package.name.as_str());
                dir.append("-");
                dir.append(package.version.to_string().as_str());
                let package_path = join(metadata.target_directory.as_str(), dir.as_str());
                Ok(join(package_path.as_str(), "Cargo.toml"))
            },
            None => Err(PackageError::NotInWorktree),
        },
        Err(cause) => Err(PackageError::WorktreeMetadata(cause)),
    }
}

/// A packaged package, from what cargo says of its manifest.
pub open spec fn packaged_package(metadata: Result<Metadata, String>, name: Seq<char>) -> Result<
    PackageView,
    PackageError,
> {
    match metadata {
        Ok(metadata) => match member_named(metadata@, name) {
            Some(package) => Ok(package),
            None => Err(PackageError::NotPackaged),
        },
        Err(cause) => Err(PackageError::PackagedMetadata(cause)),
    }
}

/// A package of a worktree, from what cargo says of the worktree.
pub open spec fn source_package(metadata: Result<Metadata, String>, name: Seq<char>) -> Result<
    PackageView,
    PackageError,
> {
    match metadata {
        Ok(metadata) => match member_named(metadata@, name) {
            Some(package) => Ok(package),
            None => Err(PackageError::NotInWorktree),
        },
        Err(cause) => Err(PackageError::WorktreeMetadata(cause)),
    }
}

/// What a package that was found, or the error in its place, stands for.
pub open spec fn package_found(package: Result<Package, PackageError>) -> Result<
    PackageView,
    PackageError,
> {
    match package {
        Ok(package) => Ok(package@),
        Err(error) => Err(error),
    }
}

/// The packaged package with the name, from what cargo says of its manifest.
pub fn get_cargo_package(metadata: Result<Metadata, String>, package_name: &str) -> (r: Result<
    Package,
    PackageError,
>)
    ensures
        package_found(r) == packaged_package(metadata, package_name@),
{
    match metadata {
        Ok(metadata) => match find_package(&workspace_packages(&metadata), package_name) {
            Some(package) => Ok(package),
            None => Err(PackageError::NotPackaged),
        },
        Err(cause) => Err(PackageError::PackagedMetadata(cause)),
    }
}

/// The package of a worktree with the name, from what cargo says of the worktree.
///
/// It stands in for the packaged package where the workspace could not be packaged.
pub fn get_cargo_package_from_source(
    metadata: Result<Metadata, String>,
    package_name: &str,
) -> (r: Result<Package, PackageError>)
    ensures
        package_found(r) == source_package(metadata, package_name@),
{
    match metadata {
        Ok(metadata) => match find_package(&workspace_packages(&metadata), package_name) {
            Some(package) => Ok(package),
            None => Err(PackageError::NotInWorktree),
        },
        Err(cause) => Err(PackageError::WorktreeMetadata(cause)),
    }
}

/// Why the last release of a package was not found.
#[derive(Debug, PartialEq, Eq)]
pub enum GitOnlyError {
    /// The repository of the project could not be opened.
    OpenProject(String),
    /// There is no pattern for the release tags.
    ReleaseRegex(String),
    /// There is no worktree.
    Worktree(WorktreeError),
    /// The release tag could not be searched.
    ReleaseTag(String),
    /// The commit of the release tag is not known.
    TagCommit(String),
    /// The commit of the release tag could not be checked out.
    Checkout(String),
    /// The packaged package was not found.
    Packaged(PackageError),
    /// The package was not found in the worktree.
    Source(PackageError),
    /// The reply was for another request.
    UnexpectedReply,
}

/// What a last release that was found, or the error in its place, stands for.
pub open spec fn release_found(release: Result<Option<RegistryPackage>, GitOnlyError>) -> Result<
    Option<RegistryPackageView>,
    GitOnlyError,
> {
    match release {
        Ok(Some(package)) => Ok(Some(package@)),
        Ok(None) => Ok(None),
        Err(error) => Err(error),
    }
}

/// The search for the last release of a package.
#[derive(Debug, PartialEq)]
pub struct GitOnlyPackage {
    package_name: String,
    stage: GitOnlyStage,
}

/// How far the search for the last release of a package has come.
#[derive(Debug, PartialEq)]
enum GitOnlyStage {
    Regex { template: TagTemplate },
    Worktree { setup: WorktreeSetup, pattern: String },
    FindTag { worktree: Option<String>, pattern: String },
    TagCommit { worktree: Option<String>, tag: String },
    Checkout { worktree: Option<String>, commit: String },
    Package { dir: String, commit: String },
    PackagedWorktree { dir: String, commit: String },
    PackagedManifest { manifest: String, commit: String },
    Source { dir: String, commit: String },
    Done(Result<Option<RegistryPackage>, GitOnlyError>),
}

/// What the search for the last release of a package stands for.
pub ghost struct GitOnlyPackageView {
    pub package_name: Seq<char>,
    pub stage: GitOnlyStageView,
}

/// What a stage of the search for the last release of a package stands for.
pub ghost enum GitOnlyStageView {
    /// The pattern for the release tags is made.
    Regex { template: TagTemplateView },
    /// A worktree is made.
    Worktree { setup: WorktreeSetupView, pattern: Seq<char> },
    /// The release tag is searched.
    FindTag { worktree: Option<Seq<char>>, pattern: Seq<char> },
    /// The commit of the release tag is searched.
    TagCommit { worktree: Option<Seq<char>>, tag: Seq<char> },
    /// The commit of the release tag is checked out.
    Checkout { worktree: Option<Seq<char>>, commit: Seq<char> },
    /// The workspace is packaged.
    Package { dir: Seq<char>, commit: Seq<char> },
    /// The workspace is packaged: what does cargo say of the worktree?
    PackagedWorktree { dir: Seq<char>, commit: Seq<char> },
    /// What does cargo say of the packaged package?
    PackagedManifest { manifest: Seq<char>, commit: Seq<char> },
    /// The workspace could not be packaged: what does cargo say of the worktree?
    Source { dir: Seq<char>, commit: Seq<char> },
    /// The search is done. There is no last release where no tag was found.
    Done(Result<Option<RegistryPackageView>, GitOnlyError>),
}

spec fn git_only_stage(stage: GitOnlyStage) -> GitOnlyStageView {
    match stage {
        GitOnlyStage::Regex { template } => GitOnlyStageView::Regex { template: template@ },
        GitOnlyStage::Worktree { setup, pattern } => GitOnlyStageView::Worktree {
            setup: setup@,
            pattern: pattern@,
        },
        GitOnlyStage::FindTag { worktree, pattern } => GitOnlyStageView::FindTag {
            worktree: opt_text(worktree),
            pattern: pattern@,
        },
        GitOnlyStage::TagCommit { worktree, tag } => GitOnlyStageView::TagCommit {
            worktree: opt_text(worktree),
            tag: tag@,
        },
        GitOnlyStage::Checkout { worktree, commit } => GitOnlyStageView::Checkout {
            worktree: opt_text(worktree),
            commit: commit@,
        },
        GitOnlyStage::Package { dir, commit } => GitOnlyStageView::Package {
            dir: dir@,
            commit: commit@,
        },
        GitOnlyStage::PackagedWorktree { dir, commit } => GitOnlyStageView::PackagedWorktree {
            dir: dir@,
            commit: commit@,
        },
        GitOnlyStage::PackagedManifest { manifest, commit } => GitOnlyStageView::PackagedManifest {
            manifest: manifest@,
            commit: commit@,
        },
        GitOnlyStage::Source { dir, commit } => GitOnlyStageView::Source {
            dir: dir@,
            commit: commit@,
        },
        GitOnlyStage::Done(release) => GitOnlyStageView::Done(release_found(release)),
    }
}

impl View for GitOnlyPackage {
    type V = GitOnlyPackageView;

    closed spec fn view(&self) -> GitOnlyPackageView {
        GitOnlyPackageView {
            package_name: self.package_name@,
            stage: git_only_stage(self.stage),
        }
    }
}

/// The search for the last release of a package begins.
pub open spec fn git_only_search(
    input: UpdateRequestView,
    name: Seq<char>,
    is_multi_package: bool,
) -> GitOnlyPackageView {
    GitOnlyPackageView {
        package_name: name,
        stage: GitOnlyStageView::Regex { template: template_for(input, name, is_multi_package) },
    }
}

/// The stage that the making of a worktree leads to.
pub open spec fn set_up(setup: WorktreeSetupView, pattern: Seq<char>) -> GitOnlyStageView {
    match setup.stage {
        WorktreeStageView::Done(Ok(worktree)) => GitOnlyStageView::FindTag { worktree, pattern },
        WorktreeStageView::Done(Err(error)) => GitOnlyStageView::Done(
            Err(GitOnlyError::Worktree(error)),
        ),
        _ => GitOnlyStageView::Worktree { setup, pattern },
    }
}

/// The last release of a package that was released at the commit.
pub open spec fn released_at(package: PackageView, commit: Seq<char>) -> GitOnlyStageView {
    GitOnlyStageView::Done(Ok(Some(RegistryPackageView { package, sha1: Some(commit) })))
}

impl GitOnlyPackageView {
    /// What the search asks for.
    pub open spec fn asks(self) -> Option<GitRequestView> {
        let package = self.package_name;
        match self.stage {
            GitOnlyStageView::Regex { template } => Some(
                GitRequestView::ReleaseRegex { template, package },
            ),
            GitOnlyStageView::Worktree { setup, .. } => setup.asks(),
            GitOnlyStageView::FindTag { pattern, .. } => Some(
                GitRequestView::FindReleaseTag { package, pattern },
            ),
            GitOnlyStageView::TagCommit { tag, .. } => Some(
                GitRequestView::TagCommit { package, tag },
            ),
            GitOnlyStageView::Checkout { commit, .. } => Some(
                GitRequestView::Checkout { package, commit },
            ),
            GitOnlyStageView::Package { dir, .. } => Some(
                GitRequestView::Cargo { dir, args: cargo_package_args() },
            ),
            GitOnlyStageView::PackagedWorktree { dir, .. } => Some(
                GitRequestView::WorktreeMetadata { dir, manifest: manifest_in(dir) },
            ),
            GitOnlyStageView::PackagedManifest { manifest, .. } => Some(
                GitRequestView::ManifestMetadata { manifest },
            ),
            GitOnlyStageView::Source { dir, .. } => Some(
                GitRequestView::WorktreeMetadata { dir, manifest: manifest_in(dir) },
            ),
            GitOnlyStageView::Done(_) => None,
        }
    }

    /// The stage after a reply to what the search asks for.
    pub open spec fn next_stage(self, reply: GitReply) -> GitOnlyStageView {
        match (self.stage, reply) {
            (GitOnlyStageView::Done(_), _) => self.stage,
            (GitOnlyStageView::Regex { .. }, GitReply::Pattern(pattern)) => match pattern {
                Ok(pattern) => set_up(worktree_setup(self.package_name), pattern@),
                Err(cause) => GitOnlyStageView::Done(Err(GitOnlyError::ReleaseRegex(cause))),
            },
            (GitOnlyStageView::Worktree { setup, pattern }, _) => set_up(setup.next(reply), pattern),
            (GitOnlyStageView::FindTag { worktree, .. }, GitReply::Tag(tag)) => match tag {
                Ok(Some(tag)) => GitOnlyStageView::TagCommit { worktree, tag: tag.name@ },
                Ok(None) => GitOnlyStageView::Done(Ok(None)),
                Err(cause) => GitOnlyStageView::Done(Err(GitOnlyError::ReleaseTag(cause))),
            },
            (GitOnlyStageView::TagCommit { worktree, .. }, GitReply::Commit(commit)) => {
                match commit {
                    Ok(commit) => GitOnlyStageView::Checkout { worktree, commit: commit@ },
                    Err(cause) => GitOnlyStageView::Done(Err(GitOnlyError::TagCommit(cause))),
                }
            },
            (GitOnlyStageView::Checkout { worktree, commit }, GitReply::Done(done)) => match done {
                Ok(_) => match worktree {
                    Some(dir) => GitOnlyStageView::Package { dir, commit },
                    None => GitOnlyStageView::Done(Err(GitOnlyError::Source(PackageError::NotUtf8))),
                },
                Err(cause) => GitOnlyStageView::Done(Err(GitOnlyError::Checkout(cause))),
            },
            (GitOnlyStageView::Package { dir, commit }, GitReply::Cargo(output)) => {
                if packaged(output) is Ok {
                    GitOnlyStageView::PackagedWorktree { dir, commit }
                } else {
                    GitOnlyStageView::Source { dir, commit }
                }
            },
            (
                GitOnlyStageView::PackagedWorktree { commit, .. },
                GitReply::Metadata(metadata),
            ) => match packaged_manifest_of(metadata, self.package_name) {
                Ok(manifest) => GitOnlyStageView::PackagedManifest { manifest, commit },
                Err(error) => GitOnlyStageView::Done(Err(GitOnlyError::Packaged(error))),
            },
            (
                GitOnlyStageView::PackagedManifest { commit, .. },
                GitReply::Metadata(metadata),
            ) => match packaged_package(metadata, self.package_name) {
                Ok(package) => released_at(package, commit),
                Err(error) => GitOnlyStageView::Done(Err(GitOnlyError::Packaged(error))),
            },
            (GitOnlyStageView::Source { commit, .. }, GitReply::Metadata(metadata)) => {
                match source_package(metadata, self.package_name) {
                    Ok(package) => released_at(package, commit),
                    Err(error) => GitOnlyStageView::Done(Err(GitOnlyError::Source(error))),
                }
            },
            _ => GitOnlyStageView::Done(Err(GitOnlyError::UnexpectedReply)),
        }
    }

    /// The search after a reply to what it asks for.
    pub open spec fn next(self, reply: GitReply) -> GitOnlyPackageView {
        GitOnlyPackageView { stage: self.next_stage(reply), ..self }
    }
}

/// Searches for the last release of a package: finds its release tag, checks out the commit of the
/// tag in a worktree, and packages the workspace there.
///
/// Where the workspace cannot be packaged, the package is read from the source in the worktree.
/// There is no last release where no release tag is found.
pub fn process_git_only_package(
    package_name: &str,
    input: &UpdateRequest,
    is_multi_package: bool,
) -> (r: GitOnlyPackage)
    ensures
        r@ == git_only_search(input@, package_name@, is_multi_package),
{
    let template = match input.get_package_tag_name(package_name) {
        Some(template) => TagTemplate::Configured(template),
        None => TagTemplate::Default { is_multi_package },
    };
    GitOnlyPackage {
        package_name: package_name.to_owned(),
        stage: GitOnlyStage::Regex { template },
    }
}

/// The stage that the making of a worktree leads to.
fn after_setup(setup: WorktreeSetup, pattern: String) -> (r: GitOnlyStage)
    ensures
        git_only_stage(r) == set_up(setup@, pattern@),
{
    if let WorktreeStage::Done(_) = setup.stage {
        match setup.result() {
            Some(Ok(worktree)) => GitOnlyStage::FindTag { worktree, pattern },
            Some(Err(error)) => GitOnlyStage::Done(Err(GitOnlyError::Worktree(error))),
            None => GitOnlyStage::Done(Err(GitOnlyError::UnexpectedReply)),
        }
    } else {
        GitOnlyStage::Worktree { setup, pattern }
    }
}

/// The request for what cargo says of a worktree.
fn worktree_metadata(worktree: &String) -> (r: GitRequest)
    ensures
        r@ == (GitRequestView::WorktreeMetadata {
            dir: worktree@,
            manifest: manifest_in(worktree@),
        }),
{
    GitRequest::WorktreeMetadata {
        dir: worktree.clone(),
        manifest: join(worktree.as_str(), "Cargo.toml"),
    }
}

impl TagTemplate {
    fn copy(&self) -> (r: Self)
        ensures
            r@ == self@,
    {
        match self {
            TagTemplate::Configured(template) => TagTemplate::Configured(template.clone()),
            TagTemplate::Default { is_multi_package } => TagTemplate::Default {
                is_multi_package: *is_multi_package,
            },
        }
    }
}

impl GitOnlyPackage {
    /// What the search asks for; nothing when it is done.
    pub fn request(&self) -> (r: Option<GitRequest>)
        ensures
            git_asked(r) == self@.asks(),
    {
        let package = self.package_name.clone();
        match &self.stage {
            GitOnlyStage::Regex { template } => Some(
                GitRequest::ReleaseRegex { template: template.copy(), package },
            ),
            GitOnlyStage::Worktree { setup, .. } => setup.request(),
            GitOnlyStage::FindTag { pattern, .. } => Some(
                GitRequest::FindReleaseTag { package, pattern: pattern.clone() },
            ),
            GitOnlyStage::TagCommit { tag, .. } => Some(
                GitRequest::TagCommit { package, tag: tag.clone() },
            ),
            GitOnlyStage::Checkout { commit, .. } => Some(
                GitRequest::Checkout { package, commit: commit.clone() },
            ),
            GitOnlyStage::Package { dir, .. } => Some(
                GitRequest::Cargo { dir: dir.clone(), args: package_args() },
            ),
            GitOnlyStage::PackagedWorktree { dir, .. } => Some(worktree_metadata(dir)),
            GitOnlyStage::PackagedManifest { manifest, .. } => Some(
                GitRequest::ManifestMetadata { manifest: manifest.clone() },
            ),
            GitOnlyStage::Source { dir, .. } => Some(worktree_metadata(dir)),
            GitOnlyStage::Done(_) => None,
        }
    }

    /// Goes on with the reply to what was asked for.
    pub fn reply(self, reply: GitReply) -> (r: GitOnlyPackage)
        ensures
            r@ == self@.next(reply),
    {
        let GitOnlyPackage { package_name, stage } = self;
        let stage = match (stage, reply) {
            (GitOnlyStage::Done(release), _) => GitOnlyStage::Done(release),
            (GitOnlyStage::Regex { .. }, GitReply::Pattern(pattern)) => match pattern {
                Ok(pattern) => after_setup(
                    get_temp_worktree_and_repo(package_name.as_str()),
                    pattern,
                ),
                Err(cause) => GitOnlyStage::Done(Err(GitOnlyError::ReleaseRegex(cause))),
            },
            (GitOnlyStage::Worktree { setup, pattern }, reply) => after_setup(
                setup.reply(reply),
                pattern,
            ),
            (GitOnlyStage::FindTag { worktree, .. }, GitReply::Tag(tag)) => match tag {
                Ok(Some(tag)) => GitOnlyStage::TagCommit { worktree, tag: tag.name },
                Ok(None) => GitOnlyStage::Done(Ok(None)),
                Err(cause) => GitOnlyStage::Done(Err(GitOnlyError::ReleaseTag(cause))),
            },
            (GitOnlyStage::TagCommit { worktree, .. }, GitReply::Commit(commit)) => match commit {
                Ok(commit) => GitOnlyStage::Checkout { worktree, commit },
                Err(cause) => GitOnlyStage::Done(Err(GitOnlyError::TagCommit(cause))),
            },
            (GitOnlyStage::Checkout { worktree, commit }, GitReply::Done(done)) => match done {
                Ok(_) => match worktree {
                    Some(dir) => GitOnlyStage::Package { dir, commit },
                    None => GitOnlyStage::Done(Err(GitOnlyError::Source(PackageError::NotUtf8))),
                },
                Err(cause) => GitOnlyStage::Done(Err(GitOnlyError::Checkout(cause))),
            },
            (GitOnlyStage::Package { dir, commit }, GitReply::Cargo(output)) => {
                match run_cargo_package(output) {
                    Ok(_) => GitOnlyStage::PackagedWorktree { dir, commit },
                    Err(_) => GitOnlyStage::Source { dir, commit },
                }
            },
            (GitOnlyStage::PackagedWorktree { commit, .. }, GitReply::Metadata(metadata)) => {
                match packaged_manifest_path(metadata, package_name.as_str()) {
                    Ok(manifest) => GitOnlyStage::PackagedManifest { manifest, commit },
                    Err(error) => GitOnlyStage::Done(Err(GitOnlyError::Packaged(error))),
                }
            },
            (GitOnlyStage::PackagedManifest { commit, .. }, GitReply::Metadata(metadata)) => {
                match get_cargo_package(metadata, package_name.as_str()) {
                    Ok(package) => GitOnlyStage::Done(
                        Ok(Some(RegistryPackage::new(package, Some(commit)))),
                    ),
                    Err(error) => GitOnlyStage::Done(Err(GitOnlyError::Packaged(error))),
                }
            },
            (GitOnlyStage::Source { commit, .. }, GitReply::Metadata(metadata)) => {
                match get_cargo_package_from_source(metadata, package_name.as_str()) {
                    Ok(package) => GitOnlyStage::Done(
                        Ok(Some(RegistryPackage::new(package, Some(commit)))),
                    ),
                    Err(error) => GitOnlyStage::Done(Err(GitOnlyError::Source(error))),
                }
            },
            _ => GitOnlyStage::Done(Err(GitOnlyError::UnexpectedReply)),
        };
        GitOnlyPackage { package_name, stage }
    }

    /// The name of the package, and of its worktree.
    pub fn package_name(&self) -> (r: &str)
        ensures
            r@ == self@.package_name,
    {
        self.package_name.as_str()
    }

    /// Whether the search is done.
    pub fn is_done(&self) -> (r: bool)
        ensures
            r == (self@.stage is Done),
    {
        matches!(self.stage, GitOnlyStage::Done(_))
    }

    /// The last release, if there is one; nothing while the search is not done.
    pub fn result(self) -> (r: Option<Result<Option<RegistryPackage>, GitOnlyError>>)
        ensures
            match r {
                Some(release) => self@.stage == GitOnlyStageView::Done(release_found(release)),
                None => !(self@.stage is Done),
            },
    {
        match self.stage {
            GitOnlyStage::Done(release) => Some(release),
            _ => None,
        }
    }
}

/// The search for the last release of a package begins with its tag template: the configured one
/// wherever there is one, in a project with one package or with several, and the default one of the
/// project only where none is configured.
pub proof fn law_first_request(input: UpdateRequestView, name: Seq<char>, is_multi_package: bool)
    ensures
        input.config(name).tag_name_template matches Some(template) ==> git_only_search(
            input,
            name,
            is_multi_package,
        ).asks() == Some(
            GitRequestView::ReleaseRegex {
                template: TagTemplateView::Configured(template),
                package: name,
            },
        ),
        input.config(name).tag_name_template is None ==> git_only_search(
            input,
            name,
            is_multi_package,
        ).asks() == Some(
            GitRequestView::ReleaseRegex {
                template: TagTemplateView::Default { is_multi_package },
                package: name,
            },
        ),
{
}

/// A workspace was packaged exactly where cargo could be run and succeeded.
pub proof fn law_packaged(output: Result<CargoOutput, String>)
    ensures
        packaged(output) is Ok <==> output is Ok && output->Ok_0.success,
        output matches Err(cause) ==> packaged(output) == Err::<(), _>(
            CargoPackageError::CannotRun(cause),
        ),
        output is Ok && !output->Ok_0.success ==> packaged(output) == Err::<(), _>(
            CargoPackageError::Failed(output->Ok_0.stderr),
        ),
{
}

/// The packaged package with the name and the version of a package of the worktree is looked for in
/// the target directory, whichever package of the list it is.
pub proof fn law_packaged_manifest(metadata: Metadata, i: int)
    requires
        0 <= i < metadata@.packages.len(),
        forall|k: int|
            0 <= k < i ==> (#[trigger] metadata@.packages[k]).name != metadata@.packages[i].name,
    ensures
        ({
            let package = metadata@.packages[i];
            let dir = "package/"@ + package.name + "-"@ + version_text(package.version);
            packaged_manifest_of(Ok(metadata), package.name) == Ok::<_, PackageError>(
                joined(joined(metadata@.target_directory, dir), "Cargo.toml"@),
            )
        }),
{
    law_first_is_found(metadata@.packages, i);
}

/// A package is found in a worktree exactly where a package has its name. The packaged package, and
/// the one in the source, are found exactly where a member of the workspace has the name; what is
/// found is such a member.
pub proof fn law_packages_found(metadata: Metadata, name: Seq<char>)
    ensures
        packaged_manifest_of(Ok(metadata), name) is Ok <==> exists|p: PackageView| #[trigger]
            metadata@.packages.contains(p) && p.name == name,
        packaged_package(Ok(metadata), name) is Ok <==> exists|p: PackageView| #[trigger]
            metadata@.packages.contains(p) && metadata@.workspace_members.contains(p.id) && p.name
                == name,
        packaged_package(Ok(metadata), name) matches Ok(p) ==> metadata@.packages.contains(p)
            && metadata@.workspace_members.contains(p.id) && p.name == name && source_package(
            Ok(metadata),
            name,
        ) == Ok::<_, PackageError>(p),
        packaged_package(Ok(metadata), name) is Err ==> packaged_package(Ok(metadata), name)
            == Err::<PackageView, _>(PackageError::NotPackaged) && source_package(
            Ok(metadata),
            name,
        ) == Err::<PackageView, _>(PackageError::NotInWorktree),
{
    law_names(metadata@.packages, name);
    law_member_named(metadata@, name);
}

/// Where cargo says nothing, no package is found, and the cause is told.
pub proof fn law_no_metadata(cause: String, name: Seq<char>)
    ensures
        packaged_manifest_of(Err(cause), name) == Err::<Seq<char>, _>(
            PackageError::WorktreeMetadata(cause),
        ),
        packaged_package(Err(cause), name) == Err::<PackageView, _>(
            PackageError::PackagedMetadata(cause),
        ),
        source_package(Err(cause), name) == Err::<PackageView, _>(
            PackageError::WorktreeMetadata(cause),
        ),
{
}

/// What a request stands for is a request of the same kind, with the same texts.
pub proof fn law_git_request_view(r: GitRequest, template: TagTemplate)
    ensures
        r is OpenProject ==> r@ is OpenProject,
        r matches GitRequest::ReleaseRegex { template: t, package } ==> r@ == (
        GitRequestView::ReleaseRegex { template: t@, package: package@ }),
        r matches GitRequest::CleanupWorktree { name } ==> r@ == (GitRequestView::CleanupWorktree {
            name: name@,
        }),
        r matches GitRequest::CreateWorktree { name } ==> r@ == (GitRequestView::CreateWorktree {
            name: name@,
        }),
        r matches GitRequest::OpenWorktree { name } ==> r@ == (GitRequestView::OpenWorktree {
            name: name@,
        }),
        r matches GitRequest::FindReleaseTag { package, pattern } ==> r@ == (
        GitRequestView::FindReleaseTag { package: package@, pattern: pattern@ }),
        r matches GitRequest::TagCommit { package, tag } ==> r@ == (GitRequestView::TagCommit {
            package: package@,
            tag: tag@,
        }),
        r matches GitRequest::Checkout { package, commit } ==> r@ == (GitRequestView::Checkout {
            package: package@,
            commit: commit@,
        }),
        r matches GitRequest::Cargo { dir, args } ==> r@ == (GitRequestView::Cargo {
            dir: dir@,
            args: texts(args@),
        }),
        r matches GitRequest::WorktreeMetadata { dir, manifest } ==> r@ == (
        GitRequestView::WorktreeMetadata { dir: dir@, manifest: manifest@ }),
        r matches GitRequest::ManifestMetadata { manifest } ==> r@ == (
        GitRequestView::ManifestMetadata { manifest: manifest@ }),
        git_asked(Some(r)) == Some(r@),
        git_asked(None) is None,
        template matches TagTemplate::Configured(text) ==> template@ == TagTemplateView::Configured(
            text@,
        ),
        template matches TagTemplate::Default { is_multi_package } ==> template@ == (
        TagTemplateView::Default { is_multi_package }),
{
}

/// What was found stands for the package, or the release, and an error for itself.
pub proof fn law_found_view(
    package: Result<Package, PackageError>,
    release: Result<Option<RegistryPackage>, GitOnlyError>,
)
    ensures
        package matches Ok(p) ==> package_found(package) == Ok::<_, PackageError>(p@),
        package matches Err(error) ==> package_found(package) == Err::<PackageView, _>(error),
        release matches Ok(Some(r)) ==> release_found(release) == Ok::<_, GitOnlyError>(Some(r@)),
        release matches Ok(None) ==> release_found(release) == Ok::<_, GitOnlyError>(
            None::<RegistryPackageView>,
        ),
        release matches Err(error) ==> release_found(release) == Err::<
            Option<RegistryPackageView>,
            _,
        >(error),
{
}

/// The workspace in a worktree is packaged by cargo, as a whole, and changes that are not committed
/// are no obstacle.
pub proof fn law_cargo_packages(search: GitOnlyPackageView, worktree: Seq<char>, at: Seq<char>)
    ensures
        search.stage == (GitOnlyStageView::Package { dir: worktree, commit: at }) ==> search.asks()
            == Some(
            GitRequestView::Cargo {
                dir: worktree,
                args: seq!["package"@, "--allow-dirty"@, "--workspace"@],
            },
        ),
{
}

} // verus!
