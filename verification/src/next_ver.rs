//! Determining the next versions of packages.

use vstd::prelude::*;
use vstd::string::*;

use crate::git_only::{GitOnlyError, GitReply, GitRequest, GitRequestView};
use crate::io::{asked, Reply, Request, RequestView};
use crate::order::texts;
use crate::package::{
    clone_packages, is_member, law_members, law_names, lemma_filter_contains, packages,
    workspace_packages, Metadata, MetadataView, Package, PackageView,
};
use crate::packages_update::PackagesUpdate;
use crate::path::{
    has_parent, is_same_path, join, joined, parent, parent_path, path_parts, prefix_of, same_path,
    strip_prefix, stripped, Part,
};
use crate::registry::{PackageMap, PackagesCollection, RegistryPackageView};
use crate::release_packages::{
    by_source, collect_git_only_packages, collect_registry_packages, git_only_collection,
    is_from_registry, is_git_only, is_named_in, packages_to_fetch, releases_of, GitOnlyCollection,
    GitOnlyCollectionView,
};
use crate::text::{clone_texts, opt_str, opt_text};
use crate::update_request::{UpdateRequest, UpdateRequestView};

verus! {

/// The id of a commit that stands for none.
///
/// It has at least seven characters, as the short form of a commit id has.
pub const NO_COMMIT_ID: &'static str = "0000000";

/// A request for what the next versions of packages depend on.
#[derive(Debug, PartialEq)]
pub enum NextRequest {
    /// Something about the last releases of packages that are found by their git tags.
    GitOnly(GitRequest),
    /// Fetch the last releases of the packages from the registry.
    FetchPackages(Vec<Package>),
    /// Make an isolated copy of the repository of the project.
    TempRepo,
    /// Whether the copy has no changes that are not committed.
    IsClean,
    /// Run git with the arguments in the copy.
    Git(Vec<String>),
    /// Update the packages, compared with their last releases.
    PackagesToUpdate(PackagesCollection),
}

/// What a request stands for.
pub ghost enum NextRequestView {
    GitOnly(GitRequestView),
    FetchPackages(Seq<PackageView>),
    TempRepo,
    IsClean,
    Git(Seq<Seq<char>>),
    PackagesToUpdate(Map<Seq<char>, RegistryPackageView>),
}

impl View for NextRequest {
    type V = NextRequestView;

    open spec fn view(&self) -> NextRequestView {
        match *self {
            NextRequest::GitOnly(request) => NextRequestView::GitOnly(request@),
            NextRequest::FetchPackages(list) => NextRequestView::FetchPackages(packages(list@)),
            NextRequest::TempRepo => NextRequestView::TempRepo,
            NextRequest::IsClean => NextRequestView::IsClean,
            NextRequest::Git(args) => NextRequestView::Git(texts(args@)),
            NextRequest::PackagesToUpdate(releases) => NextRequestView::PackagesToUpdate(releases@),
        }
    }
}

/// What an optional request stands for.
pub open spec fn next_asked(request: Option<NextRequest>) -> Option<NextRequestView> {
    match request {
        Some(request) => Some(request@),
        None => None,
    }
}

/// What an optional request about git tags stands for.
pub open spec fn git_only_asked(request: Option<GitRequestView>) -> Option<NextRequestView> {
    match request {
        Some(request) => Some(NextRequestView::GitOnly(request)),
        None => None,
    }
}

/// The reply to a request. A text in place of a result says why there is none.
#[derive(Debug, PartialEq)]
pub enum NextReply {
    /// To `GitOnly`.
    GitOnly(GitReply),
    /// To `FetchPackages`.
    Fetched(Result<PackagesCollection, String>),
    /// To `TempRepo`, `IsClean` and `Git`.
    Done(Result<(), String>),
    /// To `PackagesToUpdate`.
    Updated(Result<PackagesUpdate, String>),
}

/// Why the next versions could not be determined.
#[derive(Debug, PartialEq, Eq)]
pub enum NextVersionsError {
    /// The last release of a package was not found by its git tag.
    GitOnly(GitOnlyError),
    /// The last releases could not be fetched from the registry.
    Fetch(String),
    /// There is no copy of the repository.
    TempRepo(String),
    /// There are changes that are not committed.
    NotClean(String),
    /// The changes that are not committed could not be stashed.
    Stash(String),
    /// The packages could not be updated.
    Update(String),
    /// The reply was for another request.
    UnexpectedReply,
}

/// The determining of the next versions of packages.
#[derive(Debug, PartialEq)]
pub struct NextVersions {
    allow_dirty: bool,
    to_fetch: Vec<Package>,
    kept: Vec<String>,
    stage: NextStage,
}

/// How far the determining of the next versions has come.
#[derive(Debug, PartialEq)]
enum NextStage {
    GitOnly(GitOnlyCollection),
    Fetch { found: PackageMap },
    TempRepo { releases: PackagesCollection },
    IsClean { releases: PackagesCollection },
    Stash { releases: PackagesCollection },
    Update { releases: PackagesCollection },
    Done(Result<PackagesUpdate, NextVersionsError>),
}

/// What the determining of the next versions of packages stands for.
pub ghost struct NextVersionsView {
    pub allow_dirty: bool,
    pub to_fetch: Seq<PackageView>,
    /// The worktrees with the releases that were found by their git tags.
    pub kept: Set<Seq<char>>,
    pub stage: NextStageView,
}

/// What a stage of the determining of the next versions stands for.
pub ghost enum NextStageView {
    /// Last releases are collected by their git tags.
    GitOnly(GitOnlyCollectionView),
    /// Last releases are fetched from a registry.
    Fetch { found: Map<Seq<char>, RegistryPackageView> },
    /// The repository is copied.
    TempRepo { releases: Map<Seq<char>, RegistryPackageView> },
    /// Is the copy clean?
    IsClean { releases: Map<Seq<char>, RegistryPackageView> },
    /// Changes that are not committed are stashed.
    Stash { releases: Map<Seq<char>, RegistryPackageView> },
    /// The packages are updated.
    Update { releases: Map<Seq<char>, RegistryPackageView> },
    /// The next versions are known.
    Done(Result<PackagesUpdate, NextVersionsError>),
}

spec fn next_stage_view(stage: NextStage) -> NextStageView {
    match stage {
        NextStage::GitOnly(collection) => NextStageView::GitOnly(collection@),
        NextStage::Fetch { found } => NextStageView::Fetch { found: found@ },
        NextStage::TempRepo { releases } => NextStageView::TempRepo { releases: releases@ },
        NextStage::IsClean { releases } => NextStageView::IsClean { releases: releases@ },
        NextStage::Stash { releases } => NextStageView::Stash { releases: releases@ },
        NextStage::Update { releases } => NextStageView::Update { releases: releases@ },
        NextStage::Done(update) => NextStageView::Done(update),
    }
}

impl View for NextVersions {
    type V = NextVersionsView;

    closed spec fn view(&self) -> NextVersionsView {
        NextVersionsView {
            allow_dirty: self.allow_dirty,
            to_fetch: packages(self.to_fetch@),
            kept: texts(self.kept@).to_set(),
            stage: next_stage_view(self.stage),
        }
    }
}

/// The arguments with which git stashes changes that are not committed.
pub open spec fn stash_args() -> Seq<Seq<char>> {
    seq![
        "stash"@,
        "push"@,
        "--include-untracked"@,
        "-m"@,
        "uncommitted changes stashed by release-plz"@,
    ]
}

fn args_to_stash() -> (r: Vec<String>)
    ensures
        texts(r@) == stash_args(),
{
    let args = vec![
        "stash".to_owned(),
        "push".to_owned(),
        "--include-untracked".to_owned(),
        "-m".to_owned(),
        "uncommitted changes stashed by release-plz".to_owned(),
    ];
    assert(texts(args@) =~= stash_args());
    args
}

/// The members of a workspace.
pub open spec fn members(metadata: MetadataView) -> Seq<PackageView> {
    metadata.packages.filter(is_member(metadata))
}

/// The members of a workspace whose last release is fetched from a registry.
pub open spec fn fetched_members(
    input: UpdateRequestView,
    metadata: MetadataView,
    publishable: Seq<PackageView>,
) -> Seq<PackageView> {
    members(metadata).filter(is_from_registry(input)).filter(is_named_in(publishable))
}

/// The stage after the releases that are found by their git tags. Without packages to fetch the
/// registry is not asked.
pub open spec fn git_tags_done(
    found: Map<Seq<char>, RegistryPackageView>,
    to_fetch: Seq<PackageView>,
) -> NextStageView {
    if to_fetch.len() == 0 {
        NextStageView::TempRepo { releases: found }
    } else {
        NextStageView::Fetch { found }
    }
}

/// The stage that the collecting by git tags leads to.
pub open spec fn after_collection(
    collection: GitOnlyCollectionView,
    to_fetch: Seq<PackageView>,
) -> NextStageView {
    match collection {
        GitOnlyCollectionView::Done(Ok(found)) => git_tags_done(found, to_fetch),
        GitOnlyCollectionView::Done(Err(error)) => NextStageView::Done(
            Err(NextVersionsError::GitOnly(error)),
        ),
        _ => NextStageView::GitOnly(collection),
    }
}

/// The determining of the next versions begins.
pub open spec fn next_versions_of(
    input: UpdateRequestView,
    metadata: MetadataView,
    publishable: Seq<PackageView>,
) -> NextVersionsView {
    let to_fetch = fetched_members(input, metadata, publishable);
    let collection = git_only_collection(
        members(metadata).filter(is_git_only(input)),
        input,
        publishable.len() > 1,
    );
    NextVersionsView {
        allow_dirty: input.allow_dirty,
        to_fetch,
        kept: collection.worktrees(),
        stage: after_collection(collection, to_fetch),
    }
}

impl NextVersionsView {
    /// What is asked for.
    pub open spec fn asks(self) -> Option<NextRequestView> {
        match self.stage {
            NextStageView::GitOnly(collection) => git_only_asked(collection.asks()),
            NextStageView::Fetch { .. } => Some(NextRequestView::FetchPackages(self.to_fetch)),
            NextStageView::TempRepo { .. } => Some(NextRequestView::TempRepo),
            NextStageView::IsClean { .. } => Some(NextRequestView::IsClean),
            NextStageView::Stash { .. } => Some(NextRequestView::Git(stash_args())),
            NextStageView::Update { releases } => Some(NextRequestView::PackagesToUpdate(releases)),
            NextStageView::Done(_) => None,
        }
    }

    /// The stage after a reply to what is asked for.
    pub open spec fn next_stage(self, reply: NextReply) -> NextStageView {
        match (self.stage, reply) {
            (NextStageView::Done(_), _) => self.stage,
            (NextStageView::GitOnly(collection), NextReply::GitOnly(reply)) => after_collection(
                collection.next(reply),
                self.to_fetch,
            ),
            (NextStageView::Fetch { found }, NextReply::Fetched(fetched)) => match fetched {
                Ok(fetched) => NextStageView::TempRepo {
                    releases: found.union_prefer_right(releases_of(self.to_fetch, fetched@)),
                },
                Err(cause) => NextStageView::Done(Err(NextVersionsError::Fetch(cause))),
            },
            (NextStageView::TempRepo { releases }, NextReply::Done(done)) => match done {
                Ok(_) => NextStageView::IsClean { releases },
                Err(cause) => NextStageView::Done(Err(NextVersionsError::TempRepo(cause))),
            },
            (NextStageView::IsClean { releases }, NextReply::Done(clean)) => match clean {
                Ok(_) => NextStageView::Update { releases },
                Err(cause) => if self.allow_dirty {
                    NextStageView::Stash { releases }
                } else {
                    NextStageView::Done(Err(NextVersionsError::NotClean(cause)))
                },
            },
            (NextStageView::Stash { releases }, NextReply::Done(done)) => match done {
                Ok(_) => NextStageView::Update { releases },
                Err(cause) => NextStageView::Done(Err(NextVersionsError::Stash(cause))),
            },
            (NextStageView::Update { .. }, NextReply::Updated(update)) => match update {
                Ok(update) => NextStageView::Done(Ok(update)),
                Err(cause) => NextStageView::Done(Err(NextVersionsError::Update(cause))),
            },
            _ => NextStageView::Done(Err(NextVersionsError::UnexpectedReply)),
        }
    }

    /// The worktrees that are kept after a reply to what is asked for.
    pub open spec fn next_kept(self, reply: NextReply) -> Set<Seq<char>> {
        match (self.stage, reply) {
            (NextStageView::GitOnly(collection), NextReply::GitOnly(reply)) => collection.next(
                reply,
            ).worktrees(),
            _ => self.kept,
        }
    }

    /// What follows a reply to what is asked for.
    pub open spec fn next(self, reply: NextReply) -> NextVersionsView {
        NextVersionsView { stage: self.next_stage(reply), kept: self.next_kept(reply), ..self }
    }

    /// The worktrees that must not go away: none when it is done.
    pub open spec fn worktrees(self) -> Set<Seq<char>> {
        if self.stage is Done {
            Set::empty()
        } else {
            self.kept
        }
    }
}

/// The stage after the releases that are found by their git tags.
fn after_git_tags(found: PackageMap, to_fetch: &Vec<Package>) -> (r: NextStage)
    ensures
        next_stage_view(r) == git_tags_done(found@, packages(to_fetch@)),
{
    if to_fetch.len() == 0 {
        let collection = PackagesCollection::default();
        NextStage::TempRepo { releases: collection.with_packages(found) }
    } else {
        NextStage::Fetch { found }
    }
}

/// The stage that the collecting by git tags leads to.
fn go_on_after(collection: GitOnlyCollection, to_fetch: &Vec<Package>) -> (r: NextStage)
    ensures
        next_stage_view(r) == after_collection(collection@, packages(to_fetch@)),
{
    if collection.is_done() {
        match collection.result() {
            Some(Ok(found)) => after_git_tags(found, to_fetch),
            Some(Err(error)) => NextStage::Done(Err(NextVersionsError::GitOnly(error))),
            None => NextStage::Done(Err(NextVersionsError::UnexpectedReply)),
        }
    } else {
        NextStage::GitOnly(collection)
    }
}

/// Determines the next versions of the packages of a workspace.
///
/// The last releases are collected first: by git tags for the packages that are configured so, and
/// from the registry for the others that can be published. Then the packages are updated, in an
/// isolated copy of the repository. Changes that are not committed are an error, unless the user
/// accepts them: then they are stashed in the copy.
pub fn next_versions(
    input: &UpdateRequest,
    metadata: &Metadata,
    publishable_packages: &Vec<Package>,
) -> (r: NextVersions)
    ensures
        r@ == next_versions_of(input@, metadata@, packages(publishable_packages@)),
{
    let workspace_packages = workspace_packages(metadata);
    let (git_only_packages, registry_packages_list) = by_source(&workspace_packages, input);
    let is_multi_package = publishable_packages.len() > 1;
    let collection = collect_git_only_packages(&git_only_packages, input, is_multi_package);
    let to_fetch = packages_to_fetch(&registry_packages_list, publishable_packages);
    let kept = collection.worktrees();
    let stage = go_on_after(collection, &to_fetch);
    NextVersions { allow_dirty: input.allow_dirty, to_fetch, kept, stage }
}

/// All last releases: those from the registry take precedence.
fn all_releases(found: PackageMap, to_fetch: &Vec<Package>, fetched: PackagesCollection) -> (r:
    PackagesCollection)
    ensures
        r@ == found@.union_prefer_right(releases_of(packages(to_fetch@), fetched@)),
{
    let mut all_packages = found;
    all_packages.extend(collect_registry_packages(to_fetch, &fetched));
    fetched.with_packages(all_packages)
}

impl NextVersions {
    /// What is asked for; nothing when it is done.
    pub fn request(&self) -> (r: Option<NextRequest>)
        ensures
            next_asked(r) == self@.asks(),
    {
        match &self.stage {
            NextStage::GitOnly(collection) => match collection.request() {
                Some(request) => Some(NextRequest::GitOnly(request)),
                None => None,
            },
            NextStage::Fetch { .. } => Some(
                NextRequest::FetchPackages(clone_packages(&self.to_fetch)),
            ),
            NextStage::TempRepo { .. } => Some(NextRequest::TempRepo),
            NextStage::IsClean { .. } => Some(NextRequest::IsClean),
            NextStage::Stash { .. } => Some(NextRequest::Git(args_to_stash())),
            NextStage::Update { releases } => Some(NextRequest::PackagesToUpdate(releases.clone())),
            NextStage::Done(_) => None,
        }
    }

    /// Goes on with the reply to what was asked for.
    pub fn reply(self, reply: NextReply) -> (r: NextVersions)
        ensures
            r@ == self@.next(reply),
    {
        let NextVersions { allow_dirty, to_fetch, kept, stage } = self;
        let mut kept = kept;
        let stage = match (stage, reply) {
            (NextStage::Done(update), _) => NextStage::Done(update),
            (NextStage::GitOnly(collection), NextReply::GitOnly(reply)) => {
                let collection = collection.reply(reply);
                kept = collection.worktrees();
                go_on_after(collection, &to_fetch)
            },
            (NextStage::Fetch { found }, NextReply::Fetched(fetched)) => match fetched {
                Ok(fetched) => NextStage::TempRepo {
                    releases: all_releases(found, &to_fetch, fetched),
                },
                Err(cause) => NextStage::Done(Err(NextVersionsError::Fetch(cause))),
            },
            (NextStage::TempRepo { releases }, NextReply::Done(done)) => match done {
                Ok(_) => NextStage::IsClean { releases },
                Err(cause) => NextStage::Done(Err(NextVersionsError::TempRepo(cause))),
            },
            (NextStage::IsClean { releases }, NextReply::Done(clean)) => match clean {
                Ok(_) => NextStage::Update { releases },
                Err(cause) => if allow_dirty {
                    NextStage::Stash { releases }
                } else {
                    NextStage::Done(Err(NextVersionsError::NotClean(cause)))
                },
            },
            (NextStage::Stash { releases }, NextReply::Done(done)) => match done {
                Ok(_) => NextStage::Update { releases },
                Err(cause) => NextStage::Done(Err(NextVersionsError::Stash(cause))),
            },
            (NextStage::Update { .. }, NextReply::Updated(update)) => match update {
                Ok(update) => NextStage::Done(Ok(update)),
                Err(cause) => NextStage::Done(Err(NextVersionsError::Update(cause))),
            },
            _ => NextStage::Done(Err(NextVersionsError::UnexpectedReply)),
        };
        NextVersions { allow_dirty, to_fetch, kept, stage }
    }

    /// The names of the worktrees that must not go away, because releases in them are compared
    /// with. All others may go.
    pub fn worktrees(&self) -> (r: Vec<String>)
        ensures
            texts(r@).to_set() == self@.worktrees(),
    {
        match &self.stage {
            NextStage::Done(_) => {
                let r: Vec<String> = Vec::new();
                assert(texts(r@).to_set() =~= Set::empty());
                r
            },
            _ => clone_texts(&self.kept),
        }
    }

    /// The packages to update; nothing while it is not done.
    pub fn result(self) -> (r: Option<Result<PackagesUpdate, NextVersionsError>>)
        ensures
            match r {
                Some(update) => self@.stage == NextStageView::Done(update),
                None => !(self@.stage is Done),
            },
    {
        match self.stage {
            NextStage::Done(update) => Some(update),
            _ => None,
        }
    }
}

/// Why the root of a repository is not known.
#[derive(Debug, PartialEq, Eq)]
pub enum RootRepoError {
    /// The path of the manifest has no parent.
    NoManifestDir,
    /// Git failed.
    Git(String),
    /// The reply was for another request.
    UnexpectedReply,
}

/// The search for the root of a repository.
#[derive(Debug, PartialEq, Eq)]
pub enum RootRepoPath {
    /// Git is asked in the directory.
    Ask(String),
    /// The root is known.
    Done(Result<String, RootRepoError>),
}

/// What the search for the root of a repository stands for.
pub ghost enum RootRepoPathView {
    Ask(Seq<char>),
    Done(Result<Seq<char>, RootRepoError>),
}

impl View for RootRepoPath {
    type V = RootRepoPathView;

    open spec fn view(&self) -> RootRepoPathView {
        match *self {
            RootRepoPath::Ask(dir) => RootRepoPathView::Ask(dir@),
            RootRepoPath::Done(Ok(root)) => RootRepoPathView::Done(Ok(root@)),
            RootRepoPath::Done(Err(error)) => RootRepoPathView::Done(Err(error)),
        }
    }
}

/// The arguments with which git prints the root of a repository.
pub open spec fn root_args() -> Seq<Seq<char>> {
    seq!["rev-parse"@, "--show-toplevel"@]
}

impl RootRepoPathView {
    /// What the search asks for.
    pub open spec fn asks(self) -> Option<RequestView> {
        match self {
            RootRepoPathView::Ask(dir) => Some(RequestView::GitText { dir, args: root_args() }),
            RootRepoPathView::Done(_) => None,
        }
    }

    /// The search after a reply to what it asks for.
    pub open spec fn next(self, reply: Reply) -> RootRepoPathView {
        match (self, reply) {
            (RootRepoPathView::Done(_), _) => self,
            (RootRepoPathView::Ask(_), Reply::Text(root)) => match root {
                Ok(root) => RootRepoPathView::Done(Ok(root@)),
                Err(cause) => RootRepoPathView::Done(Err(RootRepoError::Git(cause))),
            },
            _ => RootRepoPathView::Done(Err(RootRepoError::UnexpectedReply)),
        }
    }
}

/// Searches for the root of the repository that a manifest is in.
pub fn root_repo_path(local_manifest: &str) -> (r: RootRepoPath)
    ensures
        r@ == match parent_path(local_manifest@) {
            Some(dir) => RootRepoPathView::Ask(dir),
            None => RootRepoPathView::Done(Err(RootRepoError::NoManifestDir)),
        },
        r is Done <==> !has_parent(path_parts(local_manifest@)),
{
    match parent(local_manifest) {
        Some(dir) => root_repo_path_from_manifest_dir(dir.as_str()),
        None => RootRepoPath::Done(Err(RootRepoError::NoManifestDir)),
    }
}

/// Searches for the root of the repository that a directory is in.
pub fn root_repo_path_from_manifest_dir(manifest_dir: &str) -> (r: RootRepoPath)
    ensures
        r@ == RootRepoPathView::Ask(manifest_dir@),
{
    RootRepoPath::Ask(manifest_dir.to_owned())
}

impl RootRepoPath {
    /// What the search asks for; nothing when it is done.
    pub fn request(&self) -> (r: Option<Request>)
        ensures
            asked(r) == self@.asks(),
    {
        match self {
            RootRepoPath::Ask(dir) => {
                let args = vec!["rev-parse".to_owned(), "--show-toplevel".to_owned()];
                assert(texts(args@) =~= root_args());
                Some(Request::GitText { dir: dir.clone(), args })
            },
            RootRepoPath::Done(_) => None,
        }
    }

    /// Goes on with the reply to what was asked for.
    pub fn reply(self, reply: Reply) -> (r: RootRepoPath)
        ensures
            r@ == self@.next(reply),
    {
        match (self, reply) {
            (RootRepoPath::Done(root), _) => RootRepoPath::Done(root),
            (RootRepoPath::Ask(_), Reply::Text(root)) => match root {
                Ok(root) => RootRepoPath::Done(Ok(root)),
                Err(cause) => RootRepoPath::Done(Err(RootRepoError::Git(cause))),
            },
            _ => RootRepoPath::Done(Err(RootRepoError::UnexpectedReply)),
        }
    }
}

/// The manifest directory is not inside the directory that holds the project.
#[derive(Debug, PartialEq, Eq)]
pub struct OutsideProject;

/// The directory that holds a project: the parent of its root, or the root itself where it has
/// none.
pub open spec fn project_parent(root: Seq<char>) -> Seq<char> {
    match parent_path(root) {
        Some(dir) => dir,
        None => root,
    }
}

/// The parts of the directory that holds a project, from the parts of its root.
pub open spec fn project_parent_parts(root: Seq<Part>) -> Seq<Part> {
    if has_parent(root) {
        root.drop_last()
    } else {
        root
    }
}

/// Where a manifest directory of a project is after the project was copied, together with the name
/// of its root, into another directory. In the directory that holds the project it is where it was.
pub fn new_manifest_dir_path(
    old_project_root: &str,
    old_manifest_dir: &str,
    new_project_root: &str,
) -> (r: Result<String, OutsideProject>)
    ensures
        match r {
            Ok(path) => stripped(old_manifest_dir@, project_parent(old_project_root@)) is Some
                && path@ == joined(
                new_project_root@,
                stripped(old_manifest_dir@, project_parent(old_project_root@))->0,
            ),
            Err(_) => stripped(old_manifest_dir@, project_parent(old_project_root@)) is None,
        },
        r is Ok <==> project_parent_parts(path_parts(old_project_root@)).is_prefix_of(
            path_parts(old_manifest_dir@),
        ),
        r is Ok && new_project_root@ == project_parent(old_project_root@) && prefix_of(
            path_parts(r->Ok_0@),
        ) is None ==> same_path(r->Ok_0@, old_manifest_dir@),
{
    let parent_root = match parent(old_project_root) {
        Some(dir) => dir,
        None => old_project_root.to_owned(),
    };
    match strip_prefix(old_manifest_dir, parent_root.as_str()) {
        Some(relative_manifest_dir) => Ok(join(new_project_root, relative_manifest_dir.as_str())),
        None => Err(OutsideProject),
    }
}

/// The search for the absolute path of a dependency, or of a package.
#[derive(Debug, PartialEq, Eq)]
pub enum DependencyPath {
    /// The path is resolved.
    Resolve(String),
    /// The path is known. There is none for a dependency without a path, or with one that cannot
    /// be resolved.
    Done(Option<String>),
}

/// What the search for an absolute path stands for.
pub ghost enum DependencyPathView {
    Resolve(Seq<char>),
    Done(Option<Seq<char>>),
}

impl View for DependencyPath {
    type V = DependencyPathView;

    open spec fn view(&self) -> DependencyPathView {
        match *self {
            DependencyPath::Resolve(path) => DependencyPathView::Resolve(path@),
            DependencyPath::Done(path) => DependencyPathView::Done(opt_text(path)),
        }
    }
}

/// The search for the absolute path of a dependency begins, with the path that the manifest in
/// the directory gives it.
pub open spec fn dependency_path(entry: Option<Seq<char>>, package_dir: Seq<char>) ->
    DependencyPathView {
    match entry {
        Some(path) => DependencyPathView::Resolve(joined(package_dir, path)),
        None => DependencyPathView::Done(None),
    }
}

impl DependencyPathView {
    /// What the search asks for.
    pub open spec fn asks(self) -> Option<RequestView> {
        match self {
            DependencyPathView::Resolve(path) => Some(RequestView::Canonicalize(path)),
            DependencyPathView::Done(_) => None,
        }
    }

    /// The search after a reply to what it asks for. A reply to another request counts as none.
    pub open spec fn next(self, reply: Reply) -> DependencyPathView {
        match (self, reply) {
            (DependencyPathView::Done(_), _) => self,
            (DependencyPathView::Resolve(_), Reply::Canonical(Ok(path))) => {
                DependencyPathView::Done(Some(path@))
            },
            _ => DependencyPathView::Done(None),
        }
    }
}

/// Searches for the absolute path of a dependency.
///
/// - `path`: the `path` entry of the dependency in the manifest, relative to the manifest
/// - `package_dir`: the directory with the manifest where the dependency is listed
pub fn canonicalized_path(path: Option<&str>, package_dir: &str) -> (r: DependencyPath)
    ensures
        r@ == dependency_path(opt_str(path), package_dir@),
{
    match path {
        Some(path) => DependencyPath::Resolve(join(package_dir, path)),
        None => DependencyPath::Done(None),
    }
}

impl DependencyPath {
    /// What the search asks for; nothing when it is done.
    pub fn request(&self) -> (r: Option<Request>)
        ensures
            asked(r) == self@.asks(),
    {
        match self {
            DependencyPath::Resolve(path) => Some(Request::Canonicalize(path.clone())),
            DependencyPath::Done(_) => None,
        }
    }

    /// Goes on with the reply to what was asked for.
    pub fn reply(self, reply: Reply) -> (r: DependencyPath)
        ensures
            r@ == self@.next(reply),
    {
        match (self, reply) {
            (DependencyPath::Done(path), _) => DependencyPath::Done(path),
            (DependencyPath::Resolve(_), Reply::Canonical(Ok(path))) => DependencyPath::Done(
                Some(path),
            ),
            _ => DependencyPath::Done(None),
        }
    }
}

/// The check whether a dependency refers to a package.
#[derive(Debug, PartialEq, Eq)]
pub struct DependencyCheck {
    dependency: DependencyPath,
    package: DependencyPath,
}

/// What the check whether a dependency refers to a package stands for: the searches for the
/// absolute paths of the dependency and of the package, the one after the other.
pub ghost struct DependencyCheckView {
    pub dependency: DependencyPathView,
    pub package: DependencyPathView,
}

impl View for DependencyCheck {
    type V = DependencyCheckView;

    closed spec fn view(&self) -> DependencyCheckView {
        DependencyCheckView { dependency: self.dependency@, package: self.package@ }
    }
}

/// The check begins, with the path that the manifest in `dependency_package_dir` gives the
/// dependency.
pub open spec fn dependency_check(
    entry: Option<Seq<char>>,
    package_dir: Seq<char>,
    dependency_package_dir: Seq<char>,
) -> DependencyCheckView {
    DependencyCheckView {
        dependency: dependency_path(entry, dependency_package_dir),
        package: DependencyPathView::Resolve(package_dir),
    }
}

impl DependencyCheckView {
    /// What the check asks for. Where the dependency has no absolute path, that of the package does
    /// not matter.
    pub open spec fn asks(self) -> Option<RequestView> {
        match self.dependency {
            DependencyPathView::Resolve(_) => self.dependency.asks(),
            DependencyPathView::Done(Some(_)) => self.package.asks(),
            DependencyPathView::Done(None) => None,
        }
    }

    /// The check after a reply to what it asks for.
    pub open spec fn next(self, reply: Reply) -> DependencyCheckView {
        match self.dependency {
            DependencyPathView::Resolve(_) => DependencyCheckView {
                dependency: self.dependency.next(reply),
                ..self
            },
            DependencyPathView::Done(Some(_)) => DependencyCheckView {
                package: self.package.next(reply),
                ..self
            },
            DependencyPathView::Done(None) => self,
        }
    }

    /// The outcome, if the paths are known: both have an absolute path, and it is the same.
    pub open spec fn outcome(self) -> Option<bool> {
        match (self.dependency, self.package) {
            (DependencyPathView::Done(None), _) => Some(false),
            (
                DependencyPathView::Done(Some(dependency)),
                DependencyPathView::Done(Some(package)),
            ) => Some(same_path(dependency, package)),
            (DependencyPathView::Done(Some(_)), DependencyPathView::Done(None)) => Some(false),
            _ => None,
        }
    }
}

/// Checks whether a dependency, which is listed in the manifest in `dependency_package_dir`, refers
/// to the package in `package_dir`: whether the absolute path of the dependency is the absolute
/// path of the package.
///
/// `path` is the `path` entry of the dependency in the manifest.
pub fn is_dependency_referred_to_package(
    path: Option<&str>,
    package_dir: &str,
    dependency_package_dir: &str,
) -> (r: DependencyCheck)
    ensures
        r@ == dependency_check(opt_str(path), package_dir@, dependency_package_dir@),
{
    DependencyCheck {
        dependency: canonicalized_path(path, dependency_package_dir),
        package: DependencyPath::Resolve(package_dir.to_owned()),
    }
}

impl DependencyCheck {
    /// What the check asks for; nothing when it is done.
    pub fn request(&self) -> (r: Option<Request>)
        ensures
            asked(r) == self@.asks(),
    {
        match &self.dependency {
            DependencyPath::Resolve(_) => self.dependency.request(),
            DependencyPath::Done(Some(_)) => self.package.request(),
            DependencyPath::Done(None) => None,
        }
    }

    /// Goes on with the reply to what was asked for.
    pub fn reply(self, reply: Reply) -> (r: DependencyCheck)
        ensures
            r@ == self@.next(reply),
    {
        let DependencyCheck { dependency, package } = self;
        match dependency {
            DependencyPath::Resolve(_) => DependencyCheck {
                dependency: dependency.reply(reply),
                package,
            },
            DependencyPath::Done(Some(_)) => DependencyCheck {
                dependency,
                package: package.reply(reply),
            },
            DependencyPath::Done(None) => DependencyCheck { dependency, package },
        }
    }

    /// Whether the dependency refers to the package; nothing while the check is not done.
    pub fn result(&self) -> (r: Option<bool>)
        ensures
            r == self@.outcome(),
    {
        match (&self.dependency, &self.package) {
            (DependencyPath::Done(None), _) => Some(false),
            (DependencyPath::Done(Some(dependency)), DependencyPath::Done(Some(package))) => Some(
                is_same_path(dependency.as_str(), package.as_str()),
            ),
            (DependencyPath::Done(Some(_)), DependencyPath::Done(None)) => Some(false),
            _ => None,
        }
    }
}

/// The absolute path that a reply gives, if it gives one.
pub open spec fn absolute_path(reply: Reply) -> Option<Seq<char>> {
    match reply {
        Reply::Canonical(Ok(path)) => Some(path@),
        _ => None,
    }
}

/// A dependency that is listed in a manifest refers to a package exactly where its entry has a
/// path that, taken from the directory of the manifest, has an absolute path, and the directory of
/// the package has the same one. At most these two absolute paths are asked for.
pub proof fn law_dependency_refers(
    entry: Option<Seq<char>>,
    package_dir: Seq<char>,
    dependency_package_dir: Seq<char>,
    dependency: Reply,
    package: Reply,
)
    ensures
        ({
            let check = dependency_check(entry, package_dir, dependency_package_dir);
            let resolved = check.next(dependency);
            &&& entry is Some ==> check.asks() == Some(
                RequestView::Canonicalize(joined(dependency_package_dir, entry->0)),
            )
            &&& entry is Some && absolute_path(dependency) is Some ==> resolved.asks() == Some(
                RequestView::Canonicalize(package_dir),
            )
            &&& resolved.next(package).asks() is None
            &&& resolved.next(package).outcome() == Some(
                entry is Some && absolute_path(dependency) is Some && absolute_path(package) is Some
                    && same_path(absolute_path(dependency)->0, absolute_path(package)->0),
            )
        }),
{
}

/// The root of a repository is asked from git, in the directory of the manifest, and is what git
/// prints; where git fails, its cause is told.
pub proof fn law_root(dir: Seq<char>, reply: Reply)
    ensures
        RootRepoPathView::Ask(dir).asks() == Some(
            RequestView::GitText { dir, args: seq!["rev-parse"@, "--show-toplevel"@] },
        ),
        reply matches Reply::Text(Ok(root)) ==> RootRepoPathView::Ask(dir).next(reply)
            == RootRepoPathView::Done(Ok(root@)),
        reply matches Reply::Text(Err(cause)) ==> RootRepoPathView::Ask(dir).next(reply)
            == RootRepoPathView::Done(Err(RootRepoError::Git(cause))),
        !(reply is Text) ==> RootRepoPathView::Ask(dir).next(reply) == RootRepoPathView::Done(
            Err(RootRepoError::UnexpectedReply),
        ),
{
}

/// A project is held by the parent of its root; a root without a parent holds itself.
pub proof fn law_project_parent(root: Seq<char>, dir: Seq<char>, parts: Seq<Part>, last: Part)
    ensures
        parent_path(root) == Some(dir) ==> project_parent(root) == dir,
        parent_path(root) is None ==> project_parent(root) == root,
        last is RootDir || last is Prefix ==> project_parent_parts(parts.push(last)) == parts.push(
            last,
        ),
        last is CurDir || last is ParentDir || last is Normal ==> project_parent_parts(
            parts.push(last),
        ) == parts,
{
    assert(parts.push(last).last() == last);
    assert(parts.push(last).drop_last() =~= parts);
}

/// The last release of a package is fetched from the registry exactly where the package is a member
/// of the workspace, is not found by its git tag, and has the name of a package that can be
/// published.
pub proof fn law_fetched_members(
    input: UpdateRequestView,
    metadata: MetadataView,
    publishable: Seq<PackageView>,
    p: PackageView,
)
    ensures
        fetched_members(input, metadata, publishable).contains(p) <==> metadata.packages.contains(p)
            && metadata.workspace_members.contains(p.id) && !input.config(p.name).git_only && exists|
            q: PackageView,
        | #[trigger] publishable.contains(q) && q.name == p.name,
{
    law_members(metadata, p);
    law_names(publishable, p.name);
    lemma_filter_contains(members(metadata), is_from_registry(input), p);
    lemma_filter_contains(
        members(metadata).filter(is_from_registry(input)),
        is_named_in(publishable),
        p,
    );
}

/// What a request stands for is a request of the same kind, for the same.
pub proof fn law_next_request_view(r: NextRequest)
    ensures
        r matches NextRequest::GitOnly(request) ==> r@ == NextRequestView::GitOnly(request@),
        r matches NextRequest::FetchPackages(list) ==> r@ == NextRequestView::FetchPackages(
            packages(list@),
        ),
        r is TempRepo ==> r@ is TempRepo,
        r is IsClean ==> r@ is IsClean,
        r matches NextRequest::Git(args) ==> r@ == NextRequestView::Git(texts(args@)),
        r matches NextRequest::PackagesToUpdate(releases) ==> r@
            == NextRequestView::PackagesToUpdate(releases@),
        next_asked(Some(r)) == Some(r@),
        next_asked(None) is None,
{
}

/// After the releases that are found by their git tags the registry is asked exactly where there is
/// a package to fetch, and what was found is kept. An error ends everything.
pub proof fn law_after_git_tags(
    found: Map<Seq<char>, RegistryPackageView>,
    to_fetch: Seq<PackageView>,
    package: PackageView,
    error: GitOnlyError,
)
    ensures
        ({
            let done = GitOnlyCollectionView::Done(Ok(found));
            let failed = GitOnlyCollectionView::Done(Err(error));
            let none = Seq::<PackageView>::empty();
            &&& to_fetch.contains(package) ==> after_collection(done, to_fetch)
                == (NextStageView::Fetch { found })
            &&& after_collection(done, none) == (NextStageView::TempRepo { releases: found })
            &&& after_collection(failed, to_fetch) == NextStageView::Done(
                Err(NextVersionsError::GitOnly(error)),
            )
        }),
{
}

/// Changes that are not committed are stashed by git, with files that are not in git, under a
/// message.
pub proof fn law_git_stashes(versions: NextVersionsView)
    requires
        versions.stage is Stash,
    ensures
        versions.asks() == Some(
            NextRequestView::Git(
                seq![
                    "stash"@,
                    "push"@,
                    "--include-untracked"@,
                    "-m"@,
                    "uncommitted changes stashed by release-plz"@,
                ],
            ),
        ),
{
}

} // verus!
