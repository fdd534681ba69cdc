//! What searching the last releases and determining the next versions amount to.
//!
//! The searches ask one thing after the other. Here the replies come from a world that answers
//! each request in its own way, and the outcome is stated without the stages in between.

use vstd::prelude::*;

use crate::git_only::{
    cargo_package_args, git_only_search, packaged, packaged_manifest_of, packaged_package,
    source_package, template_for, GitOnlyError, GitOnlyPackageView, GitOnlyStageView, GitReply,
    GitRequestView, PackageError, ReleaseTag, WorktreeError, WorktreeStageView,
};
use crate::next_ver::{
    after_collection, fetched_members, git_tags_done, members, next_versions_of, stash_args,
    NextReply, NextRequestView, NextStageView, NextVersionsError, NextVersionsView,
};
use crate::package::{
    has_name, law_found_by_name, law_members, law_names, lemma_filter_contains, MetadataView,
    PackageView,
};
use crate::package_compare::manifest_in;
use crate::packages_update::PackagesUpdate;
use crate::registry::RegistryPackageView;
use crate::release_packages::{
    git_only_collection, is_from_registry, is_git_only, is_named_in, next_search, releases_of,
    searches_for, with_release, GitOnlyCollectionView,
};
use crate::text::opt_text;
use crate::update_request::UpdateRequestView;

verus! {

/// A world that replies to requests about git.
pub type GitWorld = spec_fn(GitRequestView) -> GitReply;

/// The reply is one to the request.
pub open spec fn git_answers(reply: GitReply, request: GitRequestView) -> bool {
    match request {
        GitRequestView::OpenProject => reply is Done,
        GitRequestView::ReleaseRegex { .. } => reply is Pattern,
        GitRequestView::CleanupWorktree { .. } => reply is Done,
        GitRequestView::CreateWorktree { .. } => reply is Worktree,
        GitRequestView::OpenWorktree { .. } => reply is Done,
        GitRequestView::FindReleaseTag { .. } => reply is Tag,
        GitRequestView::TagCommit { .. } => reply is Commit,
        GitRequestView::Checkout { .. } => reply is Done,
        GitRequestView::Cargo { .. } => reply is Cargo,
        GitRequestView::WorktreeMetadata { .. } => reply is Metadata,
        GitRequestView::ManifestMetadata { .. } => reply is Metadata,
    }
}

/// Each reply is one to the request.
pub open spec fn is_proper_git(w: GitWorld) -> bool {
    forall|request: GitRequestView| git_answers(#[trigger] w(request), request)
}

/// What making a worktree for a package gives.
pub open spec fn worktree_in(w: GitWorld, name: Seq<char>) -> Result<
    Option<Seq<char>>,
    WorktreeError,
> {
    match w(GitRequestView::CleanupWorktree { name })->Done_0 {
        Err(cause) => Err(WorktreeError::Cleanup(cause)),
        Ok(_) => match w(GitRequestView::CreateWorktree { name })->Worktree_0 {
            Err(cause) => Err(WorktreeError::Create(cause)),
            Ok(path) => match w(GitRequestView::OpenWorktree { name })->Done_0 {
                Err(cause) => Err(WorktreeError::Open(cause)),
                Ok(_) => Ok(opt_text(path)),
            },
        },
    }
}

/// The package of a worktree: the packaged one, or the one in the source where the workspace could
/// not be packaged.
pub open spec fn package_in(w: GitWorld, name: Seq<char>, dir: Seq<char>) -> Result<
    PackageView,
    GitOnlyError,
> {
    let output = w(GitRequestView::Cargo { dir, args: cargo_package_args() })->Cargo_0;
    let metadata = w(
        GitRequestView::WorktreeMetadata { dir, manifest: manifest_in(dir) },
    )->Metadata_0;
    if packaged(output) is Ok {
        match packaged_manifest_of(metadata, name) {
            Err(error) => Err(GitOnlyError::Packaged(error)),
            Ok(manifest) => {
                let packaged_metadata = w(GitRequestView::ManifestMetadata { manifest })->Metadata_0;
                match packaged_package(packaged_metadata, name) {
                    Err(error) => Err(GitOnlyError::Packaged(error)),
                    Ok(package) => Ok(package),
                }
            },
        }
    } else {
        match source_package(metadata, name) {
            Err(error) => Err(GitOnlyError::Source(error)),
            Ok(package) => Ok(package),
        }
    }
}

/// The package at a commit that is checked out in a worktree.
pub open spec fn release_in(
    w: GitWorld,
    name: Seq<char>,
    worktree: Option<Seq<char>>,
    commit: Seq<char>,
) -> Result<Option<RegistryPackageView>, GitOnlyError> {
    match w(GitRequestView::Checkout { package: name, commit })->Done_0 {
        Err(cause) => Err(GitOnlyError::Checkout(cause)),
        Ok(_) => match worktree {
            None => Err(GitOnlyError::Source(PackageError::NotUtf8)),
            Some(dir) => match package_in(w, name, dir) {
                Err(error) => Err(error),
                Ok(package) => Ok(Some(RegistryPackageView { package, sha1: Some(commit) })),
            },
        },
    }
}

/// The last release of a package.
pub open spec fn last_release_in(
    w: GitWorld,
    input: UpdateRequestView,
    name: Seq<char>,
    is_multi_package: bool,
) -> Result<Option<RegistryPackageView>, GitOnlyError> {
    let template = template_for(input, name, is_multi_package);
    match w(GitRequestView::ReleaseRegex { template, package: name })->Pattern_0 {
        Err(cause) => Err(GitOnlyError::ReleaseRegex(cause)),
        Ok(pattern) => match worktree_in(w, name) {
            Err(error) => Err(GitOnlyError::Worktree(error)),
            Ok(worktree) => match w(
                GitRequestView::FindReleaseTag { package: name, pattern: pattern@ },
            )->Tag_0 {
                Err(cause) => Err(GitOnlyError::ReleaseTag(cause)),
                Ok(None) => Ok(None),
                Ok(Some(tag)) => match w(
                    GitRequestView::TagCommit { package: name, tag: tag.name@ },
                )->Commit_0 {
                    Err(cause) => Err(GitOnlyError::TagCommit(cause)),
                    Ok(commit) => release_in(w, name, worktree, commit@),
                },
            },
        },
    }
}

/// How many replies a search still needs, at most.
pub open spec fn replies_left(search: GitOnlyPackageView) -> nat {
    match search.stage {
        GitOnlyStageView::Regex { .. } => 12,
        GitOnlyStageView::Worktree { setup, .. } => match setup.stage {
            WorktreeStageView::Cleanup => 11,
            WorktreeStageView::Create => 10,
            WorktreeStageView::Open { .. } => 9,
            WorktreeStageView::Done(_) => 8,
        },
        GitOnlyStageView::FindTag { .. } => 7,
        GitOnlyStageView::TagCommit { .. } => 6,
        GitOnlyStageView::Checkout { .. } => 5,
        GitOnlyStageView::Package { .. } => 4,
        GitOnlyStageView::PackagedWorktree { .. } => 3,
        GitOnlyStageView::PackagedManifest { .. } => 2,
        GitOnlyStageView::Source { .. } => 1,
        GitOnlyStageView::Done(_) => 0,
    }
}

/// The outcome of a search that goes on until it is done, with the replies of a world.
pub open spec fn run_search(search: GitOnlyPackageView, w: GitWorld) -> Result<
    Option<RegistryPackageView>,
    GitOnlyError,
>
    decreases replies_left(search),
{
    match search.stage {
        GitOnlyStageView::Done(release) => release,
        _ => run_search(search.next(w(search.asks()->0)), w),
    }
}

/// The reply of a proper world to a request is one to that request.
proof fn lemma_reply(w: GitWorld, request: GitRequestView)
    requires
        is_proper_git(w),
    ensures
        git_answers(w(request), request),
{
}

proof fn lemma_run_from_package(
    w: GitWorld,
    name: Seq<char>,
    dir: Seq<char>,
    commit: Seq<char>,
)
    requires
        is_proper_git(w),
    ensures
        run_search(
            (GitOnlyPackageView {
                package_name: name,
                stage: GitOnlyStageView::Package { dir, commit },
            }),
            w,
        ) == match package_in(w, name, dir) {
            Err(error) => Err::<Option<RegistryPackageView>, _>(error),
            Ok(package) => Ok(Some(RegistryPackageView { package, sha1: Some(commit) })),
        },
{
    reveal_with_fuel(run_search, 4);
    lemma_reply(w, GitRequestView::Cargo { dir, args: cargo_package_args() });
    let worktree = GitRequestView::WorktreeMetadata { dir, manifest: manifest_in(dir) };
    lemma_reply(w, worktree);
    match packaged_manifest_of(w(worktree)->Metadata_0, name) {
        Ok(manifest) => lemma_reply(w, GitRequestView::ManifestMetadata { manifest }),
        Err(_) => {},
    }
}

proof fn lemma_run_from_tag(
    w: GitWorld,
    name: Seq<char>,
    worktree: Option<Seq<char>>,
    pattern: Seq<char>,
)
    requires
        is_proper_git(w),
    ensures
        run_search(
            (GitOnlyPackageView {
                package_name: name,
                stage: GitOnlyStageView::FindTag { worktree, pattern },
            }),
            w,
        ) == match w(GitRequestView::FindReleaseTag { package: name, pattern })->Tag_0 {
            Err(cause) => Err(GitOnlyError::ReleaseTag(cause)),
            Ok(None) => Ok(None),
            Ok(Some(tag)) => match w(
                GitRequestView::TagCommit { package: name, tag: tag.name@ },
            )->Commit_0 {
                Err(cause) => Err(GitOnlyError::TagCommit(cause)),
                Ok(commit) => release_in(w, name, worktree, commit@),
            },
        },
{
    reveal_with_fuel(run_search, 4);
    let find = GitRequestView::FindReleaseTag { package: name, pattern };
    lemma_reply(w, find);
    match w(find)->Tag_0 {
        Ok(Some(tag)) => {
            let ask = GitRequestView::TagCommit { package: name, tag: tag.name@ };
            lemma_reply(w, ask);
            match w(ask)->Commit_0 {
                Ok(commit) => {
                    lemma_reply(w, GitRequestView::Checkout { package: name, commit: commit@ });
                    if worktree is Some {
                        lemma_run_from_package(w, name, worktree->0, commit@);
                    }
                },
                Err(_) => {},
            }
        },
        _ => {},
    }
}

/// The search for the last release of a package by its git tag gives what `last_release_in` says.
pub proof fn law_git_only_package(
    w: GitWorld,
    input: UpdateRequestView,
    name: Seq<char>,
    is_multi_package: bool,
)
    requires
        is_proper_git(w),
    ensures
        run_search(git_only_search(input, name, is_multi_package), w) == last_release_in(
            w,
            input,
            name,
            is_multi_package,
        ),
{
    reveal_with_fuel(run_search, 5);
    let template = template_for(input, name, is_multi_package);
    lemma_reply(w, GitRequestView::ReleaseRegex { template, package: name });
    lemma_reply(w, GitRequestView::CleanupWorktree { name });
    lemma_reply(w, GitRequestView::CreateWorktree { name });
    lemma_reply(w, GitRequestView::OpenWorktree { name });
    let regex = w(GitRequestView::ReleaseRegex { template, package: name })->Pattern_0;
    match (regex, worktree_in(w, name)) {
        (Ok(pattern), Ok(worktree)) => lemma_run_from_tag(w, name, worktree, pattern@),
        _ => {},
    }
}

/// The tag that is found with the pattern for the release tags of a package.
pub open spec fn tag_in(
    w: GitWorld,
    input: UpdateRequestView,
    name: Seq<char>,
    is_multi_package: bool,
) -> Result<Option<ReleaseTag>, String> {
    let template = template_for(input, name, is_multi_package);
    let pattern = w(
        GitRequestView::ReleaseRegex { template, package: name },
    )->Pattern_0->Ok_0@;
    w(GitRequestView::FindReleaseTag { package: name, pattern })->Tag_0
}

/// The search for the release tag of a package is reached: the pattern is made, and there is a
/// worktree.
pub open spec fn can_search_tag(
    w: GitWorld,
    input: UpdateRequestView,
    name: Seq<char>,
    is_multi_package: bool,
) -> bool {
    let template = template_for(input, name, is_multi_package);
    &&& w(GitRequestView::ReleaseRegex { template, package: name })->Pattern_0 is Ok
    &&& worktree_in(w, name) is Ok
}

/// A package without a release tag has no last release, and that is no error.
pub proof fn law_no_release_tag(
    w: GitWorld,
    input: UpdateRequestView,
    name: Seq<char>,
    is_multi_package: bool,
)
    requires
        is_proper_git(w),
        can_search_tag(w, input, name, is_multi_package),
        tag_in(w, input, name, is_multi_package) matches Ok(None),
    ensures
        run_search(git_only_search(input, name, is_multi_package), w) == Ok::<
            Option<RegistryPackageView>,
            GitOnlyError,
        >(None),
{
    law_git_only_package(w, input, name, is_multi_package);
}

/// Where the workspace cannot be packaged at the release tag, for whatever reason, the last release
/// is the package in the source of the worktree.
pub proof fn law_source_in_place_of_package(
    w: GitWorld,
    input: UpdateRequestView,
    name: Seq<char>,
    is_multi_package: bool,
    tag: Seq<char>,
    commit: Seq<char>,
    dir: Seq<char>,
)
    requires
        is_proper_git(w),
        can_search_tag(w, input, name, is_multi_package),
        worktree_in(w, name)->Ok_0 == Some(dir),
        tag_in(w, input, name, is_multi_package) matches Ok(Some(t)) && t.name@ == tag,
        w(GitRequestView::TagCommit { package: name, tag })->Commit_0 matches Ok(c) && c@ == commit,
        w(GitRequestView::Checkout { package: name, commit })->Done_0 is Ok,
        packaged(w(GitRequestView::Cargo { dir, args: cargo_package_args() })->Cargo_0) is Err,
    ensures
        run_search(git_only_search(input, name, is_multi_package), w) == match source_package(
            w(GitRequestView::WorktreeMetadata { dir, manifest: manifest_in(dir) })->Metadata_0,
            name,
        ) {
            Ok(package) => Ok(Some(RegistryPackageView { package, sha1: Some(commit) })),
            Err(error) => Err(GitOnlyError::Source(error)),
        },
{
    law_git_only_package(w, input, name, is_multi_package);
}

/// A last release that is found by a git tag is one of the package that was searched, and its
/// commit is known.
pub proof fn law_release_is_of_package(
    w: GitWorld,
    input: UpdateRequestView,
    name: Seq<char>,
    is_multi_package: bool,
)
    ensures
        last_release_in(w, input, name, is_multi_package) matches Ok(Some(release)) ==> (
        release.package.name == name && release.sha1 is Some),
{
    match last_release_in(w, input, name, is_multi_package) {
        Ok(Some(release)) => {
            let dir = worktree_in(w, name)->Ok_0->0;
            let metadata = w(
                GitRequestView::WorktreeMetadata { dir, manifest: manifest_in(dir) },
            )->Metadata_0;
            let output = w(GitRequestView::Cargo { dir, args: cargo_package_args() })->Cargo_0;
            if packaged(output) is Ok {
                let manifest = packaged_manifest_of(metadata, name)->Ok_0;
                let inner = w(GitRequestView::ManifestMetadata { manifest })->Metadata_0;
                law_found_by_name(members(inner->Ok_0@), name);
            } else {
                law_found_by_name(members(metadata->Ok_0@), name);
            }
        },
        _ => {},
    }
}

/// What searching one package after the other gives: the last releases by name, or the first error.
pub open spec fn run_all(
    w: GitWorld,
    left: Seq<GitOnlyPackageView>,
    found: Map<Seq<char>, RegistryPackageView>,
) -> Result<Map<Seq<char>, RegistryPackageView>, GitOnlyError>
    decreases left.len(),
{
    if left.len() == 0 {
        Ok(found)
    } else {
        match run_search(left[0], w) {
            Ok(release) => run_all(w, left.drop_first(), with_release(found, release)),
            Err(error) => Err(error),
        }
    }
}

/// How many searches a collecting still needs.
pub open spec fn searches_left(collection: GitOnlyCollectionView) -> nat {
    match collection {
        GitOnlyCollectionView::Open { left } => left.len() + 1,
        GitOnlyCollectionView::Search { left, .. } => left.len(),
        GitOnlyCollectionView::Done(_) => 0,
    }
}

/// How many replies the search of a collecting still needs, at most.
pub open spec fn collection_replies_left(collection: GitOnlyCollectionView) -> nat {
    match collection {
        GitOnlyCollectionView::Search { search, .. } => replies_left(search) + 1,
        _ => 0,
    }
}

/// The outcome of a collecting that goes on until it is done, with the replies of a world.
pub open spec fn run_collection(collection: GitOnlyCollectionView, w: GitWorld) -> Result<
    Map<Seq<char>, RegistryPackageView>,
    GitOnlyError,
>
    decreases searches_left(collection), collection_replies_left(collection),
{
    match collection {
        GitOnlyCollectionView::Done(found) => found,
        _ => run_collection(collection.next(w(collection.asks()->0)), w),
    }
}

proof fn lemma_run_search_then_rest(
    w: GitWorld,
    search: GitOnlyPackageView,
    left: Seq<GitOnlyPackageView>,
    found: Map<Seq<char>, RegistryPackageView>,
)
    requires
        !(search.stage is Done),
    ensures
        run_collection(GitOnlyCollectionView::Search { search, left, found }, w) == match run_search(
            search,
            w,
        ) {
            Ok(release) => run_collection(next_search(left, with_release(found, release)), w),
            Err(error) => Err(error),
        },
    decreases replies_left(search),
{
    let next = search.next(w(search.asks()->0));
    if !(next.stage is Done) {
        lemma_run_search_then_rest(w, next, left, found);
    } else {
        reveal_with_fuel(run_search, 2);
        reveal_with_fuel(run_collection, 2);
    }
}

proof fn lemma_run_rest(
    w: GitWorld,
    left: Seq<GitOnlyPackageView>,
    found: Map<Seq<char>, RegistryPackageView>,
)
    requires
        forall|i: int| 0 <= i < left.len() ==> !((#[trigger] left[i]).stage is Done),
    ensures
        run_collection(next_search(left, found), w) == run_all(w, left, found),
    decreases left.len(),
{
    if left.len() > 0 {
        assert(!(left[0].stage is Done));
        lemma_run_search_then_rest(w, left[0], left.drop_first(), found);
        match run_search(left[0], w) {
            Ok(release) => lemma_run_rest(w, left.drop_first(), with_release(found, release)),
            Err(_) => {},
        }
    }
}

/// What collecting the last releases of packages by their git tags gives.
pub open spec fn collected_in(
    w: GitWorld,
    list: Seq<PackageView>,
    input: UpdateRequestView,
    is_multi_package: bool,
) -> Result<Map<Seq<char>, RegistryPackageView>, GitOnlyError> {
    run_collection(git_only_collection(list, input, is_multi_package), w)
}

/// Collecting fails where one of the searches fails; without packages it never does.
pub proof fn law_collection_outcome(
    w: GitWorld,
    list: Seq<PackageView>,
    input: UpdateRequestView,
    is_multi_package: bool,
)
    requires
        is_proper_git(w),
    ensures
        collected_in(w, list, input, is_multi_package) == if list.len() == 0 {
            Ok(Map::empty())
        } else {
            match w(GitRequestView::OpenProject)->Done_0 {
                Err(cause) => Err(GitOnlyError::OpenProject(cause)),
                Ok(_) => run_all(w, searches_for(list, input, is_multi_package), Map::empty()),
            }
        },
{
    if list.len() > 0 {
        lemma_reply(w, GitRequestView::OpenProject);
        let left = searches_for(list, input, is_multi_package);
        lemma_run_rest(w, left, Map::empty());
        reveal_with_fuel(run_collection, 2);
    }
}

/// What is known of a name once some packages were searched.
proof fn lemma_run_all(
    w: GitWorld,
    list: Seq<PackageView>,
    input: UpdateRequestView,
    is_multi_package: bool,
    found: Map<Seq<char>, RegistryPackageView>,
    name: Seq<char>,
)
    requires
        is_proper_git(w),
    ensures
        ({
            let release = last_release_in(w, input, name, is_multi_package);
            run_all(w, searches_for(list, input, is_multi_package), found) matches Ok(all) ==> {
                &&& has_name(list, name) ==> release is Ok
                &&& has_name(list, name) && release->Ok_0 is Some ==> all.contains_key(name)
                    && all[name] == release->Ok_0->0
                &&& !(has_name(list, name) && release->Ok_0 is Some) ==> (all.contains_key(name)
                    <==> found.contains_key(name)) && (found.contains_key(name) ==> all[name]
                    == found[name])
            }
        }),
    decreases list.len(),
{
    let left = searches_for(list, input, is_multi_package);
    if list.len() > 0 {
        let rest = list.drop_first();
        assert(left.drop_first() =~= searches_for(rest, input, is_multi_package));
        law_git_only_package(w, input, list[0].name, is_multi_package);
        law_release_is_of_package(w, input, list[0].name, is_multi_package);
        assert(has_name(list, name) <==> list[0].name == name || has_name(rest, name)) by {
            if has_name(rest, name) {
                let i = choose|i: int| 0 <= i < rest.len() && (#[trigger] rest[i]).name == name;
                assert(list[i + 1].name == name);
            }
            if has_name(list, name) && list[0].name != name {
                let i = choose|i: int| 0 <= i < list.len() && (#[trigger] list[i]).name == name;
                assert(rest[i - 1].name == name);
            }
        }
        match run_search(left[0], w) {
            Ok(release) => lemma_run_all(
                w,
                rest,
                input,
                is_multi_package,
                with_release(found, release),
                name,
            ),
            Err(_) => {},
        }
    }
}

/// What was collected holds, under the name of each package of the list, the last release of that
/// package if there is one, and nothing else.
pub proof fn law_collected_by_name(
    w: GitWorld,
    list: Seq<PackageView>,
    input: UpdateRequestView,
    is_multi_package: bool,
    name: Seq<char>,
)
    requires
        is_proper_git(w),
        collected_in(w, list, input, is_multi_package) is Ok,
    ensures
        ({
            let found = collected_in(w, list, input, is_multi_package)->Ok_0;
            let release = last_release_in(w, input, name, is_multi_package);
            &&& has_name(list, name) ==> release is Ok
            &&& found.contains_key(name) <==> has_name(list, name) && release->Ok_0 is Some
            &&& found.contains_key(name) ==> found[name] == release->Ok_0->0
        }),
{
    law_collection_outcome(w, list, input, is_multi_package);
    if list.len() > 0 {
        lemma_run_all(w, list, input, is_multi_package, Map::empty(), name);
    }
}

/// Once the last releases are collected, one worktree is to be kept for each package that was
/// found, and for no other: not for a package without a release tag. The worktrees are exactly the
/// names under which the releases are collected.
pub proof fn law_worktrees_to_keep(
    w: GitWorld,
    list: Seq<PackageView>,
    input: UpdateRequestView,
    is_multi_package: bool,
    name: Seq<char>,
)
    requires
        is_proper_git(w),
        collected_in(w, list, input, is_multi_package) is Ok,
    ensures
        ({
            let found = collected_in(w, list, input, is_multi_package)->Ok_0;
            let release = last_release_in(w, input, name, is_multi_package);
            let kept = GitOnlyCollectionView::Done(Ok(found)).worktrees();
            &&& kept == found.dom()
            &&& kept.contains(name) <==> has_name(list, name) && release->Ok_0 is Some
            &&& kept.contains(name) ==> found[name].package.name == name
        }),
{
    law_collected_by_name(w, list, input, is_multi_package, name);
    law_release_is_of_package(w, input, name, is_multi_package);
}

/// A search that ends without a release lets its worktree go: what was found before is kept, and
/// the next package is searched in a worktree of its own.
pub proof fn law_untagged_worktree_goes(
    search: GitOnlyPackageView,
    left: Seq<GitOnlyPackageView>,
    found: Map<Seq<char>, RegistryPackageView>,
    reply: GitReply,
)
    requires
        search.next(reply).stage matches GitOnlyStageView::Done(Ok(None)),
    ensures
        ({
            let collection = GitOnlyCollectionView::Search { search, left, found };
            let kept = collection.next(reply).worktrees();
            if left.len() == 0 {
                kept == found.dom()
            } else {
                kept == found.dom().insert(left[0].package_name)
            }
        }),
{
}

/// Each package has its last release either by a git tag or in a registry, and not in both: the
/// two lists hold all packages between them.
pub proof fn law_by_source(list: Seq<PackageView>, input: UpdateRequestView)
    ensures
        list.filter(is_git_only(input)).len() + list.filter(is_from_registry(input)).len()
            == list.len(),
        forall|p: PackageView| #[trigger]
            list.contains(p) ==> (list.filter(is_git_only(input)).contains(p) <==> !list.filter(
                is_from_registry(input),
            ).contains(p)),
    decreases list.len(),
{
    reveal(Seq::filter);
    if list.len() > 0 {
        law_by_source(list.drop_last(), input);
    }
    assert forall|p: PackageView| #[trigger] list.contains(p) implies (list.filter(
        is_git_only(input),
    ).contains(p) <==> !list.filter(is_from_registry(input)).contains(p)) by {
        lemma_filter_contains(list, is_git_only(input), p);
        lemma_filter_contains(list, is_from_registry(input), p);
    }
}

/// A name of a filtered list, for a filter that looks at names alone.
proof fn lemma_filter_name(
    list: Seq<PackageView>,
    keep: spec_fn(PackageView) -> bool,
    name: Seq<char>,
    pass: bool,
)
    requires
        forall|p: PackageView| p.name == name ==> #[trigger] keep(p) == pass,
    ensures
        has_name(list.filter(keep), name) <==> has_name(list, name) && pass,
{
    let f = list.filter(keep);
    if has_name(f, name) {
        let i = choose|i: int| 0 <= i < f.len() && (#[trigger] f[i]).name == name;
        lemma_filter_contains(list, keep, f[i]);
        let j = list.index_of(f[i]);
        assert(list[j].name == name);
    }
    if has_name(list, name) && pass {
        let i = choose|i: int| 0 <= i < list.len() && (#[trigger] list[i]).name == name;
        lemma_filter_contains(list, keep, list[i]);
        let j = f.index_of(list[i]);
        assert(f[j].name == name);
    }
}

/// A world that replies to what the next versions depend on.
pub type NextWorld = spec_fn(NextRequestView) -> NextReply;

/// The reply is one to the request.
pub open spec fn next_answers(reply: NextReply, request: NextRequestView) -> bool {
    match request {
        NextRequestView::GitOnly(request) => reply matches NextReply::GitOnly(r) && git_answers(
            r,
            request,
        ),
        NextRequestView::FetchPackages(_) => reply is Fetched,
        NextRequestView::TempRepo => reply is Done,
        NextRequestView::IsClean => reply is Done,
        NextRequestView::Git(_) => reply is Done,
        NextRequestView::PackagesToUpdate(_) => reply is Updated,
    }
}

/// Each reply is one to the request.
pub open spec fn is_proper_next(w: NextWorld) -> bool {
    forall|request: NextRequestView| next_answers(#[trigger] w(request), request)
}

/// The part of a world that replies to requests about git tags.
pub open spec fn git_part(w: NextWorld) -> GitWorld {
    |request: GitRequestView| w(NextRequestView::GitOnly(request))->GitOnly_0
}

/// How many stages are still to come, at most.
pub open spec fn stages_left(versions: NextVersionsView) -> nat {
    match versions.stage {
        NextStageView::GitOnly(_) => 6,
        NextStageView::Fetch { .. } => 5,
        NextStageView::TempRepo { .. } => 4,
        NextStageView::IsClean { .. } => 3,
        NextStageView::Stash { .. } => 2,
        NextStageView::Update { .. } => 1,
        NextStageView::Done(_) => 0,
    }
}

/// The collecting by git tags that goes on, if one does.
pub open spec fn collection_of(versions: NextVersionsView) -> GitOnlyCollectionView {
    match versions.stage {
        NextStageView::GitOnly(collection) => collection,
        _ => GitOnlyCollectionView::Done(Ok(Map::empty())),
    }
}

/// The outcome of determining the next versions, with the replies of a world.
pub open spec fn run_next(versions: NextVersionsView, w: NextWorld) -> Result<
    PackagesUpdate,
    NextVersionsError,
>
    decreases
            stages_left(versions),
            searches_left(collection_of(versions)),
            collection_replies_left(collection_of(versions)),
{
    match versions.stage {
        NextStageView::Done(update) => update,
        _ => run_next(versions.next(w(versions.asks()->0)), w),
    }
}

/// The last releases of the packages of a workspace.
pub open spec fn releases_in(
    w: NextWorld,
    input: UpdateRequestView,
    metadata: MetadataView,
    publishable: Seq<PackageView>,
) -> Result<Map<Seq<char>, RegistryPackageView>, NextVersionsError> {
    let git_only = members(metadata).filter(is_git_only(input));
    let to_fetch = fetched_members(input, metadata, publishable);
    match collected_in(git_part(w), git_only, input, publishable.len() > 1) {
        Err(error) => Err(NextVersionsError::GitOnly(error)),
        Ok(found) => if to_fetch.len() == 0 {
            Ok(found)
        } else {
            match w(NextRequestView::FetchPackages(to_fetch))->Fetched_0 {
                Err(cause) => Err(NextVersionsError::Fetch(cause)),
                Ok(fetched) => Ok(found.union_prefer_right(releases_of(to_fetch, fetched@))),
            }
        },
    }
}

/// Whether the copy of the repository can be worked in: it is clean, or the changes in it are
/// accepted and stashed.
pub open spec fn prepared_in(w: NextWorld, allow_dirty: bool) -> Result<(), NextVersionsError> {
    match w(NextRequestView::TempRepo)->Done_0 {
        Err(cause) => Err(NextVersionsError::TempRepo(cause)),
        Ok(_) => match w(NextRequestView::IsClean)->Done_0 {
            Ok(_) => Ok(()),
            Err(cause) => if !allow_dirty {
                Err(NextVersionsError::NotClean(cause))
            } else {
                match w(NextRequestView::Git(stash_args()))->Done_0 {
                    Ok(_) => Ok(()),
                    Err(cause) => Err(NextVersionsError::Stash(cause)),
                }
            },
        },
    }
}

/// What updating the packages gives, compared with the last releases.
pub open spec fn updated_in(
    w: NextWorld,
    allow_dirty: bool,
    releases: Map<Seq<char>, RegistryPackageView>,
) -> Result<PackagesUpdate, NextVersionsError> {
    match prepared_in(w, allow_dirty) {
        Err(error) => Err(error),
        Ok(_) => match w(NextRequestView::PackagesToUpdate(releases))->Updated_0 {
            Ok(update) => Ok(update),
            Err(cause) => Err(NextVersionsError::Update(cause)),
        },
    }
}

proof fn lemma_next_reply(w: NextWorld, request: NextRequestView)
    requires
        is_proper_next(w),
    ensures
        next_answers(w(request), request),
{
}

proof fn lemma_run_from_repo(
    w: NextWorld,
    allow_dirty: bool,
    to_fetch: Seq<PackageView>,
    kept: Set<Seq<char>>,
    releases: Map<Seq<char>, RegistryPackageView>,
)
    requires
        is_proper_next(w),
    ensures
        run_next(
            (NextVersionsView {
                allow_dirty,
                to_fetch,
                kept,
                stage: NextStageView::TempRepo { releases },
            }),
            w,
        ) == updated_in(w, allow_dirty, releases),
{
    reveal_with_fuel(run_next, 5);
    lemma_next_reply(w, NextRequestView::TempRepo);
    lemma_next_reply(w, NextRequestView::IsClean);
    lemma_next_reply(w, NextRequestView::Git(stash_args()));
    lemma_next_reply(w, NextRequestView::PackagesToUpdate(releases));
}

proof fn lemma_run_from_tags(
    w: NextWorld,
    allow_dirty: bool,
    to_fetch: Seq<PackageView>,
    kept: Set<Seq<char>>,
    found: Map<Seq<char>, RegistryPackageView>,
)
    requires
        is_proper_next(w),
    ensures
        run_next(
            (NextVersionsView {
                allow_dirty,
                to_fetch,
                kept,
                stage: git_tags_done(found, to_fetch),
            }),
            w,
        ) == if to_fetch.len() == 0 {
            updated_in(w, allow_dirty, found)
        } else {
            match w(NextRequestView::FetchPackages(to_fetch))->Fetched_0 {
                Err(cause) => Err(NextVersionsError::Fetch(cause)),
                Ok(fetched) => updated_in(
                    w,
                    allow_dirty,
                    found.union_prefer_right(releases_of(to_fetch, fetched@)),
                ),
            }
        },
{
    lemma_next_reply(w, NextRequestView::FetchPackages(to_fetch));
    if to_fetch.len() == 0 {
        lemma_run_from_repo(w, allow_dirty, to_fetch, kept, found);
    } else {
        reveal_with_fuel(run_next, 2);
        match w(NextRequestView::FetchPackages(to_fetch))->Fetched_0 {
            Ok(fetched) => lemma_run_from_repo(
                w,
                allow_dirty,
                to_fetch,
                kept,
                found.union_prefer_right(releases_of(to_fetch, fetched@)),
            ),
            Err(_) => {},
        }
    }
}

/// A collecting that asks for something as long as it is not done.
spec fn asks_until_done(collection: GitOnlyCollectionView) -> bool {
    match collection {
        GitOnlyCollectionView::Search { search, left, .. } => search_goes_on(search) && (forall|
            i: int,
        |
            0 <= i < left.len() ==> search_goes_on(#[trigger] left[i])),
        GitOnlyCollectionView::Open { left } => forall|i: int|
            0 <= i < left.len() ==> search_goes_on(#[trigger] left[i]),
        GitOnlyCollectionView::Done(_) => true,
    }
}

/// A search that is not done, and asks for something.
spec fn search_goes_on(search: GitOnlyPackageView) -> bool {
    match search.stage {
        GitOnlyStageView::Done(_) => false,
        GitOnlyStageView::Worktree { setup, .. } => !(setup.stage is Done),
        _ => true,
    }
}

proof fn lemma_run_collection(
    w: NextWorld,
    allow_dirty: bool,
    to_fetch: Seq<PackageView>,
    collection: GitOnlyCollectionView,
)
    requires
        is_proper_next(w),
        asks_until_done(collection),
    ensures
        run_next(
            (NextVersionsView {
                allow_dirty,
                to_fetch,
                kept: collection.worktrees(),
                stage: after_collection(collection, to_fetch),
            }),
            w,
        ) == match run_collection(collection, git_part(w)) {
            Err(error) => Err(NextVersionsError::GitOnly(error)),
            Ok(found) => run_next(
                (NextVersionsView {
                    allow_dirty,
                    to_fetch,
                    kept: found.dom(),
                    stage: git_tags_done(found, to_fetch),
                }),
                w,
            ),
        },
    decreases searches_left(collection), collection_replies_left(collection),
{
    match collection {
        GitOnlyCollectionView::Done(_) => {},
        _ => {
            let request = collection.asks()->0;
            lemma_next_reply(w, NextRequestView::GitOnly(request));
            let reply = git_part(w)(request);
            assert(collection.asks() is Some);
            lemma_run_collection(w, allow_dirty, to_fetch, collection.next(reply));
        },
    }
}

/// Determining the next versions gives what updating the packages gives, compared with their last
/// releases; it fails where these cannot be collected, and then where the copy of the repository
/// cannot be worked in.
pub proof fn law_next_versions(
    w: NextWorld,
    input: UpdateRequestView,
    metadata: MetadataView,
    publishable: Seq<PackageView>,
)
    requires
        is_proper_next(w),
    ensures
        run_next(next_versions_of(input, metadata, publishable), w) == match releases_in(
            w,
            input,
            metadata,
            publishable,
        ) {
            Err(error) => Err(error),
            Ok(releases) => updated_in(w, input.allow_dirty, releases),
        },
{
    let git_only = members(metadata).filter(is_git_only(input));
    let to_fetch = fetched_members(input, metadata, publishable);
    let collection = git_only_collection(git_only, input, publishable.len() > 1);
    lemma_run_collection(w, input.allow_dirty, to_fetch, collection);
    match run_collection(collection, git_part(w)) {
        Ok(found) => lemma_run_from_tags(w, input.allow_dirty, to_fetch, found.dom(), found),
        Err(_) => {},
    }
}

/// The packages are compared with these last releases: for a member of the workspace that is
/// configured so, the one that its git tag leads to, and for any other member with the name of a
/// package that can be published, the one in the registry.
pub proof fn law_releases_by_name(
    w: NextWorld,
    input: UpdateRequestView,
    metadata: MetadataView,
    publishable: Seq<PackageView>,
    name: Seq<char>,
)
    requires
        is_proper_next(w),
        releases_in(w, input, metadata, publishable) is Ok,
    ensures
        ({
            let releases = releases_in(w, input, metadata, publishable)->Ok_0;
            let by_tag = last_release_in(git_part(w), input, name, publishable.len() > 1);
            let fetched = w(
                NextRequestView::FetchPackages(fetched_members(input, metadata, publishable)),
            )->Fetched_0->Ok_0@;
            if !has_name(members(metadata), name) {
                !releases.contains_key(name)
            } else if input.config(name).git_only {
                &&& by_tag is Ok
                &&& releases.contains_key(name) <==> by_tag->Ok_0 is Some
                &&& releases.contains_key(name) ==> releases[name] == by_tag->Ok_0->0
            } else {
                &&& releases.contains_key(name) <==> has_name(publishable, name)
                    && fetched.contains_key(name)
                &&& releases.contains_key(name) ==> releases[name] == fetched[name]
            }
        }),
{
    let all = members(metadata);
    let git_only = all.filter(is_git_only(input));
    let registry = all.filter(is_from_registry(input));
    let to_fetch = fetched_members(input, metadata, publishable);
    lemma_filter_name(all, is_git_only(input), name, input.config(name).git_only);
    lemma_filter_name(all, is_from_registry(input), name, !input.config(name).git_only);
    lemma_filter_name(registry, is_named_in(publishable), name, has_name(publishable, name));
    assert forall|request: GitRequestView| git_answers(
        #[trigger] git_part(w)(request),
        request,
    ) by {
        lemma_next_reply(w, NextRequestView::GitOnly(request));
    }
    law_collected_by_name(git_part(w), git_only, input, publishable.len() > 1, name);
    if to_fetch.len() == 0 {
        assert(!has_name(to_fetch, name));
    }
}

/// With changes that are not committed nothing is updated, unless the user accepts them.
pub proof fn law_dirty_is_refused(
    w: NextWorld,
    input: UpdateRequestView,
    metadata: MetadataView,
    publishable: Seq<PackageView>,
)
    requires
        is_proper_next(w),
        !input.allow_dirty,
        w(NextRequestView::IsClean)->Done_0 is Err,
    ensures
        run_next(next_versions_of(input, metadata, publishable), w) is Err,
{
    law_next_versions(w, input, metadata, publishable);
}

/// Changes are stashed only where there are some and the user accepts them.
pub proof fn law_stash(versions: NextVersionsView, reply: NextReply)
    requires
        !(versions.stage is Stash),
    ensures
        versions.next(reply).stage is Stash ==> versions.allow_dirty && versions.stage is IsClean
            && (reply matches NextReply::Done(Err(_))),
{
}

/// The worktrees with the releases that were found by their git tags are kept from then on, until
/// the next versions are determined.
pub proof fn law_worktrees_are_kept(versions: NextVersionsView, reply: NextReply)
    requires
        !(versions.next(reply).stage is GitOnly),
        !(versions.next(reply).stage is Done),
    ensures
        versions.stage matches NextStageView::GitOnly(collection) ==> reply is GitOnly && (
        collection.next(reply->GitOnly_0) matches GitOnlyCollectionView::Done(Ok(found))
            && versions.next(reply).worktrees() == found.dom()),
        !(versions.stage is GitOnly) ==> versions.next(reply).worktrees() == versions.worktrees(),
{
}

/// A member of the workspace is searched by its git tag exactly where it is configured so; the
/// others are those of the registry.
pub proof fn law_source_of_package(list: Seq<PackageView>, input: UpdateRequestView, p: PackageView)
    ensures
        list.filter(is_git_only(input)).contains(p) <==> list.contains(p) && input.config(
            p.name,
        ).git_only,
        list.filter(is_from_registry(input)).contains(p) <==> list.contains(p) && !input.config(
            p.name,
        ).git_only,
{
    lemma_filter_contains(list, is_git_only(input), p);
    lemma_filter_contains(list, is_from_registry(input), p);
}

/// The releases that are collected from a registry are those that were fetched for a package of the
/// list, unchanged.
pub proof fn law_releases_of(
    list: Seq<PackageView>,
    fetched: Map<Seq<char>, RegistryPackageView>,
    name: Seq<char>,
)
    ensures
        releases_of(list, fetched).contains_key(name) <==> fetched.contains_key(name) && exists|
            p: PackageView,
        | #[trigger] list.contains(p) && p.name == name,
        releases_of(list, fetched).contains_key(name) ==> releases_of(list, fetched)[name]
            == fetched[name],
{
    law_names(list, name);
}

/// A package is a member of the workspace, and is configured to be found by its git tag.
pub open spec fn is_found_by_tag(
    input: UpdateRequestView,
    metadata: MetadataView,
    p: PackageView,
) -> bool {
    &&& metadata.packages.contains(p)
    &&& metadata.workspace_members.contains(p.id)
    &&& input.config(p.name).git_only
}

/// A search is the one for a package that is found by its git tag.
pub open spec fn is_search_by_tag(
    input: UpdateRequestView,
    metadata: MetadataView,
    several: bool,
    search: GitOnlyPackageView,
) -> bool {
    exists|p: PackageView| #[trigger]
        is_found_by_tag(input, metadata, p) && search == git_only_search(input, p.name, several)
}

/// The next versions of a project begin with the members that are found by their git tags, where
/// there are any: there is a search for each of them, and no other one. Default templates are those
/// of a project with several packages exactly where more than one can be published.
pub proof fn law_next_versions_begin(
    input: UpdateRequestView,
    metadata: MetadataView,
    publishable: Seq<PackageView>,
    p: PackageView,
    i: int,
)
    ensures
        ({
            let start = next_versions_of(input, metadata, publishable);
            let left = start.stage->GitOnly_0->Open_left;
            let several = publishable.len() >= 2;
            &&& start.allow_dirty == input.allow_dirty
            &&& is_found_by_tag(input, metadata, p) ==> start.stage is GitOnly
                && start.stage->GitOnly_0 is Open && start.asks() == Some(
                NextRequestView::GitOnly(GitRequestView::OpenProject),
            ) && left.contains(git_only_search(input, p.name, several))
            &&& start.stage is GitOnly && 0 <= i < left.len() ==> is_search_by_tag(
                input,
                metadata,
                several,
                left[i],
            )
            &&& start.stage is GitOnly ==> left.len() > 0
        }),
{
    let list = members(metadata).filter(is_git_only(input));
    let several = publishable.len() >= 2;
    let left = searches_for(list, input, several);
    law_members(metadata, p);
    law_source_of_package(members(metadata), input, p);
    if is_found_by_tag(input, metadata, p) {
        assert(list.contains(p));
        let k = list.index_of(p);
        assert(left[k] == git_only_search(input, p.name, several));
        assert(left.contains(left[k]));
    }
    if 0 <= i < left.len() {
        assert(list.contains(list[i]));
        law_members(metadata, list[i]);
        law_source_of_package(members(metadata), input, list[i]);
        assert(is_found_by_tag(input, metadata, list[i]));
        assert(left[i] == git_only_search(input, list[i].name, several));
    }
}

/// A reply to another request ends a search with an error; once it is done, no reply changes it.
pub proof fn law_search_and_other_replies(search: GitOnlyPackageView, reply: GitReply)
    ensures
        search.asks() is Some && !git_answers(reply, search.asks()->0) ==> search.next(reply).stage
            == GitOnlyStageView::Done(
            Err(
                if search.stage is Worktree {
                    GitOnlyError::Worktree(WorktreeError::UnexpectedReply)
                } else {
                    GitOnlyError::UnexpectedReply
                },
            ),
        ),
        search.stage is Done ==> search.asks() is None && search.next(reply) == search,
        search.next(reply).package_name == search.package_name,
{
}

/// A reply to another request ends the determining of the next versions with an error; once it is
/// done, no reply changes it.
pub proof fn law_next_versions_and_other_replies(versions: NextVersionsView, reply: NextReply)
    ensures
        !(versions.stage is GitOnly) && versions.asks() is Some && !next_answers(
            reply,
            versions.asks()->0,
        ) ==> versions.next(reply).stage == NextStageView::Done(
            Err(NextVersionsError::UnexpectedReply),
        ),
        versions.stage is GitOnly && !(reply is GitOnly) ==> versions.next(reply).stage
            == NextStageView::Done(Err(NextVersionsError::UnexpectedReply)),
        versions.stage is Done ==> versions.asks() is None && versions.next(reply) == versions,
        versions.next(reply).to_fetch == versions.to_fetch,
        versions.next(reply).allow_dirty == versions.allow_dirty,
{
}

/// A release that is found is kept under the name of its package, with what was found before; where
/// none is found, nothing changes.
pub proof fn law_with_release(
    found: Map<Seq<char>, RegistryPackageView>,
    release: RegistryPackageView,
    other: Seq<char>,
)
    ensures
        ({
            let more = with_release(found, Some(release));
            &&& more.contains_key(release.package.name)
            &&& more[release.package.name] == release
            &&& other != release.package.name ==> (more.contains_key(other) <==> found.contains_key(
                other,
            ))
            &&& other != release.package.name && found.contains_key(other) ==> more[other]
                == found[other]
            &&& with_release(found, None) == found
        }),
{
}

} // verus!
