//! Collecting the last releases of packages, from git tags and from a registry.

use vstd::prelude::*;

use crate::git_only::{
    git_asked, git_only_search, process_git_only_package, GitOnlyError, GitOnlyPackage,
    GitOnlyPackageView, GitOnlyStageView, GitReply, GitRequest, GitRequestView,
};
use crate::order::texts;
use crate::package::{has_name, lemma_filter_step, packages, Package, PackageView};
use crate::registry::{PackageMap, PackagesCollection, RegistryPackage, RegistryPackageView};
use crate::text::{clone_texts, has_entry, is_text};
use crate::update_request::{UpdateRequest, UpdateRequestView};

verus! {

/// The packages whose last release is found by a git tag.
pub open spec fn is_git_only(input: UpdateRequestView) -> spec_fn(PackageView) -> bool {
    |p: PackageView| input.config(p.name).git_only
}

/// The packages whose last release is found in a registry.
pub open spec fn is_from_registry(input: UpdateRequestView) -> spec_fn(PackageView) -> bool {
    |p: PackageView| !input.config(p.name).git_only
}

/// Parts packages by where their last release is found: by a git tag, or in a registry.
pub fn by_source(list: &Vec<Package>, input: &UpdateRequest) -> (r: (Vec<Package>, Vec<Package>))
    ensures
        packages(r.0@) == packages(list@).filter(is_git_only(input@)),
        packages(r.1@) == packages(list@).filter(is_from_registry(input@)),
{
    let ghost all = packages(list@);
    let mut git_only: Vec<Package> = Vec::new();
    let mut from_registry: Vec<Package> = Vec::new();
    let mut i: usize = 0;
    assert(packages(git_only@) =~= all.take(0).filter(is_git_only(input@)));
    assert(packages(from_registry@) =~= all.take(0).filter(is_from_registry(input@)));
    while i < list.len()
        invariant
            i <= list@.len(),
            all == packages(list@),
            packages(git_only@) == all.take(i as int).filter(is_git_only(input@)),
            packages(from_registry@) == all.take(i as int).filter(is_from_registry(input@)),
        decreases list@.len() - i,
    {
        let package = &list[i];
        let ghost before = (git_only@, from_registry@);
        proof {
            lemma_filter_step(all, is_git_only(input@), i as int);
            lemma_filter_step(all, is_from_registry(input@), i as int);
            assert(all[i as int] == package@);
        }
        if input.should_use_git_only(package.name.as_str()) {
            git_only.push(package.clone());
            assert(packages(git_only@) =~= packages(before.0).push(package@));
        } else {
            from_registry.push(package.clone());
            assert(packages(from_registry@) =~= packages(before.1).push(package@));
        }
        i += 1;
    }
    assert(all.take(all.len() as int) =~= all);
    (git_only, from_registry)
}

/// The collecting of the last releases of packages by their git tags.
#[derive(Debug, PartialEq)]
pub struct GitOnlyCollection {
    stage: CollectStage,
}

/// How far the collecting has come.
#[derive(Debug, PartialEq)]
enum CollectStage {
    Open { left: Vec<GitOnlyPackage> },
    Search { search: GitOnlyPackage, left: Vec<GitOnlyPackage>, found: PackageMap },
    Done(Result<PackageMap, GitOnlyError>),
}

/// What the collecting of the last releases of packages by their git tags stands for.
pub ghost enum GitOnlyCollectionView {
    /// The repository of the project is opened.
    Open { left: Seq<GitOnlyPackageView> },
    /// The last release of one package is searched.
    Search {
        search: GitOnlyPackageView,
        left: Seq<GitOnlyPackageView>,
        found: Map<Seq<char>, RegistryPackageView>,
    },
    /// The last releases are known, by the names of the released packages.
    Done(Result<Map<Seq<char>, RegistryPackageView>, GitOnlyError>),
}

/// What a list of searches stands for.
pub open spec fn searches(v: Seq<GitOnlyPackage>) -> Seq<GitOnlyPackageView> {
    v.map_values(|s: GitOnlyPackage| s@)
}

/// What packages that were collected, or the error in their place, stand for.
pub open spec fn collected(found: Result<PackageMap, GitOnlyError>) -> Result<
    Map<Seq<char>, RegistryPackageView>,
    GitOnlyError,
> {
    match found {
        Ok(found) => Ok(found@),
        Err(error) => Err(error),
    }
}

spec fn stage_view(stage: CollectStage) -> GitOnlyCollectionView {
    match stage {
        CollectStage::Open { left } => GitOnlyCollectionView::Open { left: searches(left@) },
        CollectStage::Search { search, left, found } => GitOnlyCollectionView::Search {
            search: search@,
            left: searches(left@),
            found: found@,
        },
        CollectStage::Done(found) => GitOnlyCollectionView::Done(collected(found)),
    }
}

impl View for GitOnlyCollection {
    type V = GitOnlyCollectionView;

    closed spec fn view(&self) -> GitOnlyCollectionView {
        stage_view(self.stage)
    }
}

/// The searches for the last releases of packages.
pub open spec fn searches_for(
    list: Seq<PackageView>,
    input: UpdateRequestView,
    is_multi_package: bool,
) -> Seq<GitOnlyPackageView> {
    list.map_values(|p: PackageView| git_only_search(input, p.name, is_multi_package))
}

/// The collecting begins. Without packages there is nothing to ask for.
pub open spec fn git_only_collection(
    list: Seq<PackageView>,
    input: UpdateRequestView,
    is_multi_package: bool,
) -> GitOnlyCollectionView {
    if list.len() == 0 {
        GitOnlyCollectionView::Done(Ok(Map::empty()))
    } else {
        GitOnlyCollectionView::Open { left: searches_for(list, input, is_multi_package) }
    }
}

/// The collecting goes on with the next search.
pub open spec fn next_search(
    left: Seq<GitOnlyPackageView>,
    found: Map<Seq<char>, RegistryPackageView>,
) -> GitOnlyCollectionView {
    if left.len() == 0 {
        GitOnlyCollectionView::Done(Ok(found))
    } else {
        GitOnlyCollectionView::Search { search: left[0], left: left.drop_first(), found }
    }
}

/// The packages that were found, with one more if there is one.
pub open spec fn with_release(
    found: Map<Seq<char>, RegistryPackageView>,
    release: Option<RegistryPackageView>,
) -> Map<Seq<char>, RegistryPackageView> {
    match release {
        Some(release) => found.insert(release.package.name, release),
        None => found,
    }
}

/// The collecting after a step of a search.
pub open spec fn after_step(
    search: GitOnlyPackageView,
    left: Seq<GitOnlyPackageView>,
    found: Map<Seq<char>, RegistryPackageView>,
) -> GitOnlyCollectionView {
    match search.stage {
        GitOnlyStageView::Done(Ok(release)) => next_search(left, with_release(found, release)),
        GitOnlyStageView::Done(Err(error)) => GitOnlyCollectionView::Done(Err(error)),
        _ => GitOnlyCollectionView::Search { search, left, found },
    }
}

impl GitOnlyCollectionView {
    /// What is asked for.
    pub open spec fn asks(self) -> Option<GitRequestView> {
        match self {
            GitOnlyCollectionView::Open { .. } => Some(GitRequestView::OpenProject),
            GitOnlyCollectionView::Search { search, .. } => search.asks(),
            GitOnlyCollectionView::Done(_) => None,
        }
    }

    /// The worktrees that must not go away: those of the packages that were found, because their
    /// files are still to be read, and the one that is searched in. The worktree of a package
    /// without a release tag is of no use any more. Without a result there is none to keep.
    pub open spec fn worktrees(self) -> Set<Seq<char>> {
        match self {
            GitOnlyCollectionView::Search { search, found, .. } => found.dom().insert(
                search.package_name,
            ),
            GitOnlyCollectionView::Done(Ok(found)) => found.dom(),
            _ => Set::empty(),
        }
    }

    /// What follows a reply to what is asked for.
    pub open spec fn next(self, reply: GitReply) -> GitOnlyCollectionView {
        match (self, reply) {
            (GitOnlyCollectionView::Done(_), _) => self,
            (GitOnlyCollectionView::Open { left }, GitReply::Done(done)) => match done {
                Ok(_) => next_search(left, Map::empty()),
                Err(cause) => GitOnlyCollectionView::Done(Err(GitOnlyError::OpenProject(cause))),
            },
            (GitOnlyCollectionView::Search { search, left, found }, _) => after_step(
                search.next(reply),
                left,
                found,
            ),
            _ => GitOnlyCollectionView::Done(Err(GitOnlyError::UnexpectedReply)),
        }
    }
}

/// Collects the last releases of packages by their git tags, one package after the other.
///
/// A package without a release tag is left out.
pub fn collect_git_only_packages(
    git_only_packages: &Vec<Package>,
    input: &UpdateRequest,
    is_multi_package: bool,
) -> (r: GitOnlyCollection)
    ensures
        r@ == git_only_collection(packages(git_only_packages@), input@, is_multi_package),
{
    if git_only_packages.len() == 0 {
        return GitOnlyCollection { stage: CollectStage::Done(Ok(PackageMap::new())) };
    }
    let ghost all = packages(git_only_packages@);
    let mut left: Vec<GitOnlyPackage> = Vec::new();
    let mut i: usize = 0;
    while i < git_only_packages.len()
        invariant
            i <= git_only_packages@.len(),
            all == packages(git_only_packages@),
            searches(left@) == searches_for(all.take(i as int), input@, is_multi_package),
        decreases git_only_packages@.len() - i,
    {
        let ghost before = left@;
        let search = process_git_only_package(
            git_only_packages[i].name.as_str(),
            input,
            is_multi_package,
        );
        proof {
            assert(all[i as int] == git_only_packages@[i as int]@);
            assert(all.take(i + 1) =~= all.take(i as int).push(all[i as int]));
            assert(searches_for(all.take(i + 1), input@, is_multi_package) =~= searches_for(
                all.take(i as int),
                input@,
                is_multi_package,
            ).push(search@));
        }
        left.push(search);
        assert(searches(left@) =~= searches(before).push(search@));
        i += 1;
    }
    assert(all.take(all.len() as int) =~= all);
    GitOnlyCollection { stage: CollectStage::Open { left } }
}

/// The stage that goes on with the next search.
fn go_on(left: Vec<GitOnlyPackage>, found: PackageMap) -> (r: CollectStage)
    ensures
        stage_view(r) == next_search(searches(left@), found@),
{
    if left.len() == 0 {
        CollectStage::Done(Ok(found))
    } else {
        let mut left = left;
        let ghost before = left@;
        let search = left.remove(0);
        assert(searches(left@) =~= searches(before).drop_first());
        CollectStage::Search { search, left, found }
    }
}

/// The stage after a step of a search.
fn go_on_after(search: GitOnlyPackage, left: Vec<GitOnlyPackage>, found: PackageMap) -> (r:
    CollectStage)
    ensures
        stage_view(r) == after_step(search@, searches(left@), found@),
{
    if search.is_done() {
        match search.result() {
            Some(Ok(release)) => {
                let mut found = found;
                if let Some(release) = release {
                    found.insert(release.package().name.clone(), release);
                }
                go_on(left, found)
            },
            Some(Err(error)) => CollectStage::Done(Err(error)),
            None => CollectStage::Done(Err(GitOnlyError::UnexpectedReply)),
        }
    } else {
        CollectStage::Search { search, left, found }
    }
}

impl GitOnlyCollection {
    /// What is asked for; nothing when it is done.
    pub fn request(&self) -> (r: Option<GitRequest>)
        ensures
            git_asked(r) == self@.asks(),
    {
        match &self.stage {
            CollectStage::Open { .. } => Some(GitRequest::OpenProject),
            CollectStage::Search { search, .. } => search.request(),
            CollectStage::Done(_) => None,
        }
    }

    /// Goes on with the reply to what was asked for.
    pub fn reply(self, reply: GitReply) -> (r: GitOnlyCollection)
        ensures
            r@ == self@.next(reply),
    {
        let stage = match (self.stage, reply) {
            (CollectStage::Done(found), _) => CollectStage::Done(found),
            (CollectStage::Open { left }, GitReply::Done(done)) => match done {
                Ok(_) => go_on(left, PackageMap::new()),
                Err(cause) => CollectStage::Done(Err(GitOnlyError::OpenProject(cause))),
            },
            (CollectStage::Search { search, left, found }, reply) => go_on_after(
                search.reply(reply),
                left,
                found,
            ),
            _ => CollectStage::Done(Err(GitOnlyError::UnexpectedReply)),
        };
        GitOnlyCollection { stage }
    }

    /// The names of the worktrees that must not go away, each of them once. Once the collecting is
    /// done, these are the names of the packages that were found.
    pub fn worktrees(&self) -> (r: Vec<String>)
        ensures
            texts(r@).to_set() == self@.worktrees(),
            r@.len() == self@.worktrees().len(),
            self@ matches GitOnlyCollectionView::Done(Ok(found)) ==> texts(r@).to_set()
                == found.dom(),
    {
        let mut r: Vec<String> = Vec::new();
        match &self.stage {
            CollectStage::Search { search, found, .. } => {
                r = names_in(found);
                if !has_entry(&r, search.package_name()) {
                    let ghost before = r@;
                    r.push(search.package_name().to_owned());
                    proof {
                        let name = search@.package_name;
                        assert(texts(r@) =~= texts(before).push(name));
                        assert(texts(r@).to_set() =~= texts(before).to_set().insert(name)) by {
                            assert forall|x: Seq<char>| texts(before).contains(x) || x
                                == name implies texts(r@).contains(x) by {
                                if texts(before).contains(x) {
                                    let i = texts(before).index_of(x);
                                    assert(texts(r@)[i] == x);
                                } else {
                                    assert(texts(r@)[before.len() as int] == x);
                                }
                            }
                        }
                    }
                } else {
                    assert(found@.dom().insert(search@.package_name) =~= found@.dom()) by {
                        assert(texts(r@).to_set().contains(search@.package_name));
                    }
                }
            },
            CollectStage::Done(Ok(found)) => {
                r = names_in(found);
            },
            _ => {
                assert(texts(r@).to_set() =~= Set::empty());
            },
        }
        proof {
            texts(r@).unique_seq_to_set();
        }
        r
    }

    /// Whether the collecting is done.
    pub fn is_done(&self) -> (r: bool)
        ensures
            r == (self@ is Done),
    {
        matches!(self.stage, CollectStage::Done(_))
    }

    /// The last releases, by the names of the released packages; nothing while the collecting is
    /// not done.
    pub fn result(self) -> (r: Option<Result<PackageMap, GitOnlyError>>)
        ensures
            match r {
                Some(found) => self@ == GitOnlyCollectionView::Done(collected(found)),
                None => !(self@ is Done),
            },
    {
        match self.stage {
            CollectStage::Done(found) => Some(found),
            _ => None,
        }
    }
}

/// The names of released packages, each of them once.
fn names_in(found: &PackageMap) -> (r: Vec<String>)
    ensures
        texts(r@).to_set() == found@.dom(),
        texts(r@).no_duplicates(),
{
    let names = found.names();
    let r = clone_texts(names);
    proof {
        assert forall|i: int, j: int|
            0 <= i < texts(r@).len() && 0 <= j < texts(r@).len() && i != j implies texts(r@)[i]
            != texts(r@)[j] by {
            assert(texts(r@)[i] == texts(names@)[i]);
            assert(texts(r@)[j] == texts(names@)[j]);
            if i < j {
                assert(names@[i]@ != names@[j]@);
            } else {
                assert(names@[j]@ != names@[i]@);
            }
        }
    }
    r
}

/// Which packages have a name that a package of the list has.
pub open spec fn is_named_in(list: Seq<PackageView>) -> spec_fn(PackageView) -> bool {
    |p: PackageView| has_name(list, p.name)
}

/// Whether a package of the list has the name.
fn any_has_name(list: &Vec<Package>, name: &str) -> (r: bool)
    ensures
        r == has_name(packages(list@), name@),
{
    let ghost all = packages(list@);
    let mut i: usize = 0;
    while i < list.len()
        invariant
            i <= list@.len(),
            all == packages(list@),
            forall|k: int| 0 <= k < i ==> (#[trigger] all[k]).name != name@,
        decreases list@.len() - i,
    {
        assert(all[i as int] == list@[i as int]@);
        if is_text(list[i].name.as_str(), name) {
            return true;
        }
        i += 1;
    }
    false
}

/// The packages whose last release is to be fetched from a registry: those with the name of a
/// package that can be published.
pub fn packages_to_fetch(
    registry_packages_list: &Vec<Package>,
    publishable_packages: &Vec<Package>,
) -> (r: Vec<Package>)
    ensures
        packages(r@) == packages(registry_packages_list@).filter(
            is_named_in(packages(publishable_packages@)),
        ),
{
    let ghost all = packages(registry_packages_list@);
    let ghost keep = is_named_in(packages(publishable_packages@));
    let mut out: Vec<Package> = Vec::new();
    let mut i: usize = 0;
    assert(packages(out@) =~= all.take(0).filter(keep));
    while i < registry_packages_list.len()
        invariant
            i <= registry_packages_list@.len(),
            all == packages(registry_packages_list@),
            keep == is_named_in(packages(publishable_packages@)),
            packages(out@) == all.take(i as int).filter(keep),
        decreases registry_packages_list@.len() - i,
    {
        let package = &registry_packages_list[i];
        let ghost before = out@;
        proof {
            lemma_filter_step(all, keep, i as int);
            assert(all[i as int] == package@);
        }
        if any_has_name(publishable_packages, package.name.as_str()) {
            out.push(package.clone());
            assert(packages(out@) =~= packages(before).push(package@));
        }
        i += 1;
    }
    assert(all.take(all.len() as int) =~= all);
    out
}

/// The released packages that have a name of the list.
pub open spec fn releases_of(
    list: Seq<PackageView>,
    fetched: Map<Seq<char>, RegistryPackageView>,
) -> Map<Seq<char>, RegistryPackageView> {
    Map::new(
        |name: Seq<char>| has_name(list, name) && fetched.contains_key(name),
        |name: Seq<char>| fetched[name],
    )
}

/// The last releases of packages, out of what was fetched from a registry. A package that was
/// never published is left out.
pub fn collect_registry_packages(
    publishable_registry_packages: &Vec<Package>,
    registry_packages: &PackagesCollection,
) -> (r: PackageMap)
    ensures
        r@ == releases_of(packages(publishable_registry_packages@), registry_packages@),
{
    let ghost all = packages(publishable_registry_packages@);
    let ghost fetched = registry_packages@;
    let mut out = PackageMap::new();
    let mut i: usize = 0;
    assert(out@ =~= releases_of(all.take(0), fetched));
    while i < publishable_registry_packages.len()
        invariant
            i <= publishable_registry_packages@.len(),
            all == packages(publishable_registry_packages@),
            fetched == registry_packages@,
            out@ == releases_of(all.take(i as int), fetched),
        decreases publishable_registry_packages@.len() - i,
    {
        let name = &publishable_registry_packages[i].name;
        let ghost before = out@;
        proof {
            assert(all[i as int].name == name@);
            lemma_one_name_more(all, i as int);
        }
        match registry_packages.get_registry_package(name.as_str()) {
            Some(release) => {
                let sha1 = match release.published_at_sha1() {
                    Some(sha1) => Some(sha1.to_owned()),
                    None => None,
                };
                out.insert(name.clone(), RegistryPackage::new(release.package().clone(), sha1));
                assert(out@ =~= releases_of(all.take(i + 1), fetched));
            },
            None => {
                assert(out@ =~= releases_of(all.take(i + 1), fetched));
            },
        }
        i += 1;
    }
    assert(all.take(all.len() as int) =~= all);
    out
}

proof fn lemma_one_name_more(list: Seq<PackageView>, i: int)
    requires
        0 <= i < list.len(),
    ensures
        forall|name: Seq<char>| #[trigger]
            has_name(list.take(i + 1), name) <==> has_name(list.take(i), name) || name
                == list[i].name,
{
    let head = list.take(i);
    let next = list.take(i + 1);
    assert forall|name: Seq<char>| #[trigger] has_name(next, name) <==> has_name(head, name) || name
        == list[i].name by {
        if has_name(head, name) {
            let k = choose|k: int| 0 <= k < head.len() && (#[trigger] head[k]).name == name;
            assert(next[k].name == name);
        }
        if name == list[i].name {
            assert(next[i].name == name);
        }
        if has_name(next, name) && name != list[i].name {
            let k = choose|k: int| 0 <= k < next.len() && (#[trigger] next[k]).name == name;
            assert(head[k].name == name);
        }
    }
}

} // verus!
