//! Packages of a cargo workspace.

use vstd::prelude::*;

use crate::order::texts;
use crate::text::{clone_opt, clone_texts, has_entry, is_text, opt_text};
use crate::version::{Version, VersionView};

verus! {

/// What a target of a package is built into.
#[derive(Debug, PartialEq, Eq)]
pub enum TargetKind {
    Bench,
    Bin,
    CustomBuild,
    CDyLib,
    DyLib,
    Example,
    Lib,
    ProcMacro,
    RLib,
    StaticLib,
    Test,
    Unknown(String),
}

/// A target of a package.
#[derive(Debug, PartialEq, Eq)]
pub struct Target {
    pub kind: Vec<TargetKind>,
}

/// A package.
#[derive(Debug, PartialEq)]
pub struct Package {
    /// What identifies the package in the workspace.
    pub id: String,
    pub name: String,
    pub version: Version,
    /// The registries that the package may be published to. `None` means any registry.
    pub publish: Option<Vec<String>>,
    pub targets: Vec<Target>,
    /// The path of the README file, if the manifest names one.
    pub readme: Option<String>,
    pub manifest_path: String,
}

/// What is known of a workspace.
#[derive(Debug, PartialEq)]
pub struct Metadata {
    pub packages: Vec<Package>,
    /// The ids of the packages that are members of the workspace.
    pub workspace_members: Vec<String>,
    pub target_directory: String,
}

/// What a package stands for.
pub ghost struct PackageView {
    pub id: Seq<char>,
    pub name: Seq<char>,
    pub version: VersionView,
    pub publish: Option<Seq<Seq<char>>>,
    /// The kinds of each target.
    pub targets: Seq<Seq<TargetKind>>,
    pub readme: Option<Seq<char>>,
    pub manifest_path: Seq<char>,
}

/// What the metadata of a workspace stands for.
pub ghost struct MetadataView {
    pub packages: Seq<PackageView>,
    pub workspace_members: Seq<Seq<char>>,
    pub target_directory: Seq<char>,
}

impl View for Package {
    type V = PackageView;

    open spec fn view(&self) -> PackageView {
        PackageView {
            id: self.id@,
            name: self.name@,
            version: self.version@,
            publish: match self.publish {
                Some(registries) => Some(texts(registries@)),
                None => None,
            },
            targets: self.targets@.map_values(|t: Target| t.kind@),
            readme: opt_text(self.readme),
            manifest_path: self.manifest_path@,
        }
    }
}

impl View for Metadata {
    type V = MetadataView;

    open spec fn view(&self) -> MetadataView {
        MetadataView {
            packages: packages(self.packages@),
            workspace_members: texts(self.workspace_members@),
            target_directory: self.target_directory@,
        }
    }
}

/// What a list of packages stands for.
pub open spec fn packages(v: Seq<Package>) -> Seq<PackageView> {
    v.map_values(|p: Package| p@)
}

/// All targets of the package are examples, and nothing else.
pub open spec fn is_example(p: PackageView) -> bool {
    forall|i: int| 0 <= i < p.targets.len() ==> #[trigger] p.targets[i] == seq![TargetKind::Example]
}

/// The package can be published: to some registry, where the manifest lists registries, and
/// otherwise unless it is an example.
pub open spec fn can_be_published(p: PackageView) -> bool {
    match p.publish {
        Some(registries) => registries.len() > 0,
        None => !is_example(p),
    }
}

/// Which packages are members of the workspace.
pub open spec fn is_member(m: MetadataView) -> spec_fn(PackageView) -> bool {
    |p: PackageView| m.workspace_members.contains(p.id)
}

/// Which packages can be published.
pub open spec fn is_published() -> spec_fn(PackageView) -> bool {
    |p: PackageView| can_be_published(p)
}

/// The first package with the given name.
pub open spec fn first_named(list: Seq<PackageView>, name: Seq<char>) -> Option<PackageView>
    decreases list.len(),
{
    if list.len() == 0 {
        None
    } else if list[0].name == name {
        Some(list[0])
    } else {
        first_named(list.drop_first(), name)
    }
}

/// Some package of the list has the given name.
pub open spec fn has_name(list: Seq<PackageView>, name: Seq<char>) -> bool {
    exists|i: int| 0 <= i < list.len() && (#[trigger] list[i]).name == name
}

impl Clone for TargetKind {
    fn clone(&self) -> (r: Self)
        ensures
            r == *self,
    {
        match self {
            TargetKind::Bench => TargetKind::Bench,
            TargetKind::Bin => TargetKind::Bin,
            TargetKind::CustomBuild => TargetKind::CustomBuild,
            TargetKind::CDyLib => TargetKind::CDyLib,
            TargetKind::DyLib => TargetKind::DyLib,
            TargetKind::Example => TargetKind::Example,
            TargetKind::Lib => TargetKind::Lib,
            TargetKind::ProcMacro => TargetKind::ProcMacro,
            TargetKind::RLib => TargetKind::RLib,
            TargetKind::StaticLib => TargetKind::StaticLib,
            TargetKind::Test => TargetKind::Test,
            TargetKind::Unknown(s) => TargetKind::Unknown(s.clone()),
        }
    }
}

impl Clone for Target {
    fn clone(&self) -> (r: Self)
        ensures
            r.kind@ == self.kind@,
    {
        let kind = self.kind.clone();
        assert(kind@ =~= self.kind@);
        Target { kind }
    }
}

impl Clone for Package {
    fn clone(&self) -> (r: Self)
        ensures
            r@ == self@,
    {
        let publish = match &self.publish {
            Some(registries) => Some(clone_texts(registries)),
            None => None,
        };
        let targets = self.targets.clone();
        let out = Package {
            id: self.id.clone(),
            name: self.name.clone(),
            version: self.version.clone(),
            publish,
            targets,
            readme: clone_opt(&self.readme),
            manifest_path: self.manifest_path.clone(),
        };
        assert(out@.targets =~= self@.targets);
        out
    }
}

/// A copy of a list of packages.
pub(crate) fn clone_packages(list: &Vec<Package>) -> (r: Vec<Package>)
    ensures
        packages(r@) == packages(list@),
{
    let out = list.clone();
    assert(packages(out@) =~= packages(list@));
    out
}

/// What can be published.
pub trait Publishable {
    fn is_publishable(&self) -> bool;
}

impl Publishable for Package {
    /// Whether the package can be published to at least one registry (such as crates.io).
    fn is_publishable(&self) -> (r: bool)
        ensures
            r == can_be_published(self@),
    {
        match &self.publish {
            // The list is empty where the manifest has `publish = []` or `publish = false`.
            Some(registries) => registries.len() > 0,
            // Unless it is an example, the package can be published anywhere.
            None => !is_example_package(self),
        }
    }
}

/// Whether all targets of a package are examples.
pub fn is_example_package(package: &Package) -> (r: bool)
    ensures
        r == is_example(package@),
{
    let mut i: usize = 0;
    while i < package.targets.len()
        invariant
            i <= package.targets@.len(),
            forall|k: int|
                0 <= k < i ==> #[trigger] package@.targets[k] == seq![TargetKind::Example],
        decreases package.targets@.len() - i,
    {
        let kind = &package.targets[i].kind;
        let only_example = kind.len() == 1 && matches!(kind[0], TargetKind::Example);
        assert(package@.targets[i as int] == kind@);
        if !only_example {
            proof {
                if kind@ == seq![TargetKind::Example] {
                    assert(kind@.len() == 1 && kind@[0] == TargetKind::Example);
                }
            }
            return false;
        }
        assert(kind@ =~= seq![TargetKind::Example]);
        i += 1;
    }
    true
}

/// The packages of the workspace that are its members.
pub fn workspace_packages(metadata: &Metadata) -> (r: Vec<Package>)
    ensures
        packages(r@) == metadata@.packages.filter(is_member(metadata@)),
{
    let ghost m = metadata@;
    let mut out: Vec<Package> = Vec::new();
    let mut i: usize = 0;
    assert(packages(out@) =~= m.packages.take(0).filter(is_member(m)));
    while i < metadata.packages.len()
        invariant
            i <= metadata.packages@.len(),
            m == metadata@,
            packages(out@) == m.packages.take(i as int).filter(is_member(m)),
        decreases metadata.packages@.len() - i,
    {
        let package = &metadata.packages[i];
        let ghost before = out@;
        proof {
            lemma_filter_step(m.packages, is_member(m), i as int);
            assert(m.packages[i as int] == package@);
        }
        if has_entry(&metadata.workspace_members, package.id.as_str()) {
            out.push(package.clone());
            assert(packages(out@) =~= packages(before).push(package@));
        }
        i += 1;
    }
    assert(m.packages.take(m.packages.len() as int) =~= m.packages);
    out
}

/// The members of the workspace that can be published.
pub fn publishable_packages_from_manifest(metadata: &Metadata) -> (r: Vec<Package>)
    ensures
        packages(r@) == metadata@.packages.filter(is_member(metadata@)).filter(is_published()),
{
    let members = workspace_packages(metadata);
    let ghost list = packages(members@);
    let mut out: Vec<Package> = Vec::new();
    let mut i: usize = 0;
    assert(packages(out@) =~= list.take(0).filter(is_published()));
    while i < members.len()
        invariant
            i <= members@.len(),
            list == packages(members@),
            packages(out@) == list.take(i as int).filter(is_published()),
        decreases members@.len() - i,
    {
        let package = &members[i];
        let ghost before = out@;
        proof {
            lemma_filter_step(list, is_published(), i as int);
            assert(list[i as int] == package@);
        }
        if package.is_publishable() {
            out.push(package.clone());
            assert(packages(out@) =~= packages(before).push(package@));
        }
        i += 1;
    }
    assert(list.take(list.len() as int) =~= list);
    out
}

/// Filtering one element more.
pub(crate) proof fn lemma_filter_step<A>(s: Seq<A>, keep: spec_fn(A) -> bool, i: int)
    requires
        0 <= i < s.len(),
    ensures
        s.take(i + 1).filter(keep) == if keep(s[i]) {
            s.take(i).filter(keep).push(s[i])
        } else {
            s.take(i).filter(keep)
        },
{
    reveal(Seq::filter);
    assert(s.take(i + 1).drop_last() =~= s.take(i));
}

/// The first package of a list with the given name.
pub fn find_package(list: &Vec<Package>, name: &str) -> (r: Option<Package>)
    ensures
        match r {
            Some(p) => first_named(packages(list@), name@) == Some(p@),
            None => first_named(packages(list@), name@) is None,
        },
{
    let ghost all = packages(list@);
    let mut i: usize = 0;
    assert(all.skip(0) =~= all);
    while i < list.len()
        invariant
            i <= list@.len(),
            all == packages(list@),
            first_named(all, name@) == first_named(all.skip(i as int), name@),
        decreases list@.len() - i,
    {
        proof {
            assert(all.skip(i as int)[0] == list@[i as int]@);
            assert(all.skip(i as int).drop_first() =~= all.skip(i + 1));
        }
        if is_text(list[i].name.as_str(), name) {
            return Some(list[i].clone());
        }
        i += 1;
    }
    None
}

/// A package is found by name exactly where some package of the list has that name.
pub proof fn law_found_by_name(list: Seq<PackageView>, name: Seq<char>)
    ensures
        first_named(list, name) is Some <==> has_name(list, name),
        first_named(list, name) is Some ==> list.contains(first_named(list, name)->0)
            && first_named(list, name)->0.name == name,
    decreases list.len(),
{
    if list.len() > 0 && list[0].name != name {
        let rest = list.drop_first();
        law_found_by_name(rest, name);
        if has_name(list, name) {
            let i = choose|i: int| 0 <= i < list.len() && (#[trigger] list[i]).name == name;
            assert(rest[i - 1].name == name);
        }
        if has_name(rest, name) {
            let i = choose|i: int| 0 <= i < rest.len() && (#[trigger] rest[i]).name == name;
            assert(list[i + 1].name == name);
            let j = choose|j: int| 0 <= j < rest.len() && rest[j] == first_named(rest, name)->0;
            assert(list[j + 1] == first_named(list, name)->0);
        }
    }
}

/// A package whose manifest lists registries can be published exactly where there is a registry in
/// the list. Without such a list it can be exactly where some target is not just an example.
pub proof fn law_published_somewhere(p: PackageView)
    ensures
        p.publish matches Some(registries) ==> (can_be_published(p) <==> exists|r: Seq<char>|
            registries.contains(r)),
        p.publish is None ==> (can_be_published(p) <==> exists|i: int|
            0 <= i < p.targets.len() && #[trigger] p.targets[i] != seq![TargetKind::Example]),
{
    if p.publish is Some {
        let registries = p.publish->0;
        if registries.len() > 0 {
            assert(registries.contains(registries[0]));
        }
    }
}

/// A package that can be published still can with one more registry, or one more target.
pub proof fn law_published_with_more(p: PackageView, registry: Seq<char>, target: Seq<TargetKind>)
    ensures
        p.publish matches Some(registries) ==> can_be_published(
            (PackageView { publish: Some(registries.push(registry)), ..p }),
        ),
        can_be_published(p) ==> can_be_published(
            (PackageView { targets: p.targets.push(target), ..p }),
        ),
{
    let more = PackageView { targets: p.targets.push(target), ..p };
    if p.publish is None && can_be_published(p) {
        let i = choose|i: int|
            0 <= i < p.targets.len() && #[trigger] p.targets[i] != seq![TargetKind::Example];
        assert(more.targets[i] == p.targets[i]);
    }
}

/// A package is among the members of a workspace exactly where it is a package of it and its id is
/// listed; it is among those to publish exactly where it can be published, too.
pub proof fn law_members(m: MetadataView, p: PackageView)
    ensures
        m.packages.filter(is_member(m)).contains(p) <==> m.packages.contains(p)
            && m.workspace_members.contains(p.id),
        m.packages.filter(is_member(m)).filter(is_published()).contains(p) <==> m.packages.contains(
            p,
        ) && m.workspace_members.contains(p.id) && can_be_published(p),
{
    lemma_filter_contains(m.packages, is_member(m), p);
    lemma_filter_contains(m.packages.filter(is_member(m)), is_published(), p);
}

/// A filtered list holds what is in the list and passes.
pub(crate) proof fn lemma_filter_contains(
    list: Seq<PackageView>,
    keep: spec_fn(PackageView) -> bool,
    p: PackageView,
)
    ensures
        list.filter(keep).contains(p) <==> list.contains(p) && keep(p),
{
    if list.contains(p) && keep(p) {
        let i = list.index_of(p);
        list.lemma_filter_contains(keep, i);
    }
    if list.filter(keep).contains(p) {
        let f = list.filter(keep);
        let i = f.index_of(p);
        list.lemma_filter_contains_rev(keep, p);
        list.lemma_filter_pred(keep, i);
    }
}

/// The package that is found by name is the one at the first place with that name.
pub proof fn law_first_is_found(list: Seq<PackageView>, i: int)
    requires
        0 <= i < list.len(),
        forall|k: int| 0 <= k < i ==> (#[trigger] list[k]).name != list[i].name,
    ensures
        first_named(list, list[i].name) == Some(list[i]),
        has_name(list, list[i].name),
    decreases list.len(),
{
    if i > 0 {
        let rest = list.drop_first();
        assert(list[0].name != list[i].name);
        assert(rest[i - 1] == list[i]);
        assert forall|k: int| 0 <= k < i - 1 implies (#[trigger] rest[k]).name != rest[
            i - 1
        ].name by {
            assert(list[k + 1].name != list[i].name);
        }
        law_first_is_found(rest, i - 1);
    }
}

/// A name is one of a list exactly where a package in the list has it, wherever it stands; then,
/// and only then, one is found.
pub proof fn law_names(list: Seq<PackageView>, name: Seq<char>)
    ensures
        has_name(list, name) <==> exists|p: PackageView| #[trigger] list.contains(p) && p.name
            == name,
        first_named(list, name) is Some <==> exists|p: PackageView| #[trigger] list.contains(p)
            && p.name == name,
{
    law_found_by_name(list, name);
    if has_name(list, name) {
        let i = choose|i: int| 0 <= i < list.len() && (#[trigger] list[i]).name == name;
        assert(list.contains(list[i]));
    }
    if exists|p: PackageView| #[trigger] list.contains(p) && p.name == name {
        let p = choose|p: PackageView| #[trigger] list.contains(p) && p.name == name;
        let i = list.index_of(p);
        assert(list[i].name == name);
    }
}

/// What a package and a workspace stand for has each part of them.
pub proof fn law_package_view(p: Package, m: Metadata)
    ensures
        p@.id == p.id@,
        p@.name == p.name@,
        p@.version == p.version@,
        p.publish matches Some(registries) ==> p@.publish == Some(texts(registries@)),
        p.publish is None ==> p@.publish is None,
        p@.targets.len() == p.targets@.len(),
        forall|i: int| 0 <= i < p.targets@.len() ==> #[trigger] p@.targets[i] == p.targets@[i].kind@,
        p.readme matches Some(readme) ==> p@.readme == Some(readme@),
        p.readme is None ==> p@.readme is None,
        p@.manifest_path == p.manifest_path@,
        m@.packages.len() == m.packages@.len(),
        forall|i: int| 0 <= i < m.packages@.len() ==> #[trigger] m@.packages[i] == m.packages@[i]@,
        m@.workspace_members == texts(m.workspace_members@),
        m@.target_directory == m.target_directory@,
{
}

proof fn lemma_first_of_more(list: Seq<PackageView>, p: PackageView, name: Seq<char>)
    ensures
        first_named(list.push(p), name) == if first_named(list, name) is Some {
            first_named(list, name)
        } else if p.name == name {
            Some(p)
        } else {
            None
        },
    decreases list.len(),
{
    let more = list.push(p);
    reveal_with_fuel(first_named, 2);
    if list.len() == 0 {
        assert(more.drop_first() =~= Seq::empty());
    } else {
        lemma_first_of_more(list.drop_first(), p, name);
        assert(more.drop_first() =~= list.drop_first().push(p));
    }
}

/// Of the packages that pass, the one that is found by name is the one at the first place with that
/// name.
pub proof fn law_first_that_passes(
    list: Seq<PackageView>,
    keep: spec_fn(PackageView) -> bool,
    i: int,
)
    requires
        0 <= i < list.len(),
        keep(list[i]),
        forall|k: int|
            0 <= k < i && keep(#[trigger] list[k]) ==> list[k].name != list[i].name,
    ensures
        first_named(list.filter(keep), list[i].name) == Some(list[i]),
    decreases list.len(),
{
    reveal(Seq::filter);
    let head = list.drop_last();
    let passed = head.filter(keep);
    let name = list[i].name;
    lemma_first_of_more(passed, list.last(), name);
    if i < list.len() - 1 {
        assert(head[i] == list[i]);
        assert forall|k: int| 0 <= k < i && keep(#[trigger] head[k]) implies head[k].name
            != head[i].name by {
            assert(list[k] == head[k]);
        }
        law_first_that_passes(head, keep, i);
    } else {
        law_found_by_name(passed, name);
        if has_name(passed, name) {
            let found = first_named(passed, name)->0;
            lemma_filter_contains(head, keep, found);
            let k = head.index_of(found);
            assert(list[k] == found);
        }
    }
}

} // verus!
