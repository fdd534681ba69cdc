//! Whether the README of a package changed since its last release.

use vstd::prelude::*;

use crate::compare_laws::{content_in, exists_in, is_proper, same_content, World};
use crate::io::{answers, asked, Reply, Request, RequestView};
use crate::package::{
    find_package, first_named, is_member, law_first_that_passes, law_found_by_name, law_members,
    law_names, packages, workspace_packages, Metadata, MetadataView, Package, PackageView,
};
use crate::package_compare::{content_hash, file_hash, manifest_in};
use crate::path::{join, joined};
use crate::text::opt_text;

verus! {

/// Why it could not be told whether a README changed.
#[derive(Debug, PartialEq, Eq)]
pub enum ReadmeError {
    /// The path of the README could not be resolved.
    CannotCanonicalize(String),
    /// The reply was for another request.
    UnexpectedReply,
}

/// What a README that was found, or the error in its place, stands for.
pub open spec fn readme_view(readme: Result<Option<String>, ReadmeError>) -> Result<
    Option<Seq<char>>,
    ReadmeError,
> {
    match readme {
        Ok(readme) => Ok(opt_text(readme)),
        Err(error) => Err(error),
    }
}

/// The search for the README that the manifest of a package names.
#[derive(Debug, PartialEq, Eq)]
pub enum LocalReadme {
    /// Is there a file at the path?
    Exists(String),
    /// The path, resolved.
    Resolve(String),
    /// The README is known; `None` where the manifest names none, or one that does not exist.
    Done(Result<Option<String>, ReadmeError>),
}

/// What the search for a README stands for.
pub ghost enum LocalReadmeView {
    Exists(Seq<char>),
    Resolve(Seq<char>),
    Done(Result<Option<Seq<char>>, ReadmeError>),
}

impl View for LocalReadme {
    type V = LocalReadmeView;

    open spec fn view(&self) -> LocalReadmeView {
        match *self {
            LocalReadme::Exists(path) => LocalReadmeView::Exists(path@),
            LocalReadme::Resolve(path) => LocalReadmeView::Resolve(path@),
            LocalReadme::Done(readme) => LocalReadmeView::Done(readme_view(readme)),
        }
    }
}

/// The search for the README of a package in a directory begins.
pub open spec fn readme_search(package: PackageView, dir: Seq<char>) -> LocalReadmeView {
    match package.readme {
        Some(readme) => LocalReadmeView::Exists(joined(dir, readme)),
        None => LocalReadmeView::Done(Ok(None)),
    }
}

impl LocalReadmeView {
    /// What the search asks for.
    pub open spec fn asks(self) -> Option<RequestView> {
        match self {
            LocalReadmeView::Exists(path) => Some(RequestView::Exists(path)),
            LocalReadmeView::Resolve(path) => Some(RequestView::Canonicalize(path)),
            LocalReadmeView::Done(_) => None,
        }
    }

    /// The search after a reply to what it asks for.
    pub open spec fn next(self, reply: Reply) -> LocalReadmeView {
        match (self, reply) {
            (LocalReadmeView::Done(_), _) => self,
            (LocalReadmeView::Exists(path), Reply::Flag(exists)) => if exists {
                LocalReadmeView::Resolve(path)
            } else {
                LocalReadmeView::Done(Ok(None))
            },
            (LocalReadmeView::Resolve(_), Reply::Canonical(path)) => match path {
                Ok(path) => LocalReadmeView::Done(Ok(Some(path@))),
                Err(cause) => LocalReadmeView::Done(Err(ReadmeError::CannotCanonicalize(cause))),
            },
            _ => LocalReadmeView::Done(Err(ReadmeError::UnexpectedReply)),
        }
    }
}

/// Searches for the README that the manifest of a package names.
pub fn local_readme_override(package: &Package, local_package_path: &str) -> (r: LocalReadme)
    ensures
        r@ == readme_search(package@, local_package_path@),
{
    match &package.readme {
        Some(readme) => LocalReadme::Exists(join(local_package_path, readme.as_str())),
        None => LocalReadme::Done(Ok(None)),
    }
}

impl LocalReadme {
    /// What the search asks for; nothing when it is done.
    pub fn request(&self) -> (r: Option<Request>)
        ensures
            asked(r) == self@.asks(),
    {
        match self {
            LocalReadme::Exists(path) => Some(Request::Exists(path.clone())),
            LocalReadme::Resolve(path) => Some(Request::Canonicalize(path.clone())),
            LocalReadme::Done(_) => None,
        }
    }

    /// Goes on with the reply to what was asked for.
    pub fn reply(self, reply: Reply) -> (r: LocalReadme)
        ensures
            r@ == self@.next(reply),
    {
        match (self, reply) {
            (LocalReadme::Done(readme), _) => LocalReadme::Done(readme),
            (LocalReadme::Exists(path), Reply::Flag(exists)) => if exists {
                LocalReadme::Resolve(path)
            } else {
                LocalReadme::Done(Ok(None))
            },
            (LocalReadme::Resolve(_), Reply::Canonical(path)) => match path {
                Ok(path) => LocalReadme::Done(Ok(Some(path))),
                Err(cause) => LocalReadme::Done(Err(ReadmeError::CannotCanonicalize(cause))),
            },
            _ => LocalReadme::Done(Err(ReadmeError::UnexpectedReply)),
        }
    }
}

/// The member of a workspace with the given name.
pub open spec fn member_named(metadata: MetadataView, name: Seq<char>) -> Option<PackageView> {
    first_named(metadata.packages.filter(is_member(metadata)), name)
}

/// The member of a workspace with the given name, from what cargo says of the workspace; none
/// where cargo says nothing.
pub fn read_package_metadata(package_name: &str, metadata: Result<Metadata, String>) -> (r: Option<
    Package,
>)
    ensures
        match r {
            Some(p) => metadata is Ok && member_named(metadata->Ok_0@, package_name@) == Some(p@),
            None => metadata is Err || member_named(metadata->Ok_0@, package_name@) is None,
        },
{
    match metadata {
        Ok(metadata) => find_package(&workspace_packages(&metadata), package_name),
        Err(_) => None,
    }
}

/// How far the check of a README has come.
#[derive(Debug, PartialEq, Eq)]
enum Stage {
    Manifest,
    Search(LocalReadme),
    Released { readme: String },
    LocalContent { readme: String },
    RegistryContent { hash: u64 },
    Done(Result<bool, ReadmeError>),
}

/// What a stage of the check of a README stands for.
pub ghost enum ReadmeStage {
    /// What cargo says of the manifest, which may have changed since it was last read.
    Manifest,
    /// The README that the manifest names is searched.
    Search(LocalReadmeView),
    /// Does the released package have a README?
    Released { readme: Seq<char> },
    /// The content of the local README.
    LocalContent { readme: Seq<char> },
    /// The content of the released README, to be compared with the hash of the local one.
    RegistryContent { hash: u64 },
    /// The check is done.
    Done(Result<bool, ReadmeError>),
}

/// The check whether the README of a package changed.
#[derive(Debug, PartialEq, Eq)]
pub struct ReadmeCheck {
    package_name: String,
    local: String,
    registry: String,
    stage: Stage,
}

/// What the check whether the README of a package changed stands for.
pub ghost struct ReadmeCheckView {
    pub package_name: Seq<char>,
    pub local: Seq<char>,
    pub registry: Seq<char>,
    pub stage: ReadmeStage,
}

impl View for ReadmeCheck {
    type V = ReadmeCheckView;

    closed spec fn view(&self) -> ReadmeCheckView {
        ReadmeCheckView {
            package_name: self.package_name@,
            local: self.local@,
            registry: self.registry@,
            stage: stage_view(self.stage),
        }
    }
}

spec fn stage_view(stage: Stage) -> ReadmeStage {
    match stage {
        Stage::Manifest => ReadmeStage::Manifest,
        Stage::Search(search) => ReadmeStage::Search(search@),
        Stage::Released { readme } => ReadmeStage::Released { readme: readme@ },
        Stage::LocalContent { readme } => ReadmeStage::LocalContent { readme: readme@ },
        Stage::RegistryContent { hash } => ReadmeStage::RegistryContent { hash },
        Stage::Done(result) => ReadmeStage::Done(result),
    }
}

/// The README of a released package.
pub open spec fn readme_in(dir: Seq<char>) -> Seq<char> {
    joined(dir, "README.md"@)
}

/// The stage of the check that a search leads to. Without a README nothing is updated.
pub open spec fn searched(search: LocalReadmeView) -> ReadmeStage {
    match search {
        LocalReadmeView::Done(Ok(Some(readme))) => ReadmeStage::Released { readme },
        LocalReadmeView::Done(Ok(None)) => ReadmeStage::Done(Ok(false)),
        LocalReadmeView::Done(Err(error)) => ReadmeStage::Done(Err(error)),
        _ => ReadmeStage::Search(search),
    }
}

impl ReadmeCheckView {
    /// What the check asks for.
    pub open spec fn asks(self) -> Option<RequestView> {
        match self.stage {
            ReadmeStage::Manifest => Some(
                RequestView::ManifestMetadata(manifest_in(self.local)),
            ),
            ReadmeStage::Search(search) => search.asks(),
            ReadmeStage::Released { .. } => Some(RequestView::Exists(readme_in(self.registry))),
            ReadmeStage::LocalContent { readme } => Some(RequestView::ReadFile(readme)),
            ReadmeStage::RegistryContent { .. } => Some(
                RequestView::ReadFile(readme_in(self.registry)),
            ),
            ReadmeStage::Done(_) => None,
        }
    }

    /// The stage after a reply to what the check asks for.
    pub open spec fn next_stage(self, reply: Reply) -> ReadmeStage {
        match (self.stage, reply) {
            (ReadmeStage::Done(_), _) => self.stage,
            (ReadmeStage::Manifest, Reply::Metadata(metadata)) => {
                if metadata is Ok && member_named(metadata->Ok_0@, self.package_name) is Some {
                    let package = member_named(metadata->Ok_0@, self.package_name)->0;
                    searched(readme_search(package, self.local))
                } else {
                    ReadmeStage::Done(Ok(false))
                }
            },
            (ReadmeStage::Search(search), _) => searched(search.next(reply)),
            (ReadmeStage::Released { readme }, Reply::Flag(exists)) => if exists {
                ReadmeStage::LocalContent { readme }
            } else {
                ReadmeStage::Done(Ok(true))
            },
            (ReadmeStage::LocalContent { .. }, Reply::Content(content)) => match content {
                Ok(content) => ReadmeStage::RegistryContent { hash: content_hash(content@) },
                Err(_) => ReadmeStage::Done(Ok(false)),
            },
            (ReadmeStage::RegistryContent { hash }, Reply::Content(content)) => match content {
                Ok(content) => ReadmeStage::Done(Ok(hash != content_hash(content@))),
                Err(_) => ReadmeStage::Done(Ok(false)),
            },
            _ => ReadmeStage::Done(Err(ReadmeError::UnexpectedReply)),
        }
    }

    /// The check after a reply to what it asks for.
    pub open spec fn next(self, reply: Reply) -> ReadmeCheckView {
        ReadmeCheckView { stage: self.next_stage(reply), ..self }
    }
}

/// Checks whether the README of a package differs from the one of the release.
///
/// It does not where the manifest names no README, or one that does not exist, or where the two
/// cannot be compared.
pub fn is_readme_updated(
    package_name: &str,
    local_package_path: &str,
    registry_package_path: &str,
) -> (r: ReadmeCheck)
    ensures
        r@ == (ReadmeCheckView {
            package_name: package_name@,
            local: local_package_path@,
            registry: registry_package_path@,
            stage: ReadmeStage::Manifest,
        }),
{
    ReadmeCheck {
        package_name: package_name.to_owned(),
        local: local_package_path.to_owned(),
        registry: registry_package_path.to_owned(),
        stage: Stage::Manifest,
    }
}

/// The stage that a search leads to.
fn after_search(search: LocalReadme) -> (r: Stage)
    ensures
        stage_view(r) == searched(search@),
{
    match search {
        LocalReadme::Done(Ok(Some(readme))) => Stage::Released { readme },
        LocalReadme::Done(Ok(None)) => Stage::Done(Ok(false)),
        LocalReadme::Done(Err(error)) => Stage::Done(Err(error)),
        search => Stage::Search(search),
    }
}

impl ReadmeCheck {
    /// What the check asks for; nothing when it is done.
    pub fn request(&self) -> (r: Option<Request>)
        ensures
            asked(r) == self@.asks(),
    {
        match &self.stage {
            Stage::Manifest => Some(
                Request::ManifestMetadata(join(self.local.as_str(), "Cargo.toml")),
            ),
            Stage::Search(search) => search.request(),
            Stage::Released { .. } => Some(
                Request::Exists(join(self.registry.as_str(), "README.md")),
            ),
            Stage::LocalContent { readme } => Some(Request::ReadFile(readme.clone())),
            Stage::RegistryContent { .. } => Some(
                Request::ReadFile(join(self.registry.as_str(), "README.md")),
            ),
            Stage::Done(_) => None,
        }
    }

    /// Goes on with the reply to what was asked for.
    pub fn reply(self, reply: Reply) -> (r: ReadmeCheck)
        ensures
            r@ == self@.next(reply),
    {
        let ReadmeCheck { package_name, local, registry, stage } = self;
        let stage = match (stage, reply) {
            (Stage::Done(result), _) => Stage::Done(result),
            (Stage::Manifest, Reply::Metadata(metadata)) => {
                match read_package_metadata(package_name.as_str(), metadata) {
                    Some(package) => after_search(local_readme_override(&package, local.as_str())),
                    None => Stage::Done(Ok(false)),
                }
            },
            (Stage::Search(search), reply) => after_search(search.reply(reply)),
            (Stage::Released { readme }, Reply::Flag(exists)) => if exists {
                Stage::LocalContent { readme }
            } else {
                Stage::Done(Ok(true))
            },
            (Stage::LocalContent { .. }, Reply::Content(content)) => match content {
                Ok(content) => Stage::RegistryContent { hash: file_hash(&content) },
                Err(_) => Stage::Done(Ok(false)),
            },
            (Stage::RegistryContent { hash }, Reply::Content(content)) => match content {
                Ok(content) => Stage::Done(Ok(hash != file_hash(&content))),
                Err(_) => Stage::Done(Ok(false)),
            },
            _ => Stage::Done(Err(ReadmeError::UnexpectedReply)),
        };
        ReadmeCheck { package_name, local, registry, stage }
    }

    /// Whether the README changed; nothing while the check is not done.
    pub fn result(self) -> (r: Option<Result<bool, ReadmeError>>)
        ensures
            match r {
                Some(result) => self@.stage == ReadmeStage::Done(result),
                None => !(self@.stage is Done),
            },
    {
        match self.stage {
            Stage::Done(result) => Some(result),
            _ => None,
        }
    }
}

/// How many replies the check still needs, at most.
pub open spec fn replies_left(check: ReadmeCheckView) -> nat {
    match check.stage {
        ReadmeStage::Manifest => 6,
        ReadmeStage::Search(LocalReadmeView::Exists(_)) => 5,
        ReadmeStage::Search(LocalReadmeView::Resolve(_)) => 4,
        ReadmeStage::Search(LocalReadmeView::Done(_)) => 4,
        ReadmeStage::Released { .. } => 3,
        ReadmeStage::LocalContent { .. } => 2,
        ReadmeStage::RegistryContent { .. } => 1,
        ReadmeStage::Done(_) => 0,
    }
}

/// The outcome of a check that goes on until it is done, with the replies of a world.
pub open spec fn run(check: ReadmeCheckView, w: World) -> Result<bool, ReadmeError>
    decreases replies_left(check),
{
    match check.stage {
        ReadmeStage::Done(result) => result,
        _ => run(check.next(w(check.asks()->0)), w),
    }
}

/// What cargo says of a manifest.
pub open spec fn metadata_in(w: World, path: Seq<char>) -> Result<Metadata, String> {
    w(RequestView::ManifestMetadata(path))->Metadata_0
}

/// A path, resolved.
pub open spec fn resolved_in(w: World, path: Seq<char>) -> Result<String, String> {
    w(RequestView::Canonicalize(path))->Canonical_0
}

/// The README that the manifest of the package in a directory names, if there is such a file.
pub open spec fn named_readme(w: World, name: Seq<char>, dir: Seq<char>) -> Option<Seq<char>> {
    let metadata = metadata_in(w, manifest_in(dir));
    if metadata is Ok && member_named(metadata->Ok_0@, name) is Some && member_named(
        metadata->Ok_0@,
        name,
    )->0.readme is Some {
        let path = joined(dir, member_named(metadata->Ok_0@, name)->0.readme->0);
        if exists_in(w, path) {
            Some(path)
        } else {
            None
        }
    } else {
        None
    }
}

/// The README of a package is updated exactly where the manifest names one that exists, and the
/// release has none or one with another content; it is not where one of the two cannot be read.
pub proof fn law_readme(w: World, name: Seq<char>, local: Seq<char>, registry: Seq<char>)
    requires
        is_proper(w),
    ensures
        ({
            let start = ReadmeCheckView {
                package_name: name,
                local,
                registry,
                stage: ReadmeStage::Manifest,
            };
            run(start, w) == match named_readme(w, name, local) {
                None => Ok(false),
                Some(path) => match resolved_in(w, path) {
                    Err(cause) => Err(ReadmeError::CannotCanonicalize(cause)),
                    Ok(readme) => Ok(
                        !exists_in(w, readme_in(registry)) || (content_in(w, readme@) is Ok
                            && content_in(w, readme_in(registry)) is Ok && !same_content(
                            w,
                            readme@,
                            readme_in(registry),
                        )),
                    ),
                },
            }
        }),
{
    reveal_with_fuel(run, 7);
    let manifest = RequestView::ManifestMetadata(manifest_in(local));
    assert(answers(w(manifest), manifest));
    let released = RequestView::Exists(readme_in(registry));
    assert(answers(w(released), released));
    let released_content = RequestView::ReadFile(readme_in(registry));
    assert(answers(w(released_content), released_content));
    let metadata = metadata_in(w, manifest_in(local));
    if metadata is Ok && member_named(metadata->Ok_0@, name) is Some && member_named(
        metadata->Ok_0@,
        name,
    )->0.readme is Some {
        let path = joined(local, member_named(metadata->Ok_0@, name)->0.readme->0);
        assert(answers(w(RequestView::Exists(path)), RequestView::Exists(path)));
        assert(answers(w(RequestView::Canonicalize(path)), RequestView::Canonicalize(path)));
        if resolved_in(w, path) is Ok {
            let content = RequestView::ReadFile(resolved_in(w, path)->Ok_0@);
            assert(answers(w(content), content));
        }
    }
}

/// A member of a workspace is found by its name exactly where a package of the workspace has that
/// name and is listed as a member; what is found is such a package.
pub proof fn law_member_named(metadata: MetadataView, name: Seq<char>)
    ensures
        member_named(metadata, name) is Some <==> exists|p: PackageView| #[trigger]
            metadata.packages.contains(p) && metadata.workspace_members.contains(p.id) && p.name
                == name,
        member_named(metadata, name) matches Some(p) ==> metadata.packages.contains(p)
            && metadata.workspace_members.contains(p.id) && p.name == name,
{
    let list = metadata.packages.filter(is_member(metadata));
    law_names(list, name);
    law_found_by_name(list, name);
    if member_named(metadata, name) is Some {
        law_members(metadata, member_named(metadata, name)->0);
    }
    if exists|p: PackageView| #[trigger]
        metadata.packages.contains(p) && metadata.workspace_members.contains(p.id) && p.name
            == name {
        let p = choose|p: PackageView| #[trigger]
            metadata.packages.contains(p) && metadata.workspace_members.contains(p.id) && p.name
                == name;
        law_members(metadata, p);
        assert(list.contains(p));
    }
}

/// The README of a release is the file `README.md` in its directory.
pub proof fn law_released_readme(dir: Seq<char>)
    ensures
        readme_in(dir) == joined(dir, "README.md"@),
{
}

/// A reply to another request ends a check with an error; once it is done, no reply changes it.
pub proof fn law_readme_and_other_replies(check: ReadmeCheckView, reply: Reply)
    ensures
        check.asks() is Some && !answers(reply, check.asks()->0) ==> check.next(reply).stage
            == ReadmeStage::Done(Err(ReadmeError::UnexpectedReply)),
        check.stage is Done ==> check.asks() is None && check.next(reply) == check,
{
}

/// The README that a manifest names is searched in the directory, and found exactly where it exists
/// and its path can be resolved; where the manifest names none, there is none.
pub proof fn law_local_readme(package: PackageView, dir: Seq<char>, readme: Seq<char>, path: String)
    ensures
        package.readme is None ==> readme_search(package, dir) == LocalReadmeView::Done(
            Ok(None::<Seq<char>>),
        ),
        package.readme == Some(readme) ==> ({
            let search = readme_search(package, dir);
            let there = search.next(Reply::Flag(true));
            &&& search.asks() == Some(RequestView::Exists(joined(dir, readme)))
            &&& search.next(Reply::Flag(false)) == LocalReadmeView::Done(Ok(None::<Seq<char>>))
            &&& there.asks() == Some(RequestView::Canonicalize(joined(dir, readme)))
            &&& there.next(Reply::Canonical(Ok(path))) == LocalReadmeView::Done(Ok(Some(path@)))
            &&& there.next(Reply::Canonical(Err(path))) == LocalReadmeView::Done(
                Err(ReadmeError::CannotCanonicalize(path)),
            )
        }),
{
}

/// What was found stands for the path, and an error for itself.
pub proof fn law_readme_view(readme: Result<Option<String>, ReadmeError>)
    ensures
        readme matches Ok(Some(path)) ==> readme_view(readme) == Ok::<_, ReadmeError>(Some(path@)),
        readme matches Ok(None) ==> readme_view(readme) == Ok::<_, ReadmeError>(None::<Seq<char>>),
        readme matches Err(error) ==> readme_view(readme) == Err::<Option<Seq<char>>, _>(error),
{
}

/// The member that is found by its name is the first one with it.
pub proof fn law_first_member(metadata: MetadataView, i: int)
    requires
        0 <= i < metadata.packages.len(),
        metadata.workspace_members.contains(metadata.packages[i].id),
        forall|k: int|
            0 <= k < i && metadata.workspace_members.contains((#[trigger] metadata.packages[k]).id)
                ==> metadata.packages[k].name != metadata.packages[i].name,
    ensures
        member_named(metadata, metadata.packages[i].name) == Some(metadata.packages[i]),
{
    law_first_that_passes(metadata.packages, is_member(metadata), i);
}

} // verus!
