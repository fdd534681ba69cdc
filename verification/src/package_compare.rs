//! Comparing a local package with its last release.

use std::collections::hash_map::DefaultHasher;
use std::hash::Hasher;

use vstd::bytes::*;
use vstd::prelude::*;
use vstd::seq_lib::*;
use vstd::std_specs::hash::*;
use vstd::utf8::*;

use crate::io::{asked, GitOutput, ListError, Reply, Request, RequestView};
use crate::order::{law_sorted, sort_texts, sorted_texts, text_le, texts};
use crate::package::lemma_filter_step;
use crate::path::{
    are_names, are_same_paths, file_name, is_adjoined, is_same_path, join, joined, last_name,
    ordered_paths, path_name, path_parts, path_set, prefix_of, same_path, same_paths, strip_prefix,
    stripped, Part,
};
use crate::text::{as_opt_str, is_text, opt_str, text_of_utf8};

verus! {

/// The hash of the content of a file: of its length and its bytes.
pub open spec fn content_hash(content: Seq<u8>) -> u64 {
    DefaultHasher::spec_finish(seq![spec_u64_to_le_bytes(content.len() as u64), content])
}

/// The hash of the content of a file.
pub fn file_hash(content: &Vec<u8>) -> (r: u64)
    ensures
        r == content_hash(content@),
{
    let mut hasher = DefaultHasher::new();
    let length = u64_to_le_bytes(content.len() as u64);
    hasher.write(length.as_slice());
    hasher.write(content.as_slice());
    proof {
        assert(hasher@ =~= seq![spec_u64_to_le_bytes(content@.len() as u64), content@]);
    }
    hasher.finish()
}

/// Whether two files have the same content, as far as their hashes tell.
pub fn are_files_equal(first: &Vec<u8>, second: &Vec<u8>) -> (r: bool)
    ensures
        r == (content_hash(first@) == content_hash(second@)),
        first@ == second@ ==> r,
        r && no_collision(first@, second@) ==> first@ == second@,
{
    proof {
        if no_collision(first@, second@) {
            law_every_byte_counts(first@, second@);
        }
    }
    file_hash(first) == file_hash(second)
}

/// The pieces of `bytes` between the zero bytes.
pub open spec fn nul_separated(bytes: Seq<u8>) -> Seq<Seq<u8>>
    decreases bytes.len(),
{
    if bytes.len() == 0 {
        seq![Seq::empty()]
    } else {
        let rest = nul_separated(bytes.drop_last());
        if bytes.last() == 0 {
            rest.push(Seq::empty())
        } else {
            rest.drop_last().push(rest.last().push(bytes.last()))
        }
    }
}

/// Which pieces are the names of files: those that are not empty and valid UTF-8.
pub open spec fn is_file_name() -> spec_fn(Seq<u8>) -> bool {
    |piece: Seq<u8>| piece.len() > 0 && valid_utf8(piece)
}

/// The names of files among the pieces.
pub open spec fn names_in(pieces: Seq<Seq<u8>>) -> Seq<Seq<char>> {
    pieces.filter(is_file_name()).map_values(|piece: Seq<u8>| decode_utf8(piece))
}

/// The files that git lists, in order.
pub open spec fn tracked_files_in(stdout: Seq<u8>) -> Seq<Seq<char>> {
    sorted_texts(names_in(nul_separated(stdout)))
}

proof fn lemma_nul_separated(bytes: Seq<u8>)
    ensures
        nul_separated(bytes).len() > 0,
    decreases bytes.len(),
{
    if bytes.len() > 0 {
        lemma_nul_separated(bytes.drop_last());
    }
}

proof fn lemma_names_push(pieces: Seq<Seq<u8>>, piece: Seq<u8>)
    ensures
        names_in(pieces.push(piece)) == if is_file_name()(piece) {
            names_in(pieces).push(decode_utf8(piece))
        } else {
            names_in(pieces)
        },
{
    let all = pieces.push(piece);
    lemma_filter_step(all, is_file_name(), pieces.len() as int);
    assert(all.take(pieces.len() as int) =~= pieces);
    assert(all.take(all.len() as int) =~= all);
    if is_file_name()(piece) {
        assert(names_in(all) =~= names_in(pieces).push(decode_utf8(piece)));
    }
}

/// Appends the piece to the list, if it is the name of a file.
fn push_name(names: &mut Vec<String>, piece: &Vec<u8>, Ghost(pieces): Ghost<Seq<Seq<u8>>>)
    requires
        texts(old(names)@) == names_in(pieces),
    ensures
        texts(final(names)@) == names_in(pieces.push(piece@)),
{
    proof {
        lemma_names_push(pieces, piece@);
    }
    let ghost before = names@;
    if piece.len() > 0 {
        if let Some(name) = text_of_utf8(piece) {
            names.push(name);
            assert(texts(names@) =~= texts(before).push(name@));
        }
    }
}

/// The files that `git ls-files -z` lists on its standard output, in order.
pub fn tracked_files(stdout: &Vec<u8>) -> (r: Vec<String>)
    ensures
        texts(r@) == tracked_files_in(stdout@),
{
    let mut names: Vec<String> = Vec::new();
    let mut piece: Vec<u8> = Vec::new();
    let mut i: usize = 0;
    let ghost mut pieces: Seq<Seq<u8>> = Seq::empty();
    proof {
        assert(stdout@.take(0) =~= Seq::empty());
        assert(pieces.push(piece@) =~= nul_separated(stdout@.take(0)));
        reveal(Seq::filter);
        assert(texts(names@) =~= names_in(pieces));
    }
    while i < stdout.len()
        invariant
            i <= stdout@.len(),
            pieces.push(piece@) == nul_separated(stdout@.take(i as int)),
            texts(names@) == names_in(pieces),
        decreases stdout@.len() - i,
    {
        let byte = stdout[i];
        proof {
            let taken = stdout@.take(i + 1);
            assert(taken.drop_last() =~= stdout@.take(i as int));
            assert(taken.last() == byte);
            assert(pieces.push(piece@).drop_last() =~= pieces);
        }
        if byte == 0 {
            push_name(&mut names, &piece, Ghost(pieces));
            proof {
                pieces = pieces.push(piece@);
            }
            piece = Vec::new();
            assert(piece@ =~= Seq::empty());
        } else {
            piece.push(byte);
        }
        i += 1;
    }
    push_name(&mut names, &piece, Ghost(pieces));
    assert(stdout@.take(stdout@.len() as int) =~= stdout@);
    sort_texts(names)
}

/// Why the files that git tracks could not be listed.
#[derive(Debug, PartialEq, Eq)]
pub enum TrackedError {
    /// Git could not be run.
    CannotRunGit(String),
    /// Git failed, with this on its standard error.
    GitFailed(String),
}

/// Why two packages could not be compared.
#[derive(Debug, PartialEq, Eq)]
pub enum CompareError {
    /// The original manifest of the released package could not be renamed.
    CannotRename(String),
    /// The files of the local package could not be determined.
    LocalFiles(ListError),
    /// The files of the released package could not be determined.
    RegistryFiles(ListError),
    /// The files that git tracks in the local directory could not be listed.
    LocalTracked(TrackedError),
    /// The files that git tracks in the directory of the release could not be listed.
    RegistryTracked(TrackedError),
    /// A file is not inside the directory of the local package.
    OutsidePackage,
    /// A file could not be read.
    CannotHash(String),
    /// The reply was for another request.
    UnexpectedReply,
}

/// The files that git tracks, as its output lists them.
pub open spec fn listed_by_git(output: Result<GitOutput, String>) -> Result<
    Seq<Seq<char>>,
    TrackedError,
> {
    match output {
        Ok(output) => if output.success {
            Ok(tracked_files_in(output.stdout@))
        } else {
            Err(TrackedError::GitFailed(output.stderr))
        },
        Err(cause) => Err(TrackedError::CannotRunGit(cause)),
    }
}

/// The files that git tracks in a directory, from what running `git ls-files -z` there gave.
pub fn list_git_tracked_files(output: Result<GitOutput, String>) -> (r: Result<
    Vec<String>,
    TrackedError,
>)
    ensures
        match r {
            Ok(files) => listed_by_git(output) == Ok::<_, TrackedError>(texts(files@)),
            Err(error) => listed_by_git(output) == Err::<Seq<Seq<char>>, _>(error),
        },
{
    match output {
        Ok(output) => if output.success {
            Ok(tracked_files(&output.stdout))
        } else {
            Err(TrackedError::GitFailed(output.stderr))
        },
        Err(cause) => Err(TrackedError::CannotRunGit(cause)),
    }
}

/// The arguments with which git lists the files that it tracks.
pub open spec fn ls_files_args() -> Seq<Seq<char>> {
    seq!["ls-files"@, "-z"@]
}

fn ls_files() -> (r: Vec<String>)
    ensures
        texts(r@) == ls_files_args(),
{
    let args = vec!["ls-files".to_owned(), "-z".to_owned()];
    assert(texts(args@) =~= ls_files_args());
    args
}

/// The name is one of a file that is compared between source directories: not of one that cargo
/// generates.
pub open spec fn is_comparable_named(name: Option<Seq<char>>) -> bool {
    &&& name != Some("Cargo.lock"@)
    &&& name != Some("Cargo.toml.orig"@)
    &&& name != Some("Cargo.toml.orig.orig"@)
    &&& name != Some(".cargo_vcs_info.json"@)
}

/// Which files of a source directory are compared.
pub open spec fn is_comparable() -> spec_fn(Seq<char>) -> bool {
    |path: Seq<char>| is_comparable_named(path_name(path))
}

/// Whether the optional text is the given one.
fn is_opt_text(a: Option<&str>, b: &str) -> (r: bool)
    ensures
        r == (opt_str(a) == Some(b@)),
{
    match a {
        Some(a) => is_text(a, b),
        None => false,
    }
}

/// Whether a file with the name is looked at when source directories are compared. Files that
/// cargo generates are not: they differ between directories with the same source.
pub fn is_comparable_name(name: Option<&str>) -> (r: bool)
    ensures
        r == is_comparable_named(opt_str(name)),
{
    !is_opt_text(name, "Cargo.lock") && !is_opt_text(name, "Cargo.toml.orig") && !is_opt_text(
        name,
        "Cargo.toml.orig.orig",
    ) && !is_opt_text(name, ".cargo_vcs_info.json")
}

/// Whether a file is looked at when source directories are compared. Only its name counts.
pub fn is_comparable_source_file(path: &str) -> (r: bool)
    ensures
        r == is_comparable()(path@),
{
    is_comparable_name(as_opt_str(&file_name(path)))
}

/// The path of a file in a directory, from its path there. A file that is named there directly
/// keeps its name, and so is compared or not as the name says.
pub fn file_in(dir: &str, file: &str) -> (r: String)
    ensures
        r@ == joined(dir@, file@),
        is_single_name(path_parts(file@)) && prefix_of(path_parts(r@)) == prefix_of(
            path_parts(dir@),
        ) ==> path_name(r@) == path_name(file@) && is_comparable()(r@) == is_comparable()(file@),
{
    let r = join(dir, file);
    proof {
        if is_single_name(path_parts(file@)) && prefix_of(path_parts(r@)) == prefix_of(
            path_parts(dir@),
        ) {
            law_only_the_name_counts(dir@, file@);
        }
    }
    r
}

/// There is one part, and it is a name.
pub open spec fn is_single_name(parts: Seq<Part>) -> bool {
    parts.len() == 1 && parts[0] is Normal
}

/// In whatever directory a file is, only its name says whether it is compared: the path of a single
/// name that is adjoined to a directory compares as the name does. What is required is what
/// adjoining a path means, and that no other Windows prefix comes about.
pub proof fn law_only_the_name_counts(dir: Seq<char>, name: Seq<char>)
    requires
        is_adjoined(path_parts(dir), path_parts(name), path_parts(joined(dir, name))),
        is_single_name(path_parts(name)),
        prefix_of(path_parts(joined(dir, name))) == prefix_of(path_parts(dir)),
    ensures
        path_name(joined(dir, name)) == path_name(name),
        is_comparable()(joined(dir, name)) == is_comparable()(name),
{
    let whole = path_parts(joined(dir, name));
    let part = path_parts(name);
    assert(are_names(part));
    assert(part.is_suffix_of(whole));
    assert(whole.subrange(whole.len() - 1, whole.len() as int)[0] == part[0]);
    assert(whole.last() == part.last());
}

/// Which files of the list of a local package are compared with those of the release.
pub open spec fn is_listed_locally() -> spec_fn(Seq<char>) -> bool {
    |path: Seq<char>|
        !same_path(path, "Cargo.toml.orig"@) && !same_path(path, ".cargo_vcs_info.json"@)
}

/// Which files of the list of a released package are compared with those of the local package.
pub open spec fn is_listed_in_registry() -> spec_fn(Seq<char>) -> bool {
    |path: Seq<char>|
        !same_path(path, "Cargo.toml.orig"@) && !same_path(path, "Cargo.toml.orig.orig"@)
            && !same_path(path, ".cargo_vcs_info.json"@)
}

/// The name is one of a file of a package that is compared by content.
pub open spec fn has_compared_name(name: Option<Seq<char>>) -> bool {
    &&& name != Some("Cargo.lock"@)
    &&& name != Some("Cargo.toml"@)
    &&& name != Some("Cargo.toml.orig"@)
}

/// Which files of a package are compared by content.
pub open spec fn has_compared_content(path: Seq<char>) -> bool {
    has_compared_name(path_name(path))
}

/// The files of a source directory that are compared.
fn comparable_files(files: &Vec<String>) -> (r: Vec<String>)
    ensures
        texts(r@) == texts(files@).filter(is_comparable()),
{
    let ghost all = texts(files@);
    let mut out: Vec<String> = Vec::new();
    let mut i: usize = 0;
    assert(texts(out@) =~= all.take(0).filter(is_comparable())) by {
        reveal(Seq::filter);
    }
    while i < files.len()
        invariant
            i <= files@.len(),
            all == texts(files@),
            texts(out@) == all.take(i as int).filter(is_comparable()),
        decreases files@.len() - i,
    {
        let ghost before = out@;
        proof {
            lemma_filter_step(all, is_comparable(), i as int);
            assert(all[i as int] == files@[i as int]@);
        }
        if is_comparable_source_file(files[i].as_str()) {
            out.push(files[i].clone());
            assert(texts(out@) =~= texts(before).push(files@[i as int]@));
        }
        i += 1;
    }
    assert(all.take(all.len() as int) =~= all);
    out
}

/// The files of a list without those that cargo writes into a package.
fn listed_files(files: &Vec<String>, registry: bool) -> (r: Vec<String>)
    ensures
        registry ==> texts(r@) == texts(files@).filter(is_listed_in_registry()),
        !registry ==> texts(r@) == texts(files@).filter(is_listed_locally()),
{
    let ghost all = texts(files@);
    let ghost keep = if registry {
        is_listed_in_registry()
    } else {
        is_listed_locally()
    };
    let mut out: Vec<String> = Vec::new();
    let mut i: usize = 0;
    assert(texts(out@) =~= all.take(0).filter(keep)) by {
        reveal(Seq::filter);
    }
    while i < files.len()
        invariant
            i <= files@.len(),
            all == texts(files@),
            keep == if registry {
                is_listed_in_registry()
            } else {
                is_listed_locally()
            },
            texts(out@) == all.take(i as int).filter(keep),
        decreases files@.len() - i,
    {
        let ghost before = out@;
        let file = files[i].as_str();
        proof {
            lemma_filter_step(all, keep, i as int);
            assert(all[i as int] == files@[i as int]@);
        }
        let generated = is_same_path(file, "Cargo.toml.orig") || is_same_path(
            file,
            ".cargo_vcs_info.json",
        ) || (registry && is_same_path(file, "Cargo.toml.orig.orig"));
        if !generated {
            out.push(files[i].clone());
            assert(texts(out@) =~= texts(before).push(files@[i as int]@));
        }
        i += 1;
    }
    assert(all.take(all.len() as int) =~= all);
    out
}

/// What is asked of a pair of files.
#[derive(Debug, Clone, Copy, PartialEq, Eq, Structural)]
pub enum Probe {
    LocalExists,
    RegistryExists,
    LocalSymlink,
    RegistrySymlink,
    LocalContent,
    /// The content of the released file, to be compared with the hash of the local one.
    RegistryContent(u64),
}

/// How far the comparison of two packages has come.
#[derive(Debug, PartialEq, Eq)]
enum Stage {
    Layout,
    LocalManifest { source: bool },
    RegistryManifest { source: bool, hash: u64 },
    MoveOrig,
    LocalFiles,
    RegistryFiles { local_files: Vec<String> },
    RestoreOrig { local_files: Vec<String>, registry_files: Vec<String> },
    LocalTracked,
    RegistryTracked { local_files: Vec<String> },
    Check { source: bool, files: Vec<String>, at: usize, probe: Probe },
    Done(Result<bool, CompareError>),
}

/// What a stage of the comparison of two packages stands for.
pub ghost enum StageView {
    /// Is the released package a directory of source files?
    Layout,
    /// The manifest of the local package.
    LocalManifest { source: bool },
    /// The manifest of the released package, to be compared with the hash of the local one.
    RegistryManifest { source: bool, hash: u64 },
    /// The original manifest of the released package gets another name, because cargo does not
    /// accept a file with that name in a package.
    MoveOrig,
    /// The files of the local package.
    LocalFiles,
    /// The files of the released package.
    RegistryFiles { local_files: Seq<Seq<char>> },
    /// The original manifest of the released package gets its name back.
    RestoreOrig { local_files: Seq<Seq<char>>, registry_files: Seq<Seq<char>> },
    /// The files that git tracks in the local directory.
    LocalTracked,
    /// The files that git tracks in the directory of the release.
    RegistryTracked { local_files: Seq<Seq<char>> },
    /// The file at position `at` is compared.
    Check { source: bool, files: Seq<Seq<char>>, at: int, probe: Probe },
    /// The comparison is done.
    Done(Result<bool, CompareError>),
}

/// The comparison of a local package with its last release.
#[derive(Debug, PartialEq, Eq)]
pub struct Comparison {
    local: String,
    registry: String,
    stage: Stage,
}

/// What the comparison of a local package with its last release stands for.
pub ghost struct ComparisonView {
    pub local: Seq<char>,
    pub registry: Seq<char>,
    pub stage: StageView,
}

impl View for Stage {
    type V = StageView;

    closed spec fn view(&self) -> StageView {
        match *self {
            Stage::Layout => StageView::Layout,
            Stage::LocalManifest { source } => StageView::LocalManifest { source },
            Stage::RegistryManifest { source, hash } => StageView::RegistryManifest {
                source,
                hash,
            },
            Stage::MoveOrig => StageView::MoveOrig,
            Stage::LocalFiles => StageView::LocalFiles,
            Stage::RegistryFiles { local_files } => StageView::RegistryFiles {
                local_files: texts(local_files@),
            },
            Stage::RestoreOrig { local_files, registry_files } => StageView::RestoreOrig {
                local_files: texts(local_files@),
                registry_files: texts(registry_files@),
            },
            Stage::LocalTracked => StageView::LocalTracked,
            Stage::RegistryTracked { local_files } => StageView::RegistryTracked {
                local_files: texts(local_files@),
            },
            Stage::Check { source, files, at, probe } => StageView::Check {
                source,
                files: texts(files@),
                at: at as int,
                probe,
            },
            Stage::Done(result) => StageView::Done(result),
        }
    }
}

impl View for Comparison {
    type V = ComparisonView;

    closed spec fn view(&self) -> ComparisonView {
        ComparisonView { local: self.local@, registry: self.registry@, stage: self.stage@ }
    }
}

/// The manifest in a directory.
pub open spec fn manifest_in(dir: Seq<char>) -> Seq<char> {
    joined(dir, "Cargo.toml"@)
}

/// The original manifest in the directory of a packaged package.
pub open spec fn orig_in(dir: Seq<char>) -> Seq<char> {
    joined(dir, "Cargo.toml.orig"@)
}

/// The name that the original manifest has while cargo lists the files of the package.
pub open spec fn moved_orig_in(dir: Seq<char>) -> Seq<char> {
    joined(dir, "Cargo.toml.orig.orig"@)
}

impl ComparisonView {
    /// The comparison at another stage.
    pub open spec fn at(self, stage: StageView) -> ComparisonView {
        ComparisonView { stage, ..self }
    }

    pub open spec fn done(self, result: Result<bool, CompareError>) -> ComparisonView {
        self.at(StageView::Done(result))
    }

    /// The local file that stands for `file` of the list.
    pub open spec fn local_file(self, file: Seq<char>) -> Seq<char> {
        joined(self.local, file)
    }

    /// The released file that a local file is compared with.
    pub open spec fn registry_file(self, source: bool, file: Seq<char>) -> Seq<char> {
        if source {
            joined(self.registry, file)
        } else {
            joined(self.registry, stripped(self.local_file(file), self.local)->0)
        }
    }

    /// What the comparison asks for.
    pub open spec fn asks(self) -> Option<RequestView> {
        match self.stage {
            StageView::Layout => Some(RequestView::Exists(orig_in(self.registry))),
            StageView::LocalManifest { .. } => Some(
                RequestView::ReadFile(manifest_in(self.local)),
            ),
            StageView::RegistryManifest { source, .. } => Some(
                RequestView::ReadFile(
                    if source {
                        manifest_in(self.registry)
                    } else {
                        orig_in(self.registry)
                    },
                ),
            ),
            StageView::MoveOrig => Some(
                RequestView::Rename {
                    from: orig_in(self.registry),
                    to: moved_orig_in(self.registry),
                },
            ),
            StageView::LocalFiles => Some(RequestView::PackageFiles(self.local)),
            StageView::RegistryFiles { .. } => Some(RequestView::PackageFiles(self.registry)),
            StageView::RestoreOrig { .. } => Some(
                RequestView::Rename {
                    from: moved_orig_in(self.registry),
                    to: orig_in(self.registry),
                },
            ),
            StageView::LocalTracked => Some(
                RequestView::Git { dir: self.local, args: ls_files_args() },
            ),
            StageView::RegistryTracked { .. } => Some(
                RequestView::Git { dir: self.registry, args: ls_files_args() },
            ),
            StageView::Check { source, files, at, probe } => {
                let local = self.local_file(files[at]);
                let registry = self.registry_file(source, files[at]);
                Some(
                    match probe {
                        Probe::LocalExists => RequestView::Exists(local),
                        Probe::RegistryExists => RequestView::Exists(registry),
                        Probe::LocalSymlink => RequestView::IsSymlink(local),
                        Probe::RegistrySymlink => RequestView::IsSymlink(registry),
                        Probe::LocalContent => RequestView::ReadFile(local),
                        Probe::RegistryContent(_) => RequestView::ReadFile(registry),
                    },
                )
            },
            StageView::Done(_) => None,
        }
    }

    /// The comparison goes on with the file at position `at`, if there is one.
    pub open spec fn check(
        self,
        source: bool,
        files: Seq<Seq<char>>,
        at: int,
    ) -> ComparisonView {
        if at < files.len() {
            let probe = if source {
                Probe::LocalExists
            } else {
                Probe::LocalSymlink
            };
            self.at(StageView::Check { source, files, at, probe })
        } else {
            self.done(Ok(true))
        }
    }

    /// The comparison after a probe of the file at position `at`.
    pub open spec fn after_probe(
        self,
        source: bool,
        files: Seq<Seq<char>>,
        at: int,
        probe: Probe,
        reply: Reply,
    ) -> ComparisonView {
        let skip = self.check(source, files, at + 1);
        match (probe, reply) {
            (Probe::LocalExists, Reply::Flag(exists)) => if !exists {
                skip
            } else if source {
                self.at(StageView::Check { source, files, at, probe: Probe::RegistryExists })
            } else if !has_compared_content(self.local_file(files[at])) {
                skip
            } else if stripped(self.local_file(files[at]), self.local) is None {
                self.done(Err(CompareError::OutsidePackage))
            } else {
                self.at(StageView::Check { source, files, at, probe: Probe::LocalContent })
            },
            (Probe::RegistryExists, Reply::Flag(exists)) => if exists {
                self.at(StageView::Check { source, files, at, probe: Probe::LocalSymlink })
            } else {
                skip
            },
            (Probe::LocalSymlink, Reply::Flag(symlink)) => if symlink {
                skip
            } else if source {
                self.at(StageView::Check { source, files, at, probe: Probe::RegistrySymlink })
            } else {
                self.at(StageView::Check { source, files, at, probe: Probe::LocalExists })
            },
            (Probe::RegistrySymlink, Reply::Flag(symlink)) => if symlink {
                skip
            } else {
                self.at(StageView::Check { source, files, at, probe: Probe::LocalContent })
            },
            (Probe::LocalContent, Reply::Content(Ok(content))) => {
                let probe = Probe::RegistryContent(content_hash(content@));
                self.at(StageView::Check { source, files, at, probe })
            },
            (Probe::RegistryContent(hash), Reply::Content(Ok(content))) => if hash
                == content_hash(content@) {
                skip
            } else {
                self.done(Ok(false))
            },
            (Probe::LocalContent, Reply::Content(Err(cause))) => self.done(
                Err(CompareError::CannotHash(cause)),
            ),
            (Probe::RegistryContent(_), Reply::Content(Err(cause))) => self.done(
                Err(CompareError::CannotHash(cause)),
            ),
            _ => self.done(Err(CompareError::UnexpectedReply)),
        }
    }

    /// The comparison after a reply to what it asks for.
    pub open spec fn next(self, reply: Reply) -> ComparisonView {
        match (self.stage, reply) {
            (StageView::Done(_), _) => self,
            (StageView::Layout, Reply::Flag(packaged)) => self.at(
                StageView::LocalManifest { source: !packaged },
            ),
            (StageView::LocalManifest { source }, Reply::Content(content)) => match content {
                Ok(content) => self.at(
                    StageView::RegistryManifest { source, hash: content_hash(content@) },
                ),
                Err(_) => self.done(Ok(false)),
            },
            (StageView::RegistryManifest { source, hash }, Reply::Content(content)) => {
                if content is Ok && content_hash(content->Ok_0@) == hash {
                    self.at(
                        if source {
                            StageView::LocalTracked
                        } else {
                            StageView::MoveOrig
                        },
                    )
                } else {
                    self.done(Ok(false))
                }
            },
            (StageView::MoveOrig, Reply::Renamed(renamed)) => match renamed {
                Ok(_) => self.at(StageView::LocalFiles),
                Err(cause) => self.done(Err(CompareError::CannotRename(cause))),
            },
            (StageView::LocalFiles, Reply::Files(files)) => match files {
                Ok(files) => self.at(StageView::RegistryFiles { local_files: texts(files@) }),
                Err(error) => self.done(Err(CompareError::LocalFiles(error))),
            },
            (StageView::RegistryFiles { local_files }, Reply::Files(files)) => match files {
                Ok(files) => self.at(
                    StageView::RestoreOrig { local_files, registry_files: texts(files@) },
                ),
                Err(error) => self.done(Err(CompareError::RegistryFiles(error))),
            },
            (
                StageView::RestoreOrig { local_files, registry_files },
                Reply::Renamed(renamed),
            ) => match renamed {
                Ok(_) => {
                    let local_files = local_files.filter(is_listed_locally());
                    if same_paths(local_files, registry_files.filter(is_listed_in_registry())) {
                        self.check(false, local_files, 0)
                    } else {
                        self.done(Ok(false))
                    }
                },
                Err(cause) => self.done(Err(CompareError::CannotRename(cause))),
            },
            (StageView::LocalTracked, Reply::Git(output)) => match listed_by_git(output) {
                Ok(local_files) => self.at(StageView::RegistryTracked { local_files }),
                Err(error) => self.done(Err(CompareError::LocalTracked(error))),
            },
            (StageView::RegistryTracked { local_files }, Reply::Git(output)) => match listed_by_git(
                output,
            ) {
                Ok(registry_files) => {
                    let local_set = path_set(local_files.filter(is_comparable()));
                    if same_paths(local_set, path_set(registry_files.filter(is_comparable()))) {
                        self.check(true, local_set, 0)
                    } else {
                        self.done(Ok(false))
                    }
                },
                Err(error) => self.done(Err(CompareError::RegistryTracked(error))),
            },
            (StageView::Check { source, files, at, probe }, _) => self.after_probe(
                source,
                files,
                at,
                probe,
                reply,
            ),
            _ => self.done(Err(CompareError::UnexpectedReply)),
        }
    }
}

/// Compares a local package with its last release.
///
/// The release is the directory of a packaged package, or a directory of source files where the
/// package could not be packaged.
pub fn are_packages_equal(local_package: &str, registry_package: &str) -> (r: Comparison)
    ensures
        r@ == (ComparisonView {
            local: local_package@,
            registry: registry_package@,
            stage: StageView::Layout,
        }),
{
    Comparison {
        local: local_package.to_owned(),
        registry: registry_package.to_owned(),
        stage: Stage::Layout,
    }
}

/// Compares two directories of source files: first their manifests, then the files that git tracks
/// in them.
///
/// It stands in for the comparison of packaged packages where a package could not be packaged.
pub fn are_source_dirs_equal(local_package: &str, registry_package: &str) -> (r: Comparison)
    ensures
        r@ == (ComparisonView {
            local: local_package@,
            registry: registry_package@,
            stage: StageView::LocalManifest { source: true },
        }),
{
    Comparison {
        local: local_package.to_owned(),
        registry: registry_package.to_owned(),
        stage: Stage::LocalManifest { source: true },
    }
}

impl Comparison {
    #[verifier::type_invariant]
    spec fn wf(self) -> bool {
        match self.stage {
            Stage::Check { source, files, at, probe } => {
                &&& at < files@.len()
                &&& !source ==> match probe {
                    Probe::LocalSymlink => true,
                    Probe::LocalExists => true,
                    Probe::LocalContent | Probe::RegistryContent(_) => stripped(
                        joined(self.local@, files@[at as int]@),
                        self.local@,
                    ) is Some,
                    _ => false,
                }
            },
            _ => true,
        }
    }

    /// What the comparison asks for; nothing when it is done.
    pub fn request(&self) -> (r: Option<Request>)
        ensures
            asked(r) == self@.asks(),
    {
        proof {
            use_type_invariant(self);
        }
        let local = self.local.as_str();
        let registry = self.registry.as_str();
        match &self.stage {
            Stage::Layout => Some(Request::Exists(join(registry, "Cargo.toml.orig"))),
            Stage::LocalManifest { .. } => Some(Request::ReadFile(join(local, "Cargo.toml"))),
            Stage::RegistryManifest { source, .. } => Some(
                Request::ReadFile(
                    if *source {
                        join(registry, "Cargo.toml")
                    } else {
                        join(registry, "Cargo.toml.orig")
                    },
                ),
            ),
            Stage::MoveOrig => Some(
                Request::Rename {
                    from: join(registry, "Cargo.toml.orig"),
                    to: join(registry, "Cargo.toml.orig.orig"),
                },
            ),
            Stage::LocalFiles => Some(Request::PackageFiles(self.local.clone())),
            Stage::RegistryFiles { .. } => Some(Request::PackageFiles(self.registry.clone())),
            Stage::RestoreOrig { .. } => Some(
                Request::Rename {
                    from: join(registry, "Cargo.toml.orig.orig"),
                    to: join(registry, "Cargo.toml.orig"),
                },
            ),
            Stage::LocalTracked => Some(
                Request::Git { dir: self.local.clone(), args: ls_files() },
            ),
            Stage::RegistryTracked { .. } => Some(
                Request::Git { dir: self.registry.clone(), args: ls_files() },
            ),
            Stage::Check { source, files, at, probe } => {
                let file = files[*at].as_str();
                assert(texts(files@)[*at as int] == file@);
                Some(
                    match *probe {
                        Probe::LocalExists => Request::Exists(file_in(local, file)),
                        Probe::LocalSymlink => Request::IsSymlink(file_in(local, file)),
                        Probe::LocalContent => Request::ReadFile(file_in(local, file)),
                        Probe::RegistryExists => Request::Exists(
                            self.registry_path(*source, file),
                        ),
                        Probe::RegistrySymlink => Request::IsSymlink(
                            self.registry_path(*source, file),
                        ),
                        Probe::RegistryContent(_) => Request::ReadFile(
                            self.registry_path(*source, file),
                        ),
                    },
                )
            },
            Stage::Done(_) => None,
        }
    }

    /// The released file that a local file is compared with.
    fn registry_path(&self, source: bool, file: &str) -> (r: String)
        requires
            source || stripped(joined(self.local@, file@), self.local@) is Some,
        ensures
            r@ == self@.registry_file(source, file@),
    {
        if !source {
            let local_file = file_in(self.local.as_str(), file);
            if let Some(rest) = strip_prefix(local_file.as_str(), self.local.as_str()) {
                return file_in(self.registry.as_str(), rest.as_str());
            }
        }
        file_in(self.registry.as_str(), file)
    }

    /// Goes on with the reply to what was asked for.
    pub fn reply(self, reply: Reply) -> (r: Comparison)
        ensures
            r@ == self@.next(reply),
    {
        proof {
            use_type_invariant(&self);
        }
        let Comparison { local, registry, stage } = self;
        match (stage, reply) {
            (Stage::Done(result), _) => Comparison { local, registry, stage: Stage::Done(result) },
            (Stage::Layout, Reply::Flag(packaged)) => if packaged {
                Comparison { local, registry, stage: Stage::LocalManifest { source: false } }
            } else {
                are_source_dirs_equal(local.as_str(), registry.as_str())
            },
            (Stage::LocalManifest { source }, Reply::Content(content)) => {
                let stage = match content {
                    Ok(content) => Stage::RegistryManifest { source, hash: file_hash(&content) },
                    Err(_) => Stage::Done(Ok(false)),
                };
                Comparison { local, registry, stage }
            },
            (Stage::RegistryManifest { source, hash }, Reply::Content(content)) => {
                let equal = match content {
                    Ok(content) => file_hash(&content) == hash,
                    Err(_) => false,
                };
                let stage = if !equal {
                    Stage::Done(Ok(false))
                } else if source {
                    Stage::LocalTracked
                } else {
                    Stage::MoveOrig
                };
                Comparison { local, registry, stage }
            },
            (Stage::MoveOrig, Reply::Renamed(renamed)) => {
                let stage = match renamed {
                    Ok(_) => Stage::LocalFiles,
                    Err(cause) => Stage::Done(Err(CompareError::CannotRename(cause))),
                };
                Comparison { local, registry, stage }
            },
            (Stage::LocalFiles, Reply::Files(files)) => {
                let stage = match files {
                    Ok(files) => Stage::RegistryFiles { local_files: files },
                    Err(error) => Stage::Done(Err(CompareError::LocalFiles(error))),
                };
                Comparison { local, registry, stage }
            },
            (Stage::RegistryFiles { local_files }, Reply::Files(files)) => {
                let stage = match files {
                    Ok(files) => Stage::RestoreOrig { local_files, registry_files: files },
                    Err(error) => Stage::Done(Err(CompareError::RegistryFiles(error))),
                };
                Comparison { local, registry, stage }
            },
            (Stage::RestoreOrig { local_files, registry_files }, Reply::Renamed(renamed)) => {
                match renamed {
                    Ok(_) => {
                        let local_files = listed_files(&local_files, false);
                        let registry_files = listed_files(&registry_files, true);
                        if are_same_paths(&local_files, &registry_files) {
                            check(local, registry, false, local_files, 0)
                        } else {
                            Comparison { local, registry, stage: Stage::Done(Ok(false)) }
                        }
                    },
                    Err(cause) => Comparison {
                        local,
                        registry,
                        stage: Stage::Done(Err(CompareError::CannotRename(cause))),
                    },
                }
            },
            (Stage::LocalTracked, Reply::Git(output)) => {
                let stage = match list_git_tracked_files(output) {
                    Ok(local_files) => Stage::RegistryTracked { local_files },
                    Err(error) => Stage::Done(Err(CompareError::LocalTracked(error))),
                };
                Comparison { local, registry, stage }
            },
            (Stage::RegistryTracked { local_files }, Reply::Git(output)) => {
                match list_git_tracked_files(output) {
                    Ok(registry_files) => {
                        let local_set = ordered_paths(&comparable_files(&local_files));
                        let registry_set = ordered_paths(&comparable_files(&registry_files));
                        if are_same_paths(&local_set, &registry_set) {
                            check(local, registry, true, local_set, 0)
                        } else {
                            Comparison { local, registry, stage: Stage::Done(Ok(false)) }
                        }
                    },
                    Err(error) => Comparison {
                        local,
                        registry,
                        stage: Stage::Done(Err(CompareError::RegistryTracked(error))),
                    },
                }
            },
            (Stage::Check { source, files, at, probe }, reply) => after_probe(
                local,
                registry,
                source,
                files,
                at,
                probe,
                reply,
            ),
            _ => Comparison {
                local,
                registry,
                stage: Stage::Done(Err(CompareError::UnexpectedReply)),
            },
        }
    }

    /// Whether the packages are equal; nothing while the comparison is not done.
    pub fn result(self) -> (r: Option<Result<bool, CompareError>>)
        ensures
            match r {
                Some(result) => self@.stage == StageView::Done(result),
                None => !(self@.stage is Done),
            },
    {
        match self.stage {
            Stage::Done(result) => Some(result),
            _ => None,
        }
    }
}

/// The comparison goes on with the file at position `at`, if there is one.
fn check(
    local: String,
    registry: String,
    source: bool,
    files: Vec<String>,
    at: usize,
) -> (r: Comparison)
    requires
        at <= files@.len(),
    ensures
        forall|stage: StageView|
            r@ == (#[trigger] ComparisonView { local: local@, registry: registry@, stage }.check(
                source,
                texts(files@),
                at as int,
            )),
{
    let stage = if at < files.len() {
        let probe = if source {
            Probe::LocalExists
        } else {
            Probe::LocalSymlink
        };
        Stage::Check { source, files, at, probe }
    } else {
        Stage::Done(Ok(true))
    };
    Comparison { local, registry, stage }
}

/// Whether the content of a file of a package with the name is compared. Lock files differ between
/// workspaces, and manifests are compared before.
pub fn is_content_compared(name: Option<&str>) -> (r: bool)
    ensures
        r == has_compared_name(opt_str(name)),
{
    !is_opt_text(name, "Cargo.lock") && !is_opt_text(name, "Cargo.toml") && !is_opt_text(
        name,
        "Cargo.toml.orig",
    )
}

/// The comparison after a probe of the file at position `at`.
fn after_probe(
    local: String,
    registry: String,
    source: bool,
    files: Vec<String>,
    at: usize,
    probe: Probe,
    reply: Reply,
) -> (r: Comparison)
    requires
        at < files@.len(),
        !source ==> match probe {
            Probe::LocalSymlink => true,
            Probe::LocalExists => true,
            Probe::LocalContent | Probe::RegistryContent(_) => stripped(
                joined(local@, files@[at as int]@),
                local@,
            ) is Some,
            _ => false,
        },
    ensures
        r@ == (ComparisonView {
            local: local@,
            registry: registry@,
            stage: StageView::Check { source, files: texts(files@), at: at as int, probe },
        }).after_probe(source, texts(files@), at as int, probe, reply),
{
    assert(texts(files@)[at as int] == files@[at as int]@);
    assert(files.len() <= usize::MAX);
    match (probe, reply) {
        (Probe::LocalExists, Reply::Flag(exists)) => {
            if !exists {
                check(local, registry, source, files, at + 1)
            } else if source {
                let stage = Stage::Check { source, files, at, probe: Probe::RegistryExists };
                Comparison { local, registry, stage }
            } else {
                let local_file = file_in(local.as_str(), files[at].as_str());
                if !is_content_compared(as_opt_str(&file_name(local_file.as_str()))) {
                    check(local, registry, source, files, at + 1)
                } else if strip_prefix(local_file.as_str(), local.as_str()).is_none() {
                    let stage = Stage::Done(Err(CompareError::OutsidePackage));
                    Comparison { local, registry, stage }
                } else {
                    let stage = Stage::Check { source, files, at, probe: Probe::LocalContent };
                    Comparison { local, registry, stage }
                }
            }
        },
        (Probe::RegistryExists, Reply::Flag(exists)) => {
            if exists {
                let stage = Stage::Check { source, files, at, probe: Probe::LocalSymlink };
                Comparison { local, registry, stage }
            } else {
                check(local, registry, source, files, at + 1)
            }
        },
        (Probe::LocalSymlink, Reply::Flag(symlink)) => {
            if symlink {
                check(local, registry, source, files, at + 1)
            } else {
                let probe = if source {
                    Probe::RegistrySymlink
                } else {
                    Probe::LocalExists
                };
                Comparison { local, registry, stage: Stage::Check { source, files, at, probe } }
            }
        },
        (Probe::RegistrySymlink, Reply::Flag(symlink)) => {
            if symlink {
                check(local, registry, source, files, at + 1)
            } else {
                let stage = Stage::Check { source, files, at, probe: Probe::LocalContent };
                Comparison { local, registry, stage }
            }
        },
        (Probe::LocalContent, Reply::Content(Ok(content))) => {
            let probe = Probe::RegistryContent(file_hash(&content));
            Comparison { local, registry, stage: Stage::Check { source, files, at, probe } }
        },
        (Probe::RegistryContent(hash), Reply::Content(Ok(content))) => {
            if hash == file_hash(&content) {
                check(local, registry, source, files, at + 1)
            } else {
                Comparison { local, registry, stage: Stage::Done(Ok(false)) }
            }
        },
        (Probe::LocalContent, Reply::Content(Err(cause))) => {
            let stage = Stage::Done(Err(CompareError::CannotHash(cause)));
            Comparison { local, registry, stage }
        },
        (Probe::RegistryContent(_), Reply::Content(Err(cause))) => {
            let stage = Stage::Done(Err(CompareError::CannotHash(cause)));
            Comparison { local, registry, stage }
        },
        _ => {
            let stage = Stage::Done(Err(CompareError::UnexpectedReply));
            Comparison { local, registry, stage }
        },
    }
}

/// What a hasher is given to tell a content by: its length, and all of its bytes.
pub open spec fn length_and_bytes(content: Seq<u8>) -> Seq<Seq<u8>> {
    seq![spec_u64_to_le_bytes(content.len() as u64), content]
}

/// The standard hasher tells two contents apart, if they are different.
pub open spec fn no_collision(a: Seq<u8>, b: Seq<u8>) -> bool {
    DefaultHasher::spec_finish(length_and_bytes(a)) == DefaultHasher::spec_finish(
        length_and_bytes(b),
    ) ==> length_and_bytes(a) == length_and_bytes(b)
}

/// Every byte of a file counts, wherever it stands: unless the standard hasher takes them for the
/// same, two contents have the same hash exactly where they are equal.
pub proof fn law_every_byte_counts(a: Seq<u8>, b: Seq<u8>)
    requires
        no_collision(a, b),
    ensures
        content_hash(a) == content_hash(b) <==> a == b,
{
    if content_hash(a) == content_hash(b) {
        assert(length_and_bytes(a)[1] == length_and_bytes(b)[1]);
    }
}

/// One byte that is changed, added or left out changes the hash of a content, unless the standard
/// hasher takes the two for the same.
pub proof fn law_changed_byte(content: Seq<u8>, at: int, byte: u8)
    requires
        0 <= at < content.len(),
        content[at] != byte,
        no_collision(content, content.update(at, byte)),
        no_collision(content, content.push(byte)),
        no_collision(content, content.drop_last()),
    ensures
        content_hash(content) != content_hash(content.update(at, byte)),
        content_hash(content) != content_hash(content.push(byte)),
        content_hash(content) != content_hash(content.drop_last()),
{
    law_every_byte_counts(content, content.update(at, byte));
    assert(content[at] != content.update(at, byte)[at]);
    law_every_byte_counts(content, content.push(byte));
    assert(content.len() != content.push(byte).len());
    law_every_byte_counts(content, content.drop_last());
    assert(content.len() != content.drop_last().len());
}

proof fn lemma_one_piece(bytes: Seq<u8>)
    requires
        !bytes.contains(0),
    ensures
        nul_separated(bytes) == seq![bytes],
    decreases bytes.len(),
{
    if bytes.len() > 0 {
        let rest = bytes.drop_last();
        assert(bytes[bytes.len() - 1] == bytes.last());
        assert(!rest.contains(0)) by {
            if rest.contains(0) {
                let i = rest.index_of(0);
                assert(bytes[i] == 0);
            }
        }
        lemma_one_piece(rest);
        assert(seq![rest].last() == rest);
        assert(rest.push(bytes.last()) =~= bytes);
        assert(seq![rest].drop_last().push(bytes) =~= seq![bytes]);
    } else {
        assert(bytes =~= Seq::empty());
    }
}

proof fn lemma_pieces_add(a: Seq<u8>, b: Seq<u8>)
    ensures
        nul_separated(a + seq![0u8] + b) == nul_separated(a) + nul_separated(b),
    decreases b.len(),
{
    let whole = a + seq![0u8] + b;
    lemma_nul_separated(b);
    if b.len() == 0 {
        assert(whole.drop_last() =~= a);
        assert(whole.last() == 0);
        assert(nul_separated(a).push(Seq::empty()) =~= nul_separated(a) + nul_separated(b));
    } else {
        let rest = b.drop_last();
        lemma_pieces_add(a, rest);
        lemma_nul_separated(rest);
        assert(whole.drop_last() =~= a + seq![0u8] + rest);
        assert(whole.last() == b.last());
        let x = nul_separated(a);
        let y = nul_separated(rest);
        assert((x + y).last() == y.last());
        assert((x + y).drop_last() =~= x + y.drop_last());
        if b.last() == 0 {
            assert((x + y).push(Seq::empty()) =~= x + y.push(Seq::empty()));
        } else {
            let piece = y.last().push(b.last());
            assert((x + y).drop_last().push(piece) =~= x + y.drop_last().push(piece));
        }
    }
}

proof fn lemma_names_add(a: Seq<Seq<u8>>, b: Seq<Seq<u8>>)
    ensures
        names_in(a + b) == names_in(a) + names_in(b),
{
    Seq::filter_distributes_over_add(a, b, is_file_name());
    assert(names_in(a + b) =~= names_in(a) + names_in(b));
}

/// Git lists files with a zero byte behind each. What stands before a zero byte and what stands
/// behind it list their files independently, and a piece without a zero byte is the name of one
/// file, unless it is empty or not valid UTF-8. The files come in order.
pub proof fn law_tracked_files(before: Seq<u8>, behind: Seq<u8>, piece: Seq<u8>)
    requires
        !piece.contains(0),
    ensures
        tracked_files_in(before + seq![0u8] + behind).to_multiset() == tracked_files_in(
            before,
        ).to_multiset().add(tracked_files_in(behind).to_multiset()),
        piece.len() > 0 && valid_utf8(piece) ==> tracked_files_in(piece) == seq![decode_utf8(piece)],
        piece.len() == 0 || !valid_utf8(piece) ==> tracked_files_in(piece) == Seq::<
            Seq<char>,
        >::empty(),
        forall|i: int, j: int|
            0 <= i < j < tracked_files_in(before).len() ==> text_le(
                #[trigger] tracked_files_in(before)[i],
                #[trigger] tracked_files_in(before)[j],
            ),
{
    lemma_pieces_add(before, behind);
    lemma_names_add(nul_separated(before), nul_separated(behind));
    let x = names_in(nul_separated(before));
    let y = names_in(nul_separated(behind));
    lemma_multiset_commutative(x, y);
    law_sorted(x);
    law_sorted(y);
    law_sorted(x + y);
    lemma_one_piece(piece);
    let none = Seq::<Seq<u8>>::empty();
    lemma_names_push(none, piece);
    assert(none.push(piece) =~= seq![piece]);
    assert(names_in(none) =~= Seq::empty()) by {
        reveal(Seq::filter);
    }
    let names = names_in(seq![piece]);
    law_sorted(names);
    if piece.len() > 0 && valid_utf8(piece) {
        let name = decode_utf8(piece);
        assert(names =~= seq![name]);
        assert(names[0] == name);
        assert(names.contains(name));
        let sorted = sorted_texts(names);
        assert(sorted.contains(name));
        assert(sorted =~= seq![name]);
    } else {
        assert(names =~= Seq::empty());
        assert(sorted_texts(names) =~= Seq::empty());
    }
}

/// The files that git tracks are known exactly where git could be run and succeeded.
pub proof fn law_listed_by_git(output: Result<GitOutput, String>)
    ensures
        output is Ok && output->Ok_0.success ==> listed_by_git(output) == Ok::<_, TrackedError>(
            tracked_files_in(output->Ok_0.stdout@),
        ),
        output is Ok && !output->Ok_0.success ==> listed_by_git(output) == Err::<Seq<Seq<char>>, _>(
            TrackedError::GitFailed(output->Ok_0.stderr),
        ),
        output matches Err(cause) ==> listed_by_git(output) == Err::<Seq<Seq<char>>, _>(
            TrackedError::CannotRunGit(cause),
        ),
{
}

/// Exactly four names are those of files that cargo generates. A file with any other name is
/// compared between source directories, in whatever directory it is.
pub proof fn law_generated_names(path: Seq<char>, name: Seq<char>)
    ensures
        is_comparable_named(None),
        is_comparable_named(Some(name)) <==> !seq![
            "Cargo.lock"@,
            "Cargo.toml.orig"@,
            "Cargo.toml.orig.orig"@,
            ".cargo_vcs_info.json"@,
        ].contains(name),
        last_name(path_parts(path)) == Some(name) ==> is_comparable()(path) == is_comparable_named(
            Some(name),
        ),
        last_name(path_parts(path)) is None ==> is_comparable()(path),
{
    let names = seq![
        "Cargo.lock"@,
        "Cargo.toml.orig"@,
        "Cargo.toml.orig.orig"@,
        ".cargo_vcs_info.json"@,
    ];
    assert(names[0] == "Cargo.lock"@);
    assert(names[1] == "Cargo.toml.orig"@);
    assert(names[2] == "Cargo.toml.orig.orig"@);
    assert(names[3] == ".cargo_vcs_info.json"@);
    if names.contains(name) {
        let i = names.index_of(name);
        assert(names[i] == name);
    }
}

/// Of the files of a package, lock files and manifests are not compared by content, and all others
/// are.
pub proof fn law_compared_names(path: Seq<char>, name: Seq<char>)
    ensures
        has_compared_name(None),
        has_compared_name(Some(name)) <==> !seq![
            "Cargo.lock"@,
            "Cargo.toml"@,
            "Cargo.toml.orig"@,
        ].contains(name),
        last_name(path_parts(path)) == Some(name) ==> has_compared_content(path)
            == has_compared_name(Some(name)),
        last_name(path_parts(path)) is None ==> has_compared_content(path),
{
    let names = seq!["Cargo.lock"@, "Cargo.toml"@, "Cargo.toml.orig"@];
    assert(names[0] == "Cargo.lock"@);
    assert(names[1] == "Cargo.toml"@);
    assert(names[2] == "Cargo.toml.orig"@);
    if names.contains(name) {
        let i = names.index_of(name);
        assert(names[i] == name);
    }
}

/// The lists of a package and of its release are the same apart from what cargo writes into a
/// package: a path is left out of a list exactly where it is one of these files at the top of the
/// package.
pub proof fn law_listed(path: Seq<char>)
    ensures
        is_listed_locally()(path) <==> path_parts(path) != path_parts("Cargo.toml.orig"@)
            && path_parts(path) != path_parts(".cargo_vcs_info.json"@),
        is_listed_in_registry()(path) <==> path_parts(path) != path_parts("Cargo.toml.orig"@)
            && path_parts(path) != path_parts("Cargo.toml.orig.orig"@) && path_parts(path)
            != path_parts(".cargo_vcs_info.json"@),
{
}

/// The manifests of a package are the files with these names in its directory.
pub proof fn law_manifests(dir: Seq<char>)
    ensures
        manifest_in(dir) == joined(dir, "Cargo.toml"@),
        orig_in(dir) == joined(dir, "Cargo.toml.orig"@),
        moved_orig_in(dir) == joined(dir, "Cargo.toml.orig.orig"@),
{
}

/// A file is compared with the one that has the same path in the release.
pub proof fn law_counterpart(c: ComparisonView, file: Seq<char>, rest: Seq<char>)
    ensures
        c.local_file(file) == joined(c.local, file),
        c.registry_file(true, file) == joined(c.registry, file),
        stripped(joined(c.local, file), c.local) == Some(rest) ==> c.registry_file(false, file)
            == joined(c.registry, rest),
{
}

} // verus!
