//! What comparing two packages amounts to.
//!
//! A comparison asks one thing after the other. Here the replies come from a world that answers
//! each request in its own way, and the outcome is stated without the order of the requests.

use vstd::prelude::*;

use crate::io::{answers, GitOutput, ListError, Reply, RequestView};
use crate::order::texts;
use crate::package_compare::{
    content_hash, has_compared_content, is_comparable, is_listed_in_registry, is_listed_locally,
    law_every_byte_counts, listed_by_git, ls_files_args, manifest_in, moved_orig_in, no_collision,
    orig_in, CompareError, ComparisonView, Probe, StageView,
};
use crate::path::{has_path, law_same_path_sets, path_set, same_paths, stripped};

verus! {

/// A world that replies to requests.
pub type World = spec_fn(RequestView) -> Reply;

/// Each reply is one to the request.
pub open spec fn is_proper(w: World) -> bool {
    forall|request: RequestView| answers(#[trigger] w(request), request)
}

/// There is something at the path.
pub open spec fn exists_in(w: World, path: Seq<char>) -> bool {
    w(RequestView::Exists(path))->Flag_0
}

/// The path is a symbolic link.
pub open spec fn is_symlink_in(w: World, path: Seq<char>) -> bool {
    w(RequestView::IsSymlink(path))->Flag_0
}

/// The content of a file.
pub open spec fn content_in(w: World, path: Seq<char>) -> Result<Vec<u8>, String> {
    w(RequestView::ReadFile(path))->Content_0
}

/// What renaming a file gives.
pub open spec fn rename_in(w: World, from: Seq<char>, to: Seq<char>) -> Result<(), String> {
    w(RequestView::Rename { from, to })->Renamed_0
}

/// The files of the package in a directory.
pub open spec fn package_files_in(w: World, dir: Seq<char>) -> Result<Vec<String>, ListError> {
    w(RequestView::PackageFiles(dir))->Files_0
}

/// What listing the files that git tracks in a directory prints.
pub open spec fn ls_files_in(w: World, dir: Seq<char>) -> Result<GitOutput, String> {
    w(RequestView::Git { dir, args: ls_files_args() })->Git_0
}

/// Both files can be read, and their contents have the same hash.
pub open spec fn same_content(w: World, a: Seq<char>, b: Seq<char>) -> bool {
    &&& content_in(w, a) is Ok
    &&& content_in(w, b) is Ok
    &&& content_hash(content_in(w, a)->Ok_0@) == content_hash(content_in(w, b)->Ok_0@)
}

/// The last release of a package and the package itself.
pub open spec fn packages(local: Seq<char>, registry: Seq<char>) -> ComparisonView {
    ComparisonView { local, registry, stage: StageView::Layout }
}

/// A file of the list that is not compared by content.
pub open spec fn is_passed_over(w: World, c: ComparisonView, source: bool, file: Seq<char>) -> bool {
    let local = c.local_file(file);
    let registry = c.registry_file(source, file);
    if source {
        ||| !exists_in(w, local)
        ||| !exists_in(w, registry)
        ||| is_symlink_in(w, local)
        ||| is_symlink_in(w, registry)
    } else {
        ||| is_symlink_in(w, local)
        ||| !exists_in(w, local)
        ||| !has_compared_content(local)
    }
}

/// What one file of the list says of the comparison: nothing where the comparison goes on.
pub open spec fn file_verdict(
    w: World,
    c: ComparisonView,
    source: bool,
    file: Seq<char>,
) -> Option<Result<bool, CompareError>> {
    let local = c.local_file(file);
    let registry = c.registry_file(source, file);
    if is_passed_over(w, c, source, file) {
        None
    } else if !source && stripped(local, c.local) is None {
        Some(Err(CompareError::OutsidePackage))
    } else {
        match (content_in(w, local), content_in(w, registry)) {
            (Err(cause), _) => Some(Err(CompareError::CannotHash(cause))),
            (_, Err(cause)) => Some(Err(CompareError::CannotHash(cause))),
            _ => if same_content(w, local, registry) {
                None
            } else {
                Some(Ok(false))
            },
        }
    }
}

/// What the files of the list say, from position `at` on: what the first of them says that says
/// anything.
pub open spec fn files_verdict(
    w: World,
    c: ComparisonView,
    source: bool,
    files: Seq<Seq<char>>,
    at: int,
) -> Result<bool, CompareError>
    decreases files.len() - at,
{
    if at >= files.len() {
        Ok(true)
    } else {
        match file_verdict(w, c, source, files[at]) {
            Some(verdict) => verdict,
            None => files_verdict(w, c, source, files, at + 1),
        }
    }
}

/// The outcome of comparing two directories of source files whose manifests are the same.
pub open spec fn source_verdict(w: World, c: ComparisonView) -> Result<bool, CompareError> {
    match (listed_by_git(ls_files_in(w, c.local)), listed_by_git(ls_files_in(w, c.registry))) {
        (Err(error), _) => Err(CompareError::LocalTracked(error)),
        (_, Err(error)) => Err(CompareError::RegistryTracked(error)),
        (Ok(local), Ok(registry)) => {
            let files = path_set(local.filter(is_comparable()));
            if same_paths(files, path_set(registry.filter(is_comparable()))) {
                files_verdict(w, c, true, files, 0)
            } else {
                Ok(false)
            }
        },
    }
}

/// The outcome of comparing two packages whose manifests are the same.
pub open spec fn packaged_verdict(w: World, c: ComparisonView) -> Result<bool, CompareError> {
    let moved = rename_in(w, orig_in(c.registry), moved_orig_in(c.registry));
    let restored = rename_in(w, moved_orig_in(c.registry), orig_in(c.registry));
    match (moved, package_files_in(w, c.local), package_files_in(w, c.registry), restored) {
        (Err(cause), _, _, _) => Err(CompareError::CannotRename(cause)),
        (_, Err(error), _, _) => Err(CompareError::LocalFiles(error)),
        (_, _, Err(error), _) => Err(CompareError::RegistryFiles(error)),
        (_, _, _, Err(cause)) => Err(CompareError::CannotRename(cause)),
        (_, Ok(local), Ok(registry), _) => {
            let files = texts(local@).filter(is_listed_locally());
            if same_paths(files, texts(registry@).filter(is_listed_in_registry())) {
                files_verdict(w, c, false, files, 0)
            } else {
                Ok(false)
            }
        },
    }
}

/// The released package is packaged: it has the original manifest beside the one that cargo wrote.
pub open spec fn is_packaged(w: World, c: ComparisonView) -> bool {
    exists_in(w, orig_in(c.registry))
}

/// The manifest of the released package that is compared with the local one.
pub open spec fn released_manifest(w: World, c: ComparisonView) -> Seq<char> {
    if is_packaged(w, c) {
        orig_in(c.registry)
    } else {
        manifest_in(c.registry)
    }
}

/// The outcome of comparing two packages.
pub open spec fn verdict(w: World, c: ComparisonView) -> Result<bool, CompareError> {
    if !same_content(w, manifest_in(c.local), released_manifest(w, c)) {
        Ok(false)
    } else if is_packaged(w, c) {
        packaged_verdict(w, c)
    } else {
        source_verdict(w, c)
    }
}

/// How far a comparison is from its end: stages, files and probes that are left.
pub open spec fn stages_left(c: ComparisonView) -> nat {
    match c.stage {
        StageView::Layout => 8,
        StageView::LocalManifest { .. } => 7,
        StageView::RegistryManifest { .. } => 6,
        StageView::MoveOrig | StageView::LocalTracked => 5,
        StageView::LocalFiles | StageView::RegistryTracked { .. } => 4,
        StageView::RegistryFiles { .. } => 3,
        StageView::RestoreOrig { .. } => 2,
        StageView::Check { .. } => 1,
        StageView::Done(_) => 0,
    }
}

pub open spec fn files_left(c: ComparisonView) -> nat {
    match c.stage {
        StageView::Check { files, at, .. } => if at < files.len() {
            (files.len() - at) as nat
        } else {
            0
        },
        _ => 0,
    }
}

pub open spec fn probes_left(c: ComparisonView) -> nat {
    match c.stage {
        StageView::Check { source, probe, .. } => match probe {
            Probe::LocalExists => if source { 6 } else { 4 },
            Probe::RegistryExists => if source { 5 } else { 6 },
            Probe::LocalSymlink => if source { 4 } else { 5 },
            Probe::RegistrySymlink => 3,
            Probe::LocalContent => 2,
            Probe::RegistryContent(_) => 1,
        },
        _ => 0,
    }
}

/// The outcome of a comparison that goes on until it is done, with the replies of a world.
pub open spec fn run(c: ComparisonView, w: World) -> Result<bool, CompareError>
    decreases stages_left(c), files_left(c), probes_left(c),
{
    match c.stage {
        StageView::Done(result) => result,
        _ => run(c.next(w(c.asks()->0)), w),
    }
}

/// What a comparison comes to from the file at position `at` on.
pub(crate) proof fn lemma_run_files(
    w: World,
    c: ComparisonView,
    source: bool,
    files: Seq<Seq<char>>,
    at: int,
)
    requires
        is_proper(w),
        0 <= at,
    ensures
        run(c.check(source, files, at), w) == files_verdict(w, c, source, files, at),
    decreases files.len() - at,
{
    reveal_with_fuel(run, 7);
    if at < files.len() {
        let file = files[at];
        let local = c.local_file(file);
        let registry = c.registry_file(source, file);
        assert(answers(w(RequestView::Exists(local)), RequestView::Exists(local)));
        assert(answers(w(RequestView::Exists(registry)), RequestView::Exists(registry)));
        assert(answers(w(RequestView::IsSymlink(local)), RequestView::IsSymlink(local)));
        assert(answers(w(RequestView::IsSymlink(registry)), RequestView::IsSymlink(registry)));
        assert(answers(w(RequestView::ReadFile(local)), RequestView::ReadFile(local)));
        assert(answers(w(RequestView::ReadFile(registry)), RequestView::ReadFile(registry)));
        lemma_run_files(w, c, source, files, at + 1);
        let rest = c.check(source, files, at + 1);
        let here = |probe: Probe| c.at(StageView::Check { source, files, at, probe });
        let content = here(Probe::LocalContent);
        if content_in(w, local) is Ok {
            let hash = content_hash(content_in(w, local)->Ok_0@);
            let compared = here(Probe::RegistryContent(hash));
            assert(run(content, w) == run(compared, w));
            assert(compared.next(w(compared.asks()->0)).at(StageView::Layout) == c.at(StageView::Layout));
        }
        assert(rest == here(Probe::LocalContent).check(source, files, at + 1));
    }
}

/// With the replies of any world, comparing two packages comes to the stated outcome.
pub proof fn law_comparison(w: World, local: Seq<char>, registry: Seq<char>)
    requires
        is_proper(w),
    ensures
        run(packages(local, registry), w) == verdict(w, packages(local, registry)),
{
    let c = packages(local, registry);
    let orig = orig_in(registry);
    let moved = moved_orig_in(registry);
    let args = ls_files_args();
    reveal_with_fuel(run, 8);
    assert(answers(w(RequestView::Exists(orig)), RequestView::Exists(orig)));
    assert(answers(
        w(RequestView::ReadFile(manifest_in(local))),
        RequestView::ReadFile(manifest_in(local)),
    ));
    assert(answers(
        w(RequestView::ReadFile(manifest_in(registry))),
        RequestView::ReadFile(manifest_in(registry)),
    ));
    assert(answers(w(RequestView::ReadFile(orig)), RequestView::ReadFile(orig)));
    let move_request = RequestView::Rename { from: orig, to: moved };
    let restore_request = RequestView::Rename { from: moved, to: orig };
    assert(answers(w(move_request), move_request));
    assert(answers(w(restore_request), restore_request));
    assert(answers(w(RequestView::PackageFiles(local)), RequestView::PackageFiles(local)));
    assert(answers(w(RequestView::PackageFiles(registry)), RequestView::PackageFiles(registry)));
    let local_list = RequestView::Git { dir: local, args };
    let registry_list = RequestView::Git { dir: registry, args };
    assert(answers(w(local_list), local_list));
    assert(answers(w(registry_list), registry_list));
    if package_files_in(w, local) is Ok {
        let files = texts(package_files_in(w, local)->Ok_0@).filter(is_listed_locally());
        lemma_run_files(w, c, false, files, 0);
    }
    if listed_by_git(ls_files_in(w, local)) is Ok {
        let files = path_set(listed_by_git(ls_files_in(w, local))->Ok_0.filter(is_comparable()));
        lemma_run_files(w, c, true, files, 0);
    }
}

/// The files of a list have no objection exactly where none of them has one.
proof fn lemma_no_objection(
    w: World,
    c: ComparisonView,
    source: bool,
    files: Seq<Seq<char>>,
    at: int,
)
    requires
        0 <= at,
    ensures
        files_verdict(w, c, source, files, at) == Ok::<_, CompareError>(true) <==> forall|i: int|
            at <= i < files.len() ==> file_verdict(w, c, source, #[trigger] files[i]) is None,
        (exists|i: int|
            at <= i < files.len() && file_verdict(w, c, source, #[trigger] files[i]) is Some)
            && (forall|i: int|
            at <= i < files.len() && file_verdict(w, c, source, #[trigger] files[i]) is Some
                ==> file_verdict(w, c, source, files[i]) == Some(Ok::<_, CompareError>(false)))
            ==> files_verdict(w, c, source, files, at) == Ok::<_, CompareError>(false),
    decreases files.len() - at,
{
    if at < files.len() {
        lemma_no_objection(w, c, source, files, at + 1);
        match file_verdict(w, c, source, files[at]) {
            Some(v) => {
                assert(v != Ok::<_, CompareError>(true));
            },
            None => {},
        }
    }
}

/// Two directories of source files compare as equal exactly where their manifests have the same
/// content, git tracks the same files in both, apart from those that cargo generates, and each of
/// these has the same content, unless it is missing or a symbolic link on one side.
pub proof fn law_sources_equal(w: World, local: Seq<char>, registry: Seq<char>)
    requires
        is_proper(w),
        !is_packaged(w, packages(local, registry)),
    ensures
        ({
            let c = packages(local, registry);
            let local_files = listed_by_git(ls_files_in(w, local));
            let registry_files = listed_by_git(ls_files_in(w, registry));
            run(c, w) == Ok::<_, CompareError>(true) <==> {
                &&& same_content(w, manifest_in(local), manifest_in(registry))
                &&& local_files is Ok
                &&& registry_files is Ok
                &&& forall|p: Seq<char>| #[trigger]
                    has_path(local_files->Ok_0.filter(is_comparable()), p) <==> has_path(
                        registry_files->Ok_0.filter(is_comparable()),
                        p,
                    )
                &&& forall|i: int|
                    0 <= i < path_set(local_files->Ok_0.filter(is_comparable())).len() ==> {
                        let file = #[trigger] path_set(
                            local_files->Ok_0.filter(is_comparable()),
                        )[i];
                        is_passed_over(w, c, true, file) || same_content(
                            w,
                            c.local_file(file),
                            c.registry_file(true, file),
                        )
                    }
            }
        }),
{
    let c = packages(local, registry);
    law_comparison(w, local, registry);
    let local_files = listed_by_git(ls_files_in(w, local));
    let registry_files = listed_by_git(ls_files_in(w, registry));
    if local_files is Ok && registry_files is Ok {
        let a = local_files->Ok_0.filter(is_comparable());
        let b = registry_files->Ok_0.filter(is_comparable());
        law_same_path_sets(a, b);
        lemma_no_objection(w, c, true, path_set(a), 0);
    }
}

/// Two directories of source files do not compare as equal where the content of some file that is
/// compared differs, provided that the files that are compared can be read.
pub proof fn law_changed_source(
    w: World,
    local: Seq<char>,
    registry: Seq<char>,
    file: Seq<char>,
)
    requires
        is_proper(w),
        !is_packaged(w, packages(local, registry)),
        listed_by_git(ls_files_in(w, local)) is Ok,
        listed_by_git(ls_files_in(w, registry)) is Ok,
        forall|f: Seq<char>| #[trigger]
            path_set(
                listed_by_git(ls_files_in(w, local))->Ok_0.filter(is_comparable()),
            ).contains(f) && !is_passed_over(w, packages(local, registry), true, f) ==> content_in(
                w,
                packages(local, registry).local_file(f),
            ) is Ok && content_in(w, packages(local, registry).registry_file(true, f)) is Ok,
        path_set(listed_by_git(ls_files_in(w, local))->Ok_0.filter(is_comparable())).contains(file),
        !is_passed_over(w, packages(local, registry), true, file),
        !same_content(
            w,
            packages(local, registry).local_file(file),
            packages(local, registry).registry_file(true, file),
        ),
    ensures
        run(packages(local, registry), w) == Ok::<_, CompareError>(false),
{
    let c = packages(local, registry);
    law_comparison(w, local, registry);
    let files = path_set(listed_by_git(ls_files_in(w, local))->Ok_0.filter(is_comparable()));
    lemma_no_objection(w, c, true, files, 0);
    let i = files.index_of(file);
    assert(files[i] == file);
    assert(file_verdict(w, c, true, files[i]) is Some);
    assert forall|i: int|
        0 <= i < files.len() && file_verdict(w, c, true, #[trigger] files[i]) is Some implies
        file_verdict(w, c, true, files[i]) == Some(Ok::<_, CompareError>(false)) by {
        assert(files.contains(files[i]));
    }
}

/// Two packages whose manifests differ, or where one of them cannot be read, do not compare as
/// equal.
pub proof fn law_changed_manifest(w: World, local: Seq<char>, registry: Seq<char>)
    requires
        is_proper(w),
        !same_content(
            w,
            manifest_in(local),
            released_manifest(w, packages(local, registry)),
        ),
    ensures
        run(packages(local, registry), w) == Ok::<_, CompareError>(false),
{
    law_comparison(w, local, registry);
}

/// A packaged release compares as equal exactly where the manifests have the same content, the
/// package has the same files, apart from those that cargo generates, and each of these has the
/// same content, unless it is missing, a symbolic link, a manifest or a lock file.
pub proof fn law_packaged_equal(w: World, local: Seq<char>, registry: Seq<char>)
    requires
        is_proper(w),
        is_packaged(w, packages(local, registry)),
    ensures
        ({
            let c = packages(local, registry);
            let local_files = package_files_in(w, local);
            let registry_files = package_files_in(w, registry);
            run(c, w) == Ok::<_, CompareError>(true) <==> {
                &&& same_content(w, manifest_in(local), orig_in(registry))
                &&& rename_in(w, orig_in(registry), moved_orig_in(registry)) is Ok
                &&& local_files is Ok
                &&& registry_files is Ok
                &&& rename_in(w, moved_orig_in(registry), orig_in(registry)) is Ok
                &&& same_paths(
                    texts(local_files->Ok_0@).filter(is_listed_locally()),
                    texts(registry_files->Ok_0@).filter(is_listed_in_registry()),
                )
                &&& forall|i: int|
                    0 <= i < texts(local_files->Ok_0@).filter(is_listed_locally()).len() ==> {
                        let file = #[trigger] texts(local_files->Ok_0@).filter(
                            is_listed_locally(),
                        )[i];
                        is_passed_over(w, c, false, file) || (stripped(
                            c.local_file(file),
                            local,
                        ) is Some && same_content(
                            w,
                            c.local_file(file),
                            c.registry_file(false, file),
                        ))
                    }
            }
        }),
{
    let c = packages(local, registry);
    law_comparison(w, local, registry);
    if package_files_in(w, local) is Ok {
        let files = texts(package_files_in(w, local)->Ok_0@).filter(is_listed_locally());
        lemma_no_objection(w, c, false, files, 0);
    }
}

/// The original manifest of the released package has another name at this stage.
pub open spec fn orig_is_moved(stage: StageView) -> bool {
    stage is LocalFiles || stage is RegistryFiles || stage is RestoreOrig
}

/// The original manifest of the released package gets another name only by the request for it, and
/// a comparison that goes on or comes to an answer has given it its name back.
pub proof fn law_orig_is_restored(c: ComparisonView, reply: Reply)
    ensures
        !orig_is_moved(c.stage) && orig_is_moved(c.next(reply).stage) ==> c.stage is MoveOrig
            && reply matches Reply::Renamed(Ok(_)),
        orig_is_moved(c.stage) && !orig_is_moved(c.next(reply).stage) ==> {
            ||| c.stage is RestoreOrig && reply matches Reply::Renamed(Ok(_))
            ||| c.next(reply).stage matches StageView::Done(Err(_))
        },
{
}

/// A comparison that is done stays as it is.
pub proof fn law_done_is_final(c: ComparisonView, reply: Reply)
    requires
        c.stage is Done,
    ensures
        c.next(reply) == c,
        c.asks() is None,
{
}

/// Two files that can be read have the same content, as far as a comparison can tell, exactly where
/// their bytes are the same, unless the standard hasher takes the two for the same.
pub proof fn law_same_bytes(w: World, a: Seq<char>, b: Seq<char>)
    requires
        content_in(w, a) is Ok,
        content_in(w, b) is Ok,
        no_collision(content_in(w, a)->Ok_0@, content_in(w, b)->Ok_0@),
    ensures
        same_content(w, a, b) <==> content_in(w, a)->Ok_0@ == content_in(w, b)->Ok_0@,
{
    law_every_byte_counts(content_in(w, a)->Ok_0@, content_in(w, b)->Ok_0@);
}

/// A reply to another request ends a comparison with an error.
pub proof fn law_comparison_and_other_replies(c: ComparisonView, reply: Reply)
    requires
        c.asks() is Some,
        !answers(reply, c.asks()->0),
    ensures
        c.next(reply).stage == StageView::Done(Err(CompareError::UnexpectedReply)),
{
}

/// The tracked files are asked from git, in the directory that they are tracked in, and come with
/// zero bytes behind their names.
pub proof fn law_git_lists_files(c: ComparisonView)
    ensures
        c.stage is LocalTracked ==> c.asks() == Some(
            RequestView::Git { dir: c.local, args: seq!["ls-files"@, "-z"@] },
        ),
        c.stage is RegistryTracked ==> c.asks() == Some(
            RequestView::Git { dir: c.registry, args: seq!["ls-files"@, "-z"@] },
        ),
{
}

} // verus!
