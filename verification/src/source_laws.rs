//! What comparing two directories of source files amounts to, and what does not matter to it.

use vstd::prelude::*;

use crate::compare_laws::{
    content_in, exists_in, file_verdict, files_verdict, is_packaged, is_passed_over, is_proper,
    is_symlink_in, lemma_run_files, ls_files_in, packages, run, same_content, source_verdict, World,
};
use crate::io::{answers, RequestView};
use crate::package_compare::{
    is_comparable, listed_by_git, ls_files_args, manifest_in, CompareError, ComparisonView,
    StageView, TrackedError,
};
use crate::path::{joined, path_set, same_path, same_paths};

verus! {

/// Two directories of source files, of which the comparison begins.
pub open spec fn source_dirs(local: Seq<char>, registry: Seq<char>) -> ComparisonView {
    ComparisonView { local, registry, stage: StageView::LocalManifest { source: true } }
}

/// With the replies of any world, comparing two directories of source files comes to the stated
/// outcome: they differ where their manifests do, and otherwise their files are compared.
pub proof fn law_source_dirs(w: World, local: Seq<char>, registry: Seq<char>)
    requires
        is_proper(w),
    ensures
        run(source_dirs(local, registry), w) == if same_content(
            w,
            manifest_in(local),
            manifest_in(registry),
        ) {
            source_verdict(w, packages(local, registry))
        } else {
            Ok(false)
        },
{
    reveal_with_fuel(run, 5);
    let c = packages(local, registry);
    let local_manifest = RequestView::ReadFile(manifest_in(local));
    let registry_manifest = RequestView::ReadFile(manifest_in(registry));
    assert(answers(w(local_manifest), local_manifest));
    assert(answers(w(registry_manifest), registry_manifest));
    let local_list = RequestView::Git { dir: local, args: ls_files_args() };
    let registry_list = RequestView::Git { dir: registry, args: ls_files_args() };
    assert(answers(w(local_list), local_list));
    assert(answers(w(registry_list), registry_list));
    if listed_by_git(ls_files_in(w, local)) is Ok {
        lemma_run_files(w, c, true, compared_files(w, local), 0);
    }
}

/// Where a release is not packaged, the two packages are compared as directories of source files.
pub proof fn law_source_in_place_of_packaged(w: World, local: Seq<char>, registry: Seq<char>)
    requires
        is_proper(w),
        !is_packaged(w, packages(local, registry)),
    ensures
        run(packages(local, registry), w) == run(source_dirs(local, registry), w),
{
    let c = packages(local, registry);
    assert(answers(w(c.asks()->0), c.asks()->0));
    assert(c.next(w(c.asks()->0)) == source_dirs(local, registry));
}

/// The files of a directory that are compared: those that git tracks, but for those that cargo
/// generates.
pub open spec fn compared_files(w: World, dir: Seq<char>) -> Seq<Seq<char>> {
    path_set(listed_by_git(ls_files_in(w, dir))->Ok_0.filter(is_comparable()))
}

/// Two worlds say the same of what is at a path in each of them.
pub open spec fn same_file(w: World, path: Seq<char>, v: World, other: Seq<char>) -> bool {
    &&& exists_in(w, path) == exists_in(v, other)
    &&& is_symlink_in(w, path) == is_symlink_in(v, other)
    &&& content_in(w, path) == content_in(v, other)
}

/// Where a path that is compared is listed for the two directories in two ways of writing it, both
/// name the same file. That is so where git writes a path in one way only.
pub open spec fn listed_paths_name_one_file(w: World, a: Seq<char>, b: Seq<char>) -> bool {
    forall|x: Seq<char>, y: Seq<char>|
        #![trigger compared_files(w, a).contains(x), compared_files(w, b).contains(y)]
        compared_files(w, a).contains(x) && compared_files(w, b).contains(y) && same_path(x, y) ==> {
            &&& same_file(w, joined(a, x), w, joined(a, y))
            &&& same_file(w, joined(b, x), w, joined(b, y))
        }
}

/// Two outcomes are the same but for what an error says.
pub open spec fn same_outcome(
    a: Result<bool, CompareError>,
    b: Result<bool, CompareError>,
) -> bool {
    match (a, b) {
        (Ok(x), Ok(y)) => x == y,
        (Err(_), Err(_)) => true,
        _ => false,
    }
}

proof fn lemma_files_the_other_way_round(
    w: World,
    a: Seq<char>,
    b: Seq<char>,
    xs: Seq<Seq<char>>,
    ys: Seq<Seq<char>>,
    at: int,
)
    requires
        xs == compared_files(w, a),
        ys == compared_files(w, b),
        listed_paths_name_one_file(w, a, b),
        same_paths(xs, ys),
        0 <= at,
    ensures
        same_outcome(
            files_verdict(w, packages(a, b), true, xs, at),
            files_verdict(w, packages(b, a), true, ys, at),
        ),
    decreases xs.len() - at,
{
    if at < xs.len() {
        lemma_files_the_other_way_round(w, a, b, xs, ys, at + 1);
        let x = xs[at];
        let y = ys[at];
        assert(same_path(x, y));
        assert(compared_files(w, a).contains(x));
        assert(compared_files(w, b).contains(y));
        let c = packages(a, b);
        let d = packages(b, a);
        assert(is_passed_over(w, c, true, x) == is_passed_over(w, d, true, y));
        let one = file_verdict(w, c, true, x);
        let other = file_verdict(w, d, true, y);
        assert(one is None <==> other is None);
        assert(one is Some ==> same_outcome(one->0, other->0));
    }
}

/// Comparing two directories of source files the other way round gives the same answer, or an
/// error where there was one, provided that git does not list one path in two ways that name
/// different files.
pub proof fn law_source_dirs_the_other_way_round(w: World, a: Seq<char>, b: Seq<char>)
    requires
        is_proper(w),
        listed_by_git(ls_files_in(w, a)) is Ok && listed_by_git(ls_files_in(w, b)) is Ok
            ==> listed_paths_name_one_file(w, a, b),
    ensures
        same_outcome(run(source_dirs(a, b), w), run(source_dirs(b, a), w)),
{
    law_source_dirs(w, a, b);
    law_source_dirs(w, b, a);
    if listed_by_git(ls_files_in(w, a)) is Ok && listed_by_git(ls_files_in(w, b)) is Ok {
        let xs = compared_files(w, a);
        let ys = compared_files(w, b);
        assert(same_paths(xs, ys) <==> same_paths(ys, xs)) by {
            if same_paths(xs, ys) {
                assert forall|i: int| 0 <= i < ys.len() implies same_path(#[trigger] ys[i], xs[i]) by {
                    assert(same_path(xs[i], ys[i]));
                }
            }
            if same_paths(ys, xs) {
                assert forall|i: int| 0 <= i < xs.len() implies same_path(#[trigger] xs[i], ys[i]) by {
                    assert(same_path(ys[i], xs[i]));
                }
            }
        }
        if same_paths(xs, ys) {
            lemma_files_the_other_way_round(w, a, b, xs, ys, 0);
        }
    }
}

/// Comparing two directories of source files the other way round gives the same answer, or an
/// error where there was one, where git writes each path that is compared in one way only.
pub proof fn law_source_dirs_the_other_way_round_in_git(w: World, a: Seq<char>, b: Seq<char>)
    requires
        is_proper(w),
        listed_by_git(ls_files_in(w, a)) is Ok && listed_by_git(ls_files_in(w, b)) is Ok
            ==> forall|x: Seq<char>, y: Seq<char>|
            #![trigger compared_files(w, a).contains(x), compared_files(w, b).contains(y)]
            compared_files(w, a).contains(x) && compared_files(w, b).contains(y) && same_path(x, y)
                ==> x == y,
    ensures
        same_outcome(run(source_dirs(a, b), w), run(source_dirs(b, a), w)),
{
    law_source_dirs_the_other_way_round(w, a, b);
}

proof fn lemma_files_alike(
    w: World,
    v: World,
    local: Seq<char>,
    registry: Seq<char>,
    files: Seq<Seq<char>>,
    at: int,
)
    requires
        forall|file: Seq<char>| #[trigger]
            files.contains(file) ==> same_file(w, joined(local, file), v, joined(local, file))
                && same_file(w, joined(registry, file), v, joined(registry, file)),
        0 <= at,
    ensures
        files_verdict(w, packages(local, registry), true, files, at) == files_verdict(
            v,
            packages(local, registry),
            true,
            files,
            at,
        ),
    decreases files.len() - at,
{
    if at < files.len() {
        lemma_files_alike(w, v, local, registry, files, at + 1);
        let c = packages(local, registry);
        let file = files[at];
        assert(files.contains(file));
        assert(is_passed_over(w, c, true, file) == is_passed_over(v, c, true, file));
        assert(file_verdict(w, c, true, file) == file_verdict(v, c, true, file));
    }
}

/// Two worlds say the same of the manifests and of each file that is compared. Nothing is said of
/// any other file or directory, or of other ways to write a path.
pub open spec fn same_compared_files(
    w: World,
    v: World,
    local: Seq<char>,
    registry: Seq<char>,
) -> bool {
    &&& content_in(w, manifest_in(local)) == content_in(v, manifest_in(local))
    &&& content_in(w, manifest_in(registry)) == content_in(v, manifest_in(registry))
    &&& listed_by_git(ls_files_in(w, local)) is Ok ==> forall|file: Seq<char>| #[trigger]
        compared_files(w, local).contains(file) ==> same_file(
            w,
            joined(local, file),
            v,
            joined(local, file),
        ) && same_file(w, joined(registry, file), v, joined(registry, file))
}

/// What git lists in a directory is the same in two worlds, apart from files that cargo generates.
pub open spec fn same_list_but_generated(w: World, v: World, dir: Seq<char>) -> bool {
    match (listed_by_git(ls_files_in(w, dir)), listed_by_git(ls_files_in(v, dir))) {
        (Ok(files), Ok(others)) => files.filter(is_comparable()) == others.filter(is_comparable()),
        (one, other) => one == other,
    }
}

/// Files that cargo generates change nothing, whatever becomes of them, whether git tracks them or
/// not: the outcome is the same where git lists the same files otherwise, and the manifests and the
/// compared files are the same.
pub proof fn law_generated_files_change_nothing(
    w: World,
    v: World,
    local: Seq<char>,
    registry: Seq<char>,
)
    requires
        is_proper(w),
        is_proper(v),
        same_list_but_generated(w, v, local),
        same_list_but_generated(w, v, registry),
        same_compared_files(w, v, local, registry),
    ensures
        run(source_dirs(local, registry), w) == run(source_dirs(local, registry), v),
{
    law_source_dirs(w, local, registry);
    law_source_dirs(v, local, registry);
    if listed_by_git(ls_files_in(w, local)) is Ok {
        lemma_files_alike(w, v, local, registry, compared_files(w, local), 0);
    }
}

/// Files that git does not track change nothing, whatever becomes of them: the outcome is the same
/// where git lists the same files, and the manifests and the compared files are the same.
pub proof fn law_untracked_files_change_nothing(
    w: World,
    v: World,
    local: Seq<char>,
    registry: Seq<char>,
)
    requires
        is_proper(w),
        is_proper(v),
        listed_by_git(ls_files_in(w, local)) == listed_by_git(ls_files_in(v, local)),
        listed_by_git(ls_files_in(w, registry)) == listed_by_git(ls_files_in(v, registry)),
        same_compared_files(w, v, local, registry),
    ensures
        run(source_dirs(local, registry), w) == run(source_dirs(local, registry), v),
{
    law_generated_files_change_nothing(w, v, local, registry);
}

/// A list with one file more that does not pass is the same when it is filtered.
proof fn lemma_filter_insert(
    files: Seq<Seq<char>>,
    keep: spec_fn(Seq<char>) -> bool,
    at: int,
    file: Seq<char>,
)
    requires
        0 <= at <= files.len(),
        !keep(file),
    ensures
        files.insert(at, file).filter(keep) == files.filter(keep),
{
    let head = files.take(at);
    let tail = files.skip(at);
    let one = seq![file];
    assert(files.insert(at, file) =~= (head + one) + tail);
    assert(files =~= head + tail);
    Seq::filter_distributes_over_add(head + one, tail, keep);
    Seq::filter_distributes_over_add(head, one, keep);
    Seq::filter_distributes_over_add(head, tail, keep);
    assert(one.filter(keep) =~= Seq::empty()) by {
        reveal(Seq::filter);
        assert(one.drop_last() =~= Seq::empty());
        assert(one.drop_last().filter(keep) =~= Seq::empty());
    }
    assert(head.filter(keep) + one.filter(keep) =~= head.filter(keep));
}

/// That git tracks one file more that cargo generates, in either directory, changes nothing.
pub proof fn law_generated_file_changes_nothing(
    w: World,
    v: World,
    local: Seq<char>,
    registry: Seq<char>,
    dir: Seq<char>,
    at: int,
    file: Seq<char>,
)
    requires
        is_proper(w),
        is_proper(v),
        listed_by_git(ls_files_in(w, dir)) is Ok,
        0 <= at <= listed_by_git(ls_files_in(w, dir))->Ok_0.len(),
        listed_by_git(ls_files_in(v, dir)) == Ok::<_, TrackedError>(
            listed_by_git(ls_files_in(w, dir))->Ok_0.insert(at, file),
        ),
        !is_comparable()(file),
        local != dir ==> listed_by_git(ls_files_in(w, local)) == listed_by_git(
            ls_files_in(v, local),
        ),
        registry != dir ==> listed_by_git(ls_files_in(w, registry)) == listed_by_git(
            ls_files_in(v, registry),
        ),
        same_compared_files(w, v, local, registry),
    ensures
        run(source_dirs(local, registry), w) == run(source_dirs(local, registry), v),
{
    lemma_filter_insert(listed_by_git(ls_files_in(w, dir))->Ok_0, is_comparable(), at, file);
    law_generated_files_change_nothing(w, v, local, registry);
}

} // verus!
