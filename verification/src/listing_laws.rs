//! What comparing two packages amounts to, down to the files that are listed for them.
//!
//! A comparison asks for the files of a package as a whole. Here they are what the listing of the
//! package comes to. The files are listed while the original manifest of the release has another
//! name, so the listing has a world of its own.

use vstd::prelude::*;

use crate::compare_laws::{
    exists_in, files_verdict, is_packaged, is_proper, law_comparison, package_files_in, packages,
    released_manifest, rename_in, run, same_content, source_verdict, World,
};
use crate::file_list::{
    file_list, files_view, is_in_target_package, listed_by_cargo, package_list_args, FileListView,
    ListStage,
};
use crate::io::{ListError, RequestView};
use crate::order::sorted_texts;
use crate::package_compare::{
    is_listed_in_registry, is_listed_locally, manifest_in, moved_orig_in, orig_in, CompareError,
    ComparisonView,
};
use crate::path::{path_parts, same_paths};
use crate::walk_laws::{
    after, are_files_of, dirs_below_all, files_below_all, is_packaged_locally,
    law_walk, law_where_files_come_from, relative, shows, Tree,
};

verus! {

/// The listing comes to an end with these files.
pub open spec fn comes_to(
    w: World,
    list: FileListView,
    files: Result<Seq<Seq<char>>, ListError>,
) -> bool {
    exists|n: nat| (#[trigger] after(list, w, n)).stage == ListStage::Done(files)
}

/// The files that are found when the directories of a package are read from the disk.
pub open spec fn walked(w: World, package: Seq<char>) -> Result<Seq<Seq<char>>, ListError> {
    choose|files: Result<Seq<Seq<char>>, ListError>|
        comes_to(w, file_list(package).walk(), files)
}

/// The files of a package: those on the disk where it was packaged locally, and otherwise those
/// that cargo lists.
pub open spec fn files_of(w: World, package: Seq<char>) -> Result<Seq<Seq<char>>, ListError> {
    if is_packaged_locally(w, package) {
        walked(w, package)
    } else {
        listed_by_cargo(
            w(RequestView::Cargo { dir: package, args: package_list_args() })->Cargo_0,
        )
    }
}

proof fn lemma_after_done(w: World, list: FileListView, n: nat)
    requires
        list.stage is Done,
    ensures
        after(list, w, n) == list,
    decreases n,
{
    if n > 0 {
        assert(list.next(w(list.asks()->0)) == list);
        lemma_after_done(w, list, (n - 1) as nat);
    }
}

proof fn lemma_after_add(w: World, list: FileListView, n: nat, m: nat)
    ensures
        after(list, w, n + m) == after(after(list, w, n), w, m),
    decreases n,
{
    if n > 0 {
        lemma_after_add(w, list.next(w(list.asks()->0)), (n - 1) as nat, m);
    }
}

/// A listing that is done after some replies stays so.
proof fn lemma_stays_done(w: World, list: FileListView, n: nat, m: nat)
    requires
        n <= m,
        after(list, w, n).stage is Done,
    ensures
        after(list, w, m) == after(list, w, n),
{
    lemma_after_add(w, list, n, (m - n) as nat);
    lemma_after_done(w, after(list, w, n), (m - n) as nat);
}

/// A listing comes to one end only.
pub proof fn law_listing_has_one_end(
    w: World,
    list: FileListView,
    files: Result<Seq<Seq<char>>, ListError>,
    others: Result<Seq<Seq<char>>, ListError>,
)
    requires
        comes_to(w, list, files),
        comes_to(w, list, others),
    ensures
        files == others,
{
    let n = choose|n: nat| (#[trigger] after(list, w, n)).stage == ListStage::Done(files);
    let m = choose|m: nat| (#[trigger] after(list, w, m)).stage == ListStage::Done(others);
    if n <= m {
        lemma_stays_done(w, list, n, m);
    } else {
        lemma_stays_done(w, list, m, n);
    }
}

/// After some replies a listing comes to the same end.
proof fn lemma_same_end(
    w: World,
    list: FileListView,
    k: nat,
    files: Result<Seq<Seq<char>>, ListError>,
)
    ensures
        comes_to(w, list, files) <==> comes_to(w, after(list, w, k), files),
{
    let later = after(list, w, k);
    if comes_to(w, list, files) {
        let n = choose|n: nat| (#[trigger] after(list, w, n)).stage == ListStage::Done(files);
        lemma_stays_done(w, list, n, n + k);
        lemma_after_add(w, list, k, n);
        assert(after(later, w, n).stage == ListStage::Done(files));
    }
    if comes_to(w, later, files) {
        let n = choose|n: nat| (#[trigger] after(later, w, n)).stage == ListStage::Done(files);
        lemma_after_add(w, list, k, n);
        assert(after(list, w, k + n).stage == ListStage::Done(files));
    }
}

/// What listing the files of a package comes to, if it comes to an end, are the files of the
/// package. Where cargo lists them, it does come to an end.
pub proof fn law_listing(
    w: World,
    package: Seq<char>,
    files: Result<Seq<Seq<char>>, ListError>,
)
    requires
        is_proper(w),
    ensures
        comes_to(w, file_list(package), files) ==> files == files_of(w, package),
        !is_packaged_locally(w, package) ==> comes_to(w, file_list(package), files_of(w, package)),
{
    law_where_files_come_from(w, package);
    let list = file_list(package);
    if is_packaged_locally(w, package) {
        if comes_to(w, list, files) {
            lemma_same_end(w, list, 1, files);
            lemma_same_end(w, list, 2, files);
            assert(comes_to(w, list.walk(), files));
            law_listing_has_one_end(w, list.walk(), files, walked(w, package));
        }
    } else {
        let end = files_of(w, package);
        assert(after(list, w, 1).stage == ListStage::Done(end) || after(list, w, 3).stage
            == ListStage::Done(end));
        assert(comes_to(w, list, end));
        if comes_to(w, list, files) {
            law_listing_has_one_end(w, list, files, end);
        }
    }
}

/// The files of a package that was packaged locally are all files below its directory, as paths in
/// the package and in order; listing them comes to an end.
pub proof fn law_files_on_disk(w: World, package: Seq<char>, inner: Seq<Tree>)
    requires
        is_proper(w),
        is_packaged_locally(w, package),
        shows(w, Tree::Dir(package, inner)),
        are_files_of(package, files_below_all(inner)),
    ensures
        files_of(w, package) == Ok::<_, ListError>(
            sorted_texts(relative(package, files_below_all(inner))),
        ),
        comes_to(w, file_list(package), files_of(w, package)),
{
    law_walk(w, package, inner);
    law_where_files_come_from(w, package);
    let list = file_list(package);
    let files: Result<Seq<Seq<char>>, ListError> = Ok(
        sorted_texts(relative(package, files_below_all(inner))),
    );
    let start = FileListView { package, stage: ListStage::CargoList }.walk();
    assert(start == list.walk());
    assert(after(list.walk(), w, 1 + dirs_below_all(inner)).stage == ListStage::Done(files));
    assert(comes_to(w, list.walk(), files));
    law_listing_has_one_end(w, list.walk(), files, walked(w, package));
    lemma_same_end(w, list, 1, files);
    lemma_same_end(w, list, 2, files);
}

/// The outcome of comparing two packages whose manifests are the same and whose files are listed.
pub open spec fn listed_verdict(
    w: World,
    c: ComparisonView,
    local_files: Result<Seq<Seq<char>>, ListError>,
    registry_files: Result<Seq<Seq<char>>, ListError>,
) -> Result<bool, CompareError> {
    let moved = rename_in(w, orig_in(c.registry), moved_orig_in(c.registry));
    let restored = rename_in(w, moved_orig_in(c.registry), orig_in(c.registry));
    match (moved, local_files, registry_files, restored) {
        (Err(cause), _, _, _) => Err(CompareError::CannotRename(cause)),
        (_, Err(error), _, _) => Err(CompareError::LocalFiles(error)),
        (_, _, Err(error), _) => Err(CompareError::RegistryFiles(error)),
        (_, _, _, Err(cause)) => Err(CompareError::CannotRename(cause)),
        (_, Ok(local), Ok(registry), _) => {
            let files = local.filter(is_listed_locally());
            if same_paths(files, registry.filter(is_listed_in_registry())) {
                files_verdict(w, c, false, files, 0)
            } else {
                Ok(false)
            }
        },
    }
}

/// The files of the two packages are asked for: the release is packaged, the manifests are the
/// same, and the original manifest of the release has another name.
pub open spec fn files_are_asked_for(w: World, c: ComparisonView) -> bool {
    &&& is_packaged(w, c)
    &&& same_content(w, manifest_in(c.local), orig_in(c.registry))
    &&& rename_in(w, orig_in(c.registry), moved_orig_in(c.registry)) is Ok
}

/// The reply to the request for the files of a package is what listing them comes to, in the world
/// as it is while they are listed.
pub open spec fn replies_with_listing(w: World, listing: World, package: Seq<char>) -> bool {
    comes_to(listing, file_list(package), files_view(package_files_in(w, package)))
}

/// Comparing two packages, where each request for the files of a package is answered by listing
/// them, comes to an outcome that depends on files, directories and the output of git and cargo
/// alone. `w` is the world of the comparison, and `listing` is the world while the original manifest
/// of the release has another name and files are listed. A release inside `target/package` has that
/// manifest under its other name, so its files are those on the disk.
pub proof fn law_comparison_with_listing(
    w: World,
    listing: World,
    local: Seq<char>,
    registry: Seq<char>,
)
    requires
        is_proper(w),
        is_proper(listing),
        files_are_asked_for(w, packages(local, registry)) ==> replies_with_listing(
            w,
            listing,
            local,
        ),
        files_are_asked_for(w, packages(local, registry)) && package_files_in(w, local) is Ok
            ==> replies_with_listing(w, listing, registry),
    ensures
        ({
            let c = packages(local, registry);
            run(c, w) == if !same_content(w, manifest_in(local), released_manifest(w, c)) {
                Ok(false)
            } else if is_packaged(w, c) {
                listed_verdict(w, c, files_of(listing, local), files_of(listing, registry))
            } else {
                source_verdict(w, c)
            }
        }),
        is_in_target_package(path_parts(registry)) && exists_in(listing, moved_orig_in(registry))
            ==> files_of(listing, registry) == walked(listing, registry),
{
    law_comparison(w, local, registry);
    let c = packages(local, registry);
    if files_are_asked_for(w, c) {
        law_listing(listing, local, files_view(package_files_in(w, local)));
        if package_files_in(w, local) is Ok {
            law_listing(listing, registry, files_view(package_files_in(w, registry)));
        }
    }
}

} // verus!
