//! What reading the files of a package from the disk amounts to.

use vstd::multiset::*;
use vstd::prelude::*;
use vstd::seq_lib::*;

use crate::compare_laws::{exists_in, is_proper, World};
use crate::file_list::{
    are_inside, dirs_in, file_list, files_in, is_in_target_package, listed_by_cargo,
    package_list_args, FileListView, ListStage,
};
use crate::io::{answers, DirEntry, ListError, Reply, RequestView};
use crate::order::{lemma_sorting_forgets_order, sorted_texts};
use crate::package_compare::{moved_orig_in, orig_in};
use crate::path::{path_parts, stripped};

verus! {

/// What is on the disk: a file, or a directory with what is in it.
pub ghost enum Tree {
    File(Seq<char>),
    Dir(Seq<char>, Seq<Tree>),
}

/// The path of a file or a directory.
pub open spec fn tree_path(t: Tree) -> Seq<char> {
    match t {
        Tree::File(path) => path,
        Tree::Dir(path, _) => path,
    }
}

/// The paths of files and directories.
pub open spec fn tree_paths(ts: Seq<Tree>) -> Seq<Seq<char>> {
    ts.map_values(|t: Tree| tree_path(t))
}

/// The paths of all files at or below a place.
pub open spec fn files_below(t: Tree) -> Seq<Seq<char>>
    decreases t,
{
    match t {
        Tree::File(path) => seq![path],
        Tree::Dir(_, inner) => files_below_all(inner),
    }
}

/// The paths of all files at or below some places.
pub open spec fn files_below_all(ts: Seq<Tree>) -> Seq<Seq<char>>
    decreases ts,
{
    if ts.len() == 0 {
        Seq::empty()
    } else {
        files_below_all(ts.drop_last()) + files_below(ts.last())
    }
}

/// The number of directories at or below a place.
pub open spec fn dirs_below(t: Tree) -> nat
    decreases t,
{
    match t {
        Tree::File(_) => 0,
        Tree::Dir(_, inner) => 1 + dirs_below_all(inner),
    }
}

/// The number of directories at or below some places.
pub open spec fn dirs_below_all(ts: Seq<Tree>) -> nat
    decreases ts,
{
    if ts.len() == 0 {
        0
    } else {
        dirs_below_all(ts.drop_last()) + dirs_below(ts.last())
    }
}

/// The entries are those of a directory with the given inner places.
pub open spec fn are_entries(entries: Seq<DirEntry>, inner: Seq<Tree>) -> bool {
    &&& entries.len() == inner.len()
    &&& forall|i: int|
        0 <= i < inner.len() ==> (#[trigger] entries[i]).path@ == tree_path(inner[i])
            && entries[i].is_dir == (inner[i] is Dir)
}

/// The world replies with what is on the disk, at and below a place.
pub open spec fn shows(w: World, t: Tree) -> bool
    decreases t,
{
    match t {
        Tree::File(_) => true,
        Tree::Dir(path, inner) => {
            &&& w(RequestView::ReadDir(path)) matches Reply::Entries(Ok(entries))
            &&& are_entries(entries@, inner)
            &&& shows_all(w, inner)
        },
    }
}

/// The world replies with what is on the disk, at and below some places.
pub open spec fn shows_all(w: World, ts: Seq<Tree>) -> bool
    decreases ts,
{
    ts.len() == 0 || (shows_all(w, ts.drop_last()) && shows(w, ts.last()))
}

/// The files are inside the package.
pub open spec fn are_files_of(package: Seq<char>, files: Seq<Seq<char>>) -> bool {
    forall|file: Seq<char>| #[trigger] files.contains(file) ==> stripped(file, package) is Some
}

/// The files as paths in the package.
pub open spec fn relative(package: Seq<char>, files: Seq<Seq<char>>) -> Seq<Seq<char>> {
    files.map_values(|file: Seq<char>| stripped(file, package)->0)
}

/// The listing after `n` replies of the world.
pub open spec fn after(list: FileListView, w: World, n: nat) -> FileListView
    decreases n,
{
    if n == 0 {
        list
    } else {
        after(list.next(w(list.asks()->0)), w, (n - 1) as nat)
    }
}

/// The directories among some places.
spec fn only_dirs(ts: Seq<Tree>) -> Seq<Tree>
    decreases ts.len(),
{
    if ts.len() == 0 {
        Seq::empty()
    } else if ts.last() is Dir {
        only_dirs(ts.drop_last()).push(ts.last())
    } else {
        only_dirs(ts.drop_last())
    }
}

/// The paths of the files among some places.
spec fn only_files(ts: Seq<Tree>) -> Seq<Seq<char>>
    decreases ts.len(),
{
    if ts.len() == 0 {
        Seq::empty()
    } else if ts.last() is Dir {
        only_files(ts.drop_last())
    } else {
        only_files(ts.drop_last()).push(tree_path(ts.last()))
    }
}

proof fn lemma_entries(package: Seq<char>, entries: Seq<DirEntry>, inner: Seq<Tree>)
    requires
        are_entries(entries, inner),
    ensures
        dirs_in(entries) == tree_paths(only_dirs(inner)),
        files_in(package, entries) == relative(package, only_files(inner)),
    decreases inner.len(),
{
    if inner.len() > 0 {
        let e = entries.drop_last();
        let t = inner.drop_last();
        assert forall|i: int| 0 <= i < t.len() implies (#[trigger] e[i]).path@ == tree_path(t[i])
            && e[i].is_dir == (t[i] is Dir) by {
            assert(entries[i].path@ == tree_path(inner[i]));
        }
        lemma_entries(package, e, t);
        assert(entries.last() == entries[inner.len() - 1]);
    }
    assert(dirs_in(entries) =~= tree_paths(only_dirs(inner)));
    assert(files_in(package, entries) =~= relative(package, only_files(inner)));
}

proof fn lemma_files_below_add(a: Seq<Tree>, b: Seq<Tree>)
    ensures
        files_below_all(a + b) == files_below_all(a) + files_below_all(b),
        dirs_below_all(a + b) == dirs_below_all(a) + dirs_below_all(b),
    decreases b.len(),
{
    if b.len() == 0 {
        assert(a + b =~= a);
        assert(files_below_all(a) =~= files_below_all(a) + files_below_all(b));
    } else {
        lemma_files_below_add(a, b.drop_last());
        assert((a + b).drop_last() =~= a + b.drop_last());
        assert((a + b).last() == b.last());
        assert(files_below_all(a + b) =~= files_below_all(a) + files_below_all(b));
    }
}

proof fn lemma_shows_add(w: World, a: Seq<Tree>, b: Seq<Tree>)
    requires
        shows_all(w, a),
        shows_all(w, b),
    ensures
        shows_all(w, a + b),
    decreases b.len(),
{
    if b.len() == 0 {
        assert(a + b =~= a);
    } else {
        lemma_shows_add(w, a, b.drop_last());
        assert((a + b).drop_last() =~= a + b.drop_last());
        assert((a + b).last() == b.last());
    }
}

proof fn lemma_only_dirs(w: World, ts: Seq<Tree>)
    requires
        shows_all(w, ts),
    ensures
        shows_all(w, only_dirs(ts)),
        forall|i: int| 0 <= i < only_dirs(ts).len() ==> (#[trigger] only_dirs(ts)[i]) is Dir,
        dirs_below_all(only_dirs(ts)) == dirs_below_all(ts),
        files_below_all(ts).to_multiset() == only_files(ts).to_multiset().add(
            files_below_all(only_dirs(ts)).to_multiset(),
        ),
    decreases ts.len(),
{
    broadcast use group_to_multiset_ensures;

    reveal_with_fuel(files_below, 2);
    reveal_with_fuel(dirs_below, 2);
    if ts.len() == 0 {
        assert(files_below_all(ts).to_multiset() =~= only_files(ts).to_multiset().add(
            files_below_all(only_dirs(ts)).to_multiset(),
        ));
    } else {
        let rest = ts.drop_last();
        let last = ts.last();
        lemma_only_dirs(w, rest);
        lemma_multiset_commutative(files_below_all(rest), files_below(last));
        if last is Dir {
            let dirs = only_dirs(rest);
            assert(only_dirs(ts).drop_last() =~= dirs);
            assert(only_dirs(ts).last() == last);
            assert(dirs_below_all(ts) == dirs_below_all(rest) + dirs_below(last));
            assert(dirs_below_all(only_dirs(ts)) == dirs_below_all(dirs) + dirs_below(last));
            lemma_multiset_commutative(files_below_all(dirs), files_below(last));
            assert(files_below_all(ts).to_multiset() =~= only_files(ts).to_multiset().add(
                files_below_all(only_dirs(ts)).to_multiset(),
            ));
        } else {
            let path = tree_path(last);
            assert(dirs_below(last) == 0);
            assert(dirs_below_all(ts) == dirs_below_all(rest) + dirs_below(last));
            assert(files_below(last) =~= seq![path]);
            assert(only_files(ts) == only_files(rest).push(path));
            assert(files_below_all(ts) =~= files_below_all(rest).push(path));
            assert(files_below_all(ts).to_multiset() =~= only_files(ts).to_multiset().add(
                files_below_all(only_dirs(ts)).to_multiset(),
            ));
        }
    }
}

/// Turning files into paths in the package does not depend on their order.
proof fn lemma_relative_multiset(package: Seq<char>, a: Seq<Seq<char>>, b: Seq<Seq<char>>)
    requires
        a.to_multiset() == b.to_multiset(),
    ensures
        relative(package, a).to_multiset() == relative(package, b).to_multiset(),
    decreases a.len(),
{
    broadcast use group_to_multiset_ensures;

    if a.len() == 0 {
        assert(a.to_multiset().len() == 0);
        assert(b.to_multiset().len() == 0);
        assert(relative(package, a) =~= relative(package, b));
    } else {
        let x = a.last();
        assert(a =~= a.drop_last().push(x));
        assert(b.to_multiset().count(x) > 0);
        assert(b.contains(x));
        let j = b.index_of(x);
        let rest = b.remove(j);
        assert(rest.to_multiset() =~= b.to_multiset().remove(x));
        assert(a.drop_last().to_multiset() =~= rest.to_multiset());
        lemma_relative_multiset(package, a.drop_last(), rest);
        let f = stripped(x, package)->0;
        assert(relative(package, a) =~= relative(package, a.drop_last()).push(f));
        assert(relative(package, b).remove(j) =~= relative(package, rest));
        assert(relative(package, b)[j] == f);
        assert(relative(package, b).to_multiset() =~= relative(package, rest).to_multiset().insert(f));
    }
}

/// Walking through the pending directories finds their files.
proof fn lemma_walk(
    w: World,
    list: FileListView,
    pending: Seq<Tree>,
    files: Seq<Seq<char>>,
)
    requires
        pending.len() > 0,
        shows_all(w, pending),
        forall|i: int| 0 <= i < pending.len() ==> (#[trigger] pending[i]) is Dir,
        are_files_of(list.package, files_below_all(pending)),
    ensures
        after(list.go_on(tree_paths(pending), files), w, dirs_below_all(pending)) == list.at(
            ListStage::Done(
                Ok(sorted_texts(files + relative(list.package, files_below_all(pending)))),
            ),
        ),
    decreases dirs_below_all(pending),
{
    broadcast use group_to_multiset_ensures;

    reveal_with_fuel(files_below, 2);
    reveal_with_fuel(files_below_all, 2);
    reveal_with_fuel(dirs_below, 2);
    reveal_with_fuel(dirs_below_all, 2);
    reveal_with_fuel(shows, 2);
    reveal_with_fuel(shows_all, 2);
    let package = list.package;
    let rest = pending.drop_last();
    let last = pending.last();
    assert(pending[pending.len() - 1] is Dir);
    let path = tree_path(last);
    let inner = last->Dir_1;
    let here = list.go_on(tree_paths(pending), files);
    assert(tree_paths(pending).last() == path);
    assert(tree_paths(pending).drop_last() =~= tree_paths(rest));
    let reply = w(RequestView::ReadDir(path));
    assert(reply matches Reply::Entries(Ok(_)));
    let entries = reply->Entries_0->Ok_0@;
    lemma_entries(package, entries, inner);
    lemma_only_dirs(w, inner);
    lemma_multiset_commutative(files_below_all(rest), files_below(last));
    assert(are_inside(package, entries)) by {
        assert forall|i: int| 0 <= i < entries.len() && !(#[trigger] entries[i]).is_dir implies stripped(
            entries[i].path@,
            package,
        ) is Some by {
            lemma_only_files_has(inner, i);
            let p = tree_path(inner[i]);
            assert(only_files(inner).to_multiset().count(p) > 0);
            assert(files_below_all(inner).to_multiset().count(p) > 0);
            assert(files_below_all(pending).to_multiset().count(p) > 0);
            assert(files_below_all(pending).contains(p));
        }
    }
    let next_pending = rest + only_dirs(inner);
    let next_files = files + relative(package, only_files(inner));
    lemma_files_below_add(rest, only_dirs(inner));
    lemma_shows_add(w, rest, only_dirs(inner));
    assert(tree_paths(rest) + tree_paths(only_dirs(inner)) =~= tree_paths(next_pending));
    assert(here.next(reply) == list.go_on(tree_paths(next_pending), next_files));
    assert(after(here, w, dirs_below_all(pending)) == after(
        here.next(reply),
        w,
        dirs_below_all(next_pending),
    ));
    // The files that are left are those of before without the ones just found.
    let all = files_below_all(pending);
    let left = files_below_all(next_pending);
    lemma_multiset_commutative(files_below_all(rest), files_below_all(only_dirs(inner)));
    lemma_multiset_commutative(only_files(inner), left);
    assert(all.to_multiset() =~= (only_files(inner) + left).to_multiset());
    assert(are_files_of(package, left)) by {
        assert forall|p: Seq<char>| #[trigger] left.contains(p) implies stripped(p, package) is Some by {
            assert(left.to_multiset().count(p) > 0);
            assert(all.to_multiset().count(p) > 0);
            assert(all.contains(p));
        }
    }
    let found = next_files + relative(package, left);
    let wanted = files + relative(package, all);
    assert(found.to_multiset() == wanted.to_multiset()) by {
        lemma_relative_multiset(package, all, only_files(inner) + left);
        assert(relative(package, only_files(inner) + left) =~= relative(package, only_files(inner))
            + relative(package, left));
        assert(found =~= files + relative(package, only_files(inner) + left));
        lemma_multiset_commutative(files, relative(package, only_files(inner) + left));
        lemma_multiset_commutative(files, relative(package, all));
    }
    lemma_sorting_forgets_order(found, wanted);
    if next_pending.len() > 0 {
        assert forall|i: int| 0 <= i < next_pending.len() implies (#[trigger] next_pending[i]) is Dir by {
            if i < rest.len() {
                assert(pending[i] is Dir);
            } else {
                assert(only_dirs(inner)[i - rest.len()] is Dir);
            }
        }
        lemma_walk(w, list, next_pending, next_files);
    } else {
        assert(next_files =~= found);
    }
}

proof fn lemma_only_files_has(ts: Seq<Tree>, i: int)
    requires
        0 <= i < ts.len(),
        !(ts[i] is Dir),
    ensures
        only_files(ts).contains(tree_path(ts[i])),
    decreases ts.len(),
{
    if i < ts.len() - 1 {
        lemma_only_files_has(ts.drop_last(), i);
        let j = only_files(ts.drop_last()).index_of(tree_path(ts[i]));
        assert(only_files(ts)[j] == tree_path(ts[i]));
    } else {
        let all = only_files(ts);
        assert(all[all.len() - 1] == tree_path(ts[i]));
    }
}

/// Reading the files of a package from the disk comes to an end: each directory is read once, and
/// the result has each file below the directory of the package, as a path in the package and in
/// order.
pub proof fn law_walk(w: World, package: Seq<char>, inner: Seq<Tree>)
    requires
        shows(w, Tree::Dir(package, inner)),
        are_files_of(package, files_below_all(inner)),
    ensures
        ({
            let start = FileListView { package, stage: ListStage::CargoList }.walk();
            let files = relative(package, files_below_all(inner));
            after(start, w, 1 + dirs_below_all(inner)).stage == ListStage::Done(
                Ok::<_, ListError>(sorted_texts(files)),
            )
        }),
{
    reveal_with_fuel(files_below, 2);
    reveal_with_fuel(files_below_all, 2);
    reveal_with_fuel(dirs_below, 2);
    reveal_with_fuel(dirs_below_all, 2);
    reveal_with_fuel(shows, 2);
    reveal_with_fuel(shows_all, 2);
    let list = FileListView { package, stage: ListStage::CargoList };
    let top = Tree::Dir(package, inner);
    let pending = seq![top];
    assert(pending.drop_last() =~= Seq::empty());
    assert(files_below_all(pending) =~= files_below_all(inner));
    assert(shows_all(w, pending.drop_last()));
    lemma_walk(w, list, pending, Seq::empty());
    assert(tree_paths(pending).drop_last() =~= Seq::empty());
    assert(tree_paths(pending).last() == package);
    assert(list.go_on(tree_paths(pending), Seq::empty()) == list.walk());
    let files = relative(package, files_below_all(inner));
    assert(Seq::<Seq<char>>::empty() + files =~= files);
    assert(dirs_below_all(pending) == dirs_below(top));
}

/// The package was packaged locally: it is inside `target/package`, and has its original manifest,
/// be it under another name.
pub open spec fn is_packaged_locally(w: World, package: Seq<char>) -> bool {
    is_in_target_package(path_parts(package)) && (exists_in(w, orig_in(package)) || exists_in(
        w,
        moved_orig_in(package),
    ))
}

/// The files of a package that was packaged locally are read from the disk. Those of any other
/// package are the ones that cargo lists.
pub proof fn law_where_files_come_from(w: World, package: Seq<char>)
    requires
        is_proper(w),
    ensures
        is_packaged_locally(w, package) ==> after(file_list(package), w, 1) == file_list(
            package,
        ).walk() || after(file_list(package), w, 2) == file_list(package).walk(),
        !is_packaged_locally(w, package) ==> {
            let output = w(RequestView::Cargo { dir: package, args: package_list_args() })->Cargo_0;
            let done = ListStage::Done(listed_by_cargo(output));
            after(file_list(package), w, 1).stage == done || after(file_list(package), w, 3).stage
                == done
        },
{
    reveal_with_fuel(after, 4);
    let orig = RequestView::Exists(orig_in(package));
    assert(answers(w(orig), orig));
    let moved = RequestView::Exists(moved_orig_in(package));
    assert(answers(w(moved), moved));
    let cargo = RequestView::Cargo { dir: package, args: package_list_args() };
    assert(answers(w(cargo), cargo));
}

} // verus!
