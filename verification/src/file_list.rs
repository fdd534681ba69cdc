//! Listing the files that belong to a package.

use vstd::prelude::*;

use crate::io::{answers, asked, CargoOutput, DirEntry, ListError, Reply, Request, RequestView};
use crate::order::{law_sorted, sort_texts, sorted_texts, texts};
use crate::package_compare::{moved_orig_in, orig_in};
use crate::path;
use crate::path::{
    has_parent, is_part_name, join, last_name, parts_of, path_parts, strip_prefix, stripped, Part,
    PathPart,
};
use crate::text::{lines, lines_of};

verus! {

/// The parts are those of a directory `package` in a directory `target`, or of something in it.
pub open spec fn is_in_target_package(parts: Seq<Part>) -> bool
    decreases parts.len(),
{
    ||| last_name(parts) == Some("package"@) && last_name(parts.drop_last()) == Some("target"@)
    ||| has_parent(parts) && is_in_target_package(parts.drop_last())
}

/// Whether the parts are those of a directory `package` in a directory `target`, or of something in
/// it.
pub fn has_target_package(parts: &Vec<PathPart>) -> (r: bool)
    ensures
        r == is_in_target_package(path::parts(parts@)),
{
    let ghost all = path::parts(parts@);
    let mut n: usize = parts.len();
    assert(all.take(n as int) =~= all);
    while n > 0
        invariant
            n <= parts@.len(),
            all == path::parts(parts@),
            is_in_target_package(all) == is_in_target_package(all.take(n as int)),
        decreases n,
    {
        proof {
            assert(all.take(n as int).last() == parts@[n - 1]@);
            assert(all.take(n as int).drop_last() =~= all.take(n - 1));
            if n > 1 {
                assert(all.take(n - 1).last() == parts@[n - 2]@);
            }
        }
        if n > 1 && is_part_name(&parts[n - 1], "package") && is_part_name(
            &parts[n - 2],
            "target",
        ) {
            return true;
        }
        match &parts[n - 1] {
            PathPart::RootDir | PathPart::Prefix(_) => {
                return false;
            },
            _ => {},
        }
        n -= 1;
    }
    false
}

/// Whether a package was packaged locally, that is, whether it is inside `target/package`.
pub fn is_cargo_packaged_dir(package: &str) -> (r: bool)
    ensures
        r == is_in_target_package(path_parts(package@)),
{
    has_target_package(&parts_of(package))
}

/// The arguments with which cargo lists the files of a package.
pub open spec fn package_list_args() -> Seq<Seq<char>> {
    seq!["package"@, "--list"@, "--quiet"@, "--allow-dirty"@]
}

fn package_list() -> (r: Vec<String>)
    ensures
        texts(r@) == package_list_args(),
{
    let args = vec![
        "package".to_owned(),
        "--list".to_owned(),
        "--quiet".to_owned(),
        // The renamed original manifest is a change that is not committed.
        "--allow-dirty".to_owned(),
    ];
    assert(texts(args@) =~= package_list_args());
    args
}

/// The files of a package as cargo lists them.
pub open spec fn listed_by_cargo(output: Result<CargoOutput, String>) -> Result<
    Seq<Seq<char>>,
    ListError,
> {
    match output {
        Ok(output) => if output.success {
            Ok(lines_of(output.stdout@))
        } else {
            Err(ListError::CargoFailed(output.stderr))
        },
        Err(cause) => Err(ListError::CannotRunCargo(cause)),
    }
}

/// What a list of files, or the error in its place, stands for.
pub open spec fn files_view(files: Result<Vec<String>, ListError>) -> Result<
    Seq<Seq<char>>,
    ListError,
> {
    match files {
        Ok(files) => Ok(texts(files@)),
        Err(error) => Err(error),
    }
}

/// The files of a package, from what running `cargo package --list` gave.
pub fn get_cargo_package_list(output: Result<CargoOutput, String>) -> (r: Result<
    Vec<String>,
    ListError,
>)
    ensures
        files_view(r) == listed_by_cargo(output),
{
    match output {
        Ok(output) => if output.success {
            Ok(lines(output.stdout.as_str()))
        } else {
            Err(ListError::CargoFailed(output.stderr))
        },
        Err(cause) => Err(ListError::CannotRunCargo(cause)),
    }
}

/// The directories among the entries.
pub open spec fn dirs_in(entries: Seq<DirEntry>) -> Seq<Seq<char>>
    decreases entries.len(),
{
    if entries.len() == 0 {
        Seq::empty()
    } else if entries.last().is_dir {
        dirs_in(entries.drop_last()).push(entries.last().path@)
    } else {
        dirs_in(entries.drop_last())
    }
}

/// The files among the entries, as paths in the package.
pub open spec fn files_in(package: Seq<char>, entries: Seq<DirEntry>) -> Seq<Seq<char>>
    decreases entries.len(),
{
    if entries.len() == 0 {
        Seq::empty()
    } else if entries.last().is_dir {
        files_in(package, entries.drop_last())
    } else {
        files_in(package, entries.drop_last()).push(stripped(entries.last().path@, package)->0)
    }
}

/// All files among the entries are inside the package.
pub open spec fn are_inside(package: Seq<char>, entries: Seq<DirEntry>) -> bool {
    forall|i: int|
        0 <= i < entries.len() && !(#[trigger] entries[i]).is_dir ==> stripped(
            entries[i].path@,
            package,
        ) is Some
}

/// How far the listing of the files of a package has come.
#[derive(Debug, PartialEq, Eq)]
enum Stage {
    OrigExists,
    MovedOrigExists,
    Walk { dir: String, dirs: Vec<String>, files: Vec<String> },
    CargoList,
    Done(Result<Vec<String>, ListError>),
}

/// What a stage of listing the files of a package stands for.
pub ghost enum ListStage {
    /// Does the package have its original manifest?
    OrigExists,
    /// Does the package have its original manifest under another name?
    MovedOrigExists,
    /// The files are read from the disk: `dir` is read next and `dirs` are left, the last one
    /// first; `files` were found.
    Walk { dir: Seq<char>, dirs: Seq<Seq<char>>, files: Seq<Seq<char>> },
    /// Cargo lists the files.
    CargoList,
    /// The files are known.
    Done(Result<Seq<Seq<char>>, ListError>),
}

/// The listing of the files of a package.
#[derive(Debug, PartialEq, Eq)]
pub struct FileList {
    package: String,
    stage: Stage,
}

/// What the listing of the files of a package stands for.
pub ghost struct FileListView {
    pub package: Seq<char>,
    pub stage: ListStage,
}

impl View for FileList {
    type V = FileListView;

    closed spec fn view(&self) -> FileListView {
        FileListView {
            package: self.package@,
            stage: stage_view(self.stage),
        }
    }
}

spec fn stage_view(stage: Stage) -> ListStage {
    match stage {
        Stage::OrigExists => ListStage::OrigExists,
        Stage::MovedOrigExists => ListStage::MovedOrigExists,
        Stage::Walk { dir, dirs, files } => ListStage::Walk {
            dir: dir@,
            dirs: texts(dirs@),
            files: texts(files@),
        },
        Stage::CargoList => ListStage::CargoList,
        Stage::Done(files) => ListStage::Done(files_view(files)),
    }
}

impl FileListView {
    /// The listing at another stage.
    pub open spec fn at(self, stage: ListStage) -> FileListView {
        FileListView { stage, ..self }
    }

    /// What the listing asks for.
    pub open spec fn asks(self) -> Option<RequestView> {
        match self.stage {
            ListStage::OrigExists => Some(RequestView::Exists(orig_in(self.package))),
            ListStage::MovedOrigExists => Some(RequestView::Exists(moved_orig_in(self.package))),
            ListStage::Walk { dir, .. } => Some(RequestView::ReadDir(dir)),
            ListStage::CargoList => Some(
                RequestView::Cargo { dir: self.package, args: package_list_args() },
            ),
            ListStage::Done(_) => None,
        }
    }

    /// The files are read from the disk, beginning with the directory of the package.
    pub open spec fn walk(self) -> FileListView {
        self.at(
            ListStage::Walk { dir: self.package, dirs: Seq::empty(), files: Seq::empty() },
        )
    }

    /// The listing goes on with the last of the directories that are left.
    pub open spec fn go_on(self, dirs: Seq<Seq<char>>, files: Seq<Seq<char>>) -> FileListView {
        self.at(
            if dirs.len() == 0 {
                ListStage::Done(Ok(sorted_texts(files)))
            } else {
                ListStage::Walk { dir: dirs.last(), dirs: dirs.drop_last(), files }
            },
        )
    }

    /// The listing after a reply to what it asks for.
    pub open spec fn next(self, reply: Reply) -> FileListView {
        match (self.stage, reply) {
            (ListStage::Done(_), _) => self,
            (ListStage::OrigExists, Reply::Flag(exists)) => if exists {
                self.walk()
            } else {
                self.at(ListStage::MovedOrigExists)
            },
            (ListStage::MovedOrigExists, Reply::Flag(exists)) => if exists {
                self.walk()
            } else {
                self.at(ListStage::CargoList)
            },
            (ListStage::Walk { dirs, files, .. }, Reply::Entries(entries)) => match entries {
                Ok(entries) => if are_inside(self.package, entries@) {
                    self.go_on(dirs + dirs_in(entries@), files + files_in(self.package, entries@))
                } else {
                    self.at(ListStage::Done(Err(ListError::OutsidePackage)))
                },
                Err(cause) => self.at(ListStage::Done(Err(ListError::CannotReadDir(cause)))),
            },
            (ListStage::CargoList, Reply::Cargo(output)) => self.at(
                ListStage::Done(listed_by_cargo(output)),
            ),
            _ => self.at(ListStage::Done(Err(ListError::UnexpectedReply))),
        }
    }
}

/// The listing of the files of a package begins.
pub open spec fn file_list(package: Seq<char>) -> FileListView {
    FileListView {
        package,
        stage: if is_in_target_package(path_parts(package)) {
            ListStage::OrigExists
        } else {
            ListStage::CargoList
        },
    }
}

/// Lists the files that belong to a package.
///
/// Where the package was packaged locally, its files are read from the disk. Otherwise cargo
/// lists them.
pub fn get_cargo_package_files(package: &str) -> (r: FileList)
    ensures
        r@ == file_list(package@),
{
    let stage = if is_cargo_packaged_dir(package) {
        Stage::OrigExists
    } else {
        Stage::CargoList
    };
    FileList { package: package.to_owned(), stage }
}

/// Lists the files below the directory of a package, as paths in the package and in order.
pub fn list_packaged_files(package: &str) -> (r: FileList)
    ensures
        r@ == (FileListView { package: package@, stage: ListStage::CargoList }).walk(),
{
    let stage = Stage::Walk { dir: package.to_owned(), dirs: Vec::new(), files: Vec::new() };
    let r = FileList { package: package.to_owned(), stage };
    assert(r@.stage->dirs =~= Seq::empty());
    assert(r@.stage->files =~= Seq::empty());
    r
}

/// Adds the entries of a directory to the directories that are left and the files that were found.
fn add_entries(
    package: &str,
    dirs: Vec<String>,
    files: Vec<String>,
    entries: &Vec<DirEntry>,
) -> (r: Option<(Vec<String>, Vec<String>)>)
    ensures
        r is Some <==> are_inside(package@, entries@),
        r matches Some((d, f)) ==> texts(d@) == texts(dirs@) + dirs_in(entries@) && texts(f@)
            == texts(files@) + files_in(package@, entries@),
{
    let mut d = dirs;
    let mut f = files;
    let ghost all = entries@;
    let mut i: usize = 0;
    assert(all.take(0) =~= Seq::empty());
    assert(texts(dirs@) =~= texts(dirs@) + dirs_in(all.take(0)));
    assert(texts(files@) =~= texts(files@) + files_in(package@, all.take(0)));
    while i < entries.len()
        invariant
            i <= entries@.len(),
            all == entries@,
            texts(d@) == texts(dirs@) + dirs_in(all.take(i as int)),
            texts(f@) == texts(files@) + files_in(package@, all.take(i as int)),
            forall|k: int|
                0 <= k < i && !(#[trigger] all[k]).is_dir ==> stripped(
                    all[k].path@,
                    package@,
                ) is Some,
        decreases entries@.len() - i,
    {
        let ghost d0 = d@;
        let ghost f0 = f@;
        let entry = &entries[i];
        proof {
            let taken = all.take(i + 1);
            assert(taken.drop_last() =~= all.take(i as int));
            assert(taken.last() == *entry);
        }
        if entry.is_dir {
            d.push(entry.path.clone());
            assert(texts(d@) =~= texts(d0).push(entry.path@));
            assert(texts(d@) =~= texts(dirs@) + dirs_in(all.take(i + 1)));
        } else {
            match strip_prefix(entry.path.as_str(), package) {
                Some(rest) => {
                    f.push(rest);
                    assert(texts(f@) =~= texts(f0).push(rest@));
                    assert(texts(f@) =~= texts(files@) + files_in(package@, all.take(i + 1)));
                },
                None => {
                    return None;
                },
            }
        }
        i += 1;
    }
    assert(all.take(all.len() as int) =~= all);
    Some((d, f))
}

impl FileList {
    /// What the listing asks for; nothing when it is done.
    pub fn request(&self) -> (r: Option<Request>)
        ensures
            asked(r) == self@.asks(),
    {
        let package = self.package.as_str();
        match &self.stage {
            Stage::OrigExists => Some(Request::Exists(join(package, "Cargo.toml.orig"))),
            Stage::MovedOrigExists => Some(Request::Exists(join(package, "Cargo.toml.orig.orig"))),
            Stage::Walk { dir, .. } => Some(Request::ReadDir(dir.clone())),
            Stage::CargoList => Some(
                Request::Cargo { dir: self.package.clone(), args: package_list() },
            ),
            Stage::Done(_) => None,
        }
    }

    /// Goes on with the reply to what was asked for.
    pub fn reply(self, reply: Reply) -> (r: FileList)
        ensures
            r@ == self@.next(reply),
    {
        let FileList { package, stage } = self;
        match (stage, reply) {
            (Stage::Done(files), _) => FileList { package, stage: Stage::Done(files) },
            (Stage::OrigExists, Reply::Flag(exists)) => if exists {
                list_packaged_files(package.as_str())
            } else {
                FileList { package, stage: Stage::MovedOrigExists }
            },
            (Stage::MovedOrigExists, Reply::Flag(exists)) => if exists {
                list_packaged_files(package.as_str())
            } else {
                FileList { package, stage: Stage::CargoList }
            },
            (Stage::Walk { dirs, files, .. }, Reply::Entries(entries)) => {
                let stage = match entries {
                    Ok(entries) => match add_entries(package.as_str(), dirs, files, &entries) {
                        Some((dirs, files)) => go_on(dirs, files),
                        None => Stage::Done(Err(ListError::OutsidePackage)),
                    },
                    Err(cause) => Stage::Done(Err(ListError::CannotReadDir(cause))),
                };
                FileList { package, stage }
            },
            (Stage::CargoList, Reply::Cargo(output)) => {
                FileList { package, stage: Stage::Done(get_cargo_package_list(output)) }
            },
            _ => FileList { package, stage: Stage::Done(Err(ListError::UnexpectedReply)) },
        }
    }

    /// The files of the package; nothing while the listing is not done.
    pub fn result(self) -> (r: Option<Result<Vec<String>, ListError>>)
        ensures
            match r {
                Some(files) => self@.stage == ListStage::Done(files_view(files)),
                None => !(self@.stage is Done),
            },
    {
        match self.stage {
            Stage::Done(files) => Some(files),
            _ => None,
        }
    }
}

/// The stage that goes on with the last of the directories that are left.
fn go_on(dirs: Vec<String>, files: Vec<String>) -> (r: Stage)
    ensures
        forall|list: FileListView|
            stage_view(r) == (#[trigger] list.go_on(texts(dirs@), texts(files@))).stage,
{
    let mut left = dirs;
    match left.pop() {
        Some(dir) => {
            assert(texts(left@) =~= texts(dirs@).drop_last());
            Stage::Walk { dir, dirs: left, files }
        },
        None => Stage::Done(Ok(sort_texts(files))),
    }
}

/// A directory is inside `target/package` exactly where a part `package` stands right behind a part
/// `target`, and no root or prefix follows.
pub proof fn law_in_target_package(parts: Seq<Part>)
    ensures
        is_in_target_package(parts) <==> exists|i: int|
            0 <= i < parts.len() - 1 && #[trigger] parts[i] == Part::Normal("target"@) && parts[i
                + 1] == Part::Normal("package"@) && forall|k: int|
                i + 2 <= k < parts.len() ==> !((#[trigger] parts[k]) is RootDir) && !(
                parts[k] is Prefix),
    decreases parts.len(),
{
    if parts.len() > 0 {
        let rest = parts.drop_last();
        law_in_target_package(rest);
        let n = parts.len();
        if last_name(parts) == Some("package"@) && last_name(rest) == Some("target"@) {
            assert(rest.last() == parts[n - 2]);
            assert(parts[n - 2] == Part::Normal("target"@) && parts[n - 1] == Part::Normal(
                "package"@,
            ));
        } else if is_in_target_package(parts) {
            let i = choose|i: int|
                0 <= i < rest.len() - 1 && #[trigger] rest[i] == Part::Normal("target"@) && rest[i
                    + 1] == Part::Normal("package"@) && forall|k: int|
                    i + 2 <= k < rest.len() ==> !((#[trigger] rest[k]) is RootDir) && !(
                    rest[k] is Prefix);
            assert(parts[i] == rest[i] && parts[i + 1] == rest[i + 1]);
            assert forall|k: int| i + 2 <= k < n implies !((#[trigger] parts[k]) is RootDir) && !(
            parts[k] is Prefix) by {
                if k < n - 1 {
                    assert(rest[k] == parts[k]);
                }
            }
        }
        if exists|i: int|
            0 <= i < n - 1 && #[trigger] parts[i] == Part::Normal("target"@) && parts[i + 1]
                == Part::Normal("package"@) && forall|k: int|
                i + 2 <= k < n ==> !((#[trigger] parts[k]) is RootDir) && !(parts[k] is Prefix) {
            let i = choose|i: int|
                0 <= i < n - 1 && #[trigger] parts[i] == Part::Normal("target"@) && parts[i + 1]
                    == Part::Normal("package"@) && forall|k: int|
                    i + 2 <= k < n ==> !((#[trigger] parts[k]) is RootDir) && !(
                    parts[k] is Prefix);
            if i == n - 2 {
                assert(rest.last() == parts[n - 2]);
                assert(parts.last() == parts[n - 1]);
            } else {
                assert(rest[i] == parts[i] && rest[i + 1] == parts[i + 1]);
                assert forall|k: int| i + 2 <= k < rest.len() implies !((
                #[trigger] rest[k]) is RootDir) && !(rest[k] is Prefix) by {
                    assert(rest[k] == parts[k]);
                }
                assert(!(parts[n - 1] is RootDir) && !(parts[n - 1] is Prefix));
                assert(has_parent(parts));
            }
        }
    }
}

/// The files that cargo lists are known exactly where cargo could be run and succeeded; then they
/// are the lines that it prints.
pub proof fn law_listed_by_cargo(output: Result<CargoOutput, String>)
    ensures
        output is Ok && output->Ok_0.success ==> listed_by_cargo(output) == Ok::<_, ListError>(
            lines_of(output->Ok_0.stdout@),
        ),
        output is Ok && !output->Ok_0.success ==> listed_by_cargo(output) == Err::<
            Seq<Seq<char>>,
            _,
        >(ListError::CargoFailed(output->Ok_0.stderr)),
        output matches Err(cause) ==> listed_by_cargo(output) == Err::<Seq<Seq<char>>, _>(
            ListError::CannotRunCargo(cause),
        ),
{
}

proof fn lemma_entries_contain(package: Seq<char>, entries: Seq<DirEntry>, i: int)
    requires
        0 <= i < entries.len(),
    ensures
        entries[i].is_dir ==> dirs_in(entries).contains(entries[i].path@),
        !entries[i].is_dir ==> files_in(package, entries).contains(
            stripped(entries[i].path@, package)->0,
        ),
    decreases entries.len(),
{
    let rest = entries.drop_last();
    let dirs = dirs_in(entries);
    let files = files_in(package, entries);
    if i == entries.len() - 1 {
        if entries[i].is_dir {
            assert(dirs[dirs.len() - 1] == entries[i].path@);
        } else {
            assert(files[files.len() - 1] == stripped(entries[i].path@, package)->0);
        }
    } else {
        assert(rest[i] == entries[i]);
        lemma_entries_contain(package, rest, i);
        if entries[i].is_dir {
            let k = dirs_in(rest).index_of(entries[i].path@);
            assert(dirs[k] == entries[i].path@);
        } else {
            let k = files_in(package, rest).index_of(stripped(entries[i].path@, package)->0);
            assert(files[k] == stripped(entries[i].path@, package)->0);
        }
    }
}

proof fn lemma_entries_len(package: Seq<char>, entries: Seq<DirEntry>)
    ensures
        dirs_in(entries).len() + files_in(package, entries).len() == entries.len(),
    decreases entries.len(),
{
    if entries.len() > 0 {
        lemma_entries_len(package, entries.drop_last());
    }
}

/// Each entry of a directory that is read counts, wherever it stands: a directory is still to be
/// read, and a file is found, as a path in the package. Nothing that was left or found before is
/// lost.
pub proof fn law_entries(
    list: FileListView,
    dir: Seq<char>,
    dirs: Seq<Seq<char>>,
    files: Seq<Seq<char>>,
    entries: Vec<DirEntry>,
    i: int,
)
    requires
        list.stage == (ListStage::Walk { dir, dirs, files }),
        0 <= i < entries@.len(),
        forall|k: int|
            0 <= k < entries@.len() && !(#[trigger] entries@[k]).is_dir ==> stripped(
                entries@[k].path@,
                list.package,
            ) is Some,
    ensures
        ({
            let next = list.next(Reply::Entries(Ok(entries)));
            let path = entries@[i].path@;
            let found = stripped(path, list.package)->0;
            &&& entries@[i].is_dir ==> (next.stage matches ListStage::Walk { dir: d, dirs: ds, .. }
                && (d == path || ds.contains(path)))
            &&& !entries@[i].is_dir ==> match next.stage {
                ListStage::Walk { files: fs, .. } => fs.contains(found),
                ListStage::Done(Ok(fs)) => fs.contains(found),
                _ => false,
            }
            &&& match next.stage {
                ListStage::Walk { dirs: ds, files: fs, .. } => ds.len() + fs.len() + 1 == dirs.len()
                    + files.len() + entries@.len(),
                ListStage::Done(Ok(fs)) => dirs.len() == 0 && fs.len() == files.len()
                    + entries@.len(),
                _ => false,
            }
        }),
{
    let es = entries@;
    lemma_entries_contain(list.package, es, i);
    lemma_entries_len(list.package, es);
    let ds = dirs + dirs_in(es);
    let fs = files + files_in(list.package, es);
    assert(are_inside(list.package, es));
    law_sorted(fs);
    if es[i].is_dir {
        let k = dirs_in(es).index_of(es[i].path@);
        assert(ds[dirs.len() + k] == es[i].path@);
        if dirs.len() + k < ds.len() - 1 {
            assert(ds.drop_last()[dirs.len() + k] == es[i].path@);
        }
    } else {
        let found = stripped(es[i].path@, list.package)->0;
        let k = files_in(list.package, es).index_of(found);
        assert(fs[files.len() + k] == found);
        assert(fs.contains(found));
    }
}

/// A file that is not in the package, and a directory that cannot be read, end the listing with an
/// error.
pub proof fn law_walk_fails(
    list: FileListView,
    entries: Vec<DirEntry>,
    i: int,
    cause: String,
)
    requires
        list.stage is Walk,
    ensures
        0 <= i < entries@.len() && !entries@[i].is_dir && stripped(
            entries@[i].path@,
            list.package,
        ) is None ==> list.next(Reply::Entries(Ok(entries))).stage == ListStage::Done(
            Err(ListError::OutsidePackage),
        ),
        list.next(Reply::Entries(Err(cause))).stage == ListStage::Done(
            Err(ListError::CannotReadDir(cause)),
        ),
{
    if 0 <= i < entries@.len() && !entries@[i].is_dir && stripped(
        entries@[i].path@,
        list.package,
    ) is None {
        assert(!are_inside(list.package, entries@));
    }
}

/// What was listed stands for the files, and an error for itself.
pub proof fn law_files_view(files: Result<Vec<String>, ListError>)
    ensures
        files matches Ok(list) ==> files_view(files) == Ok::<_, ListError>(texts(list@)),
        files matches Err(error) ==> files_view(files) == Err::<Seq<Seq<char>>, _>(error),
{
}

/// A reply to another request ends a listing with an error; once it is done, no reply changes it.
pub proof fn law_listing_and_other_replies(list: FileListView, reply: Reply)
    ensures
        list.asks() is Some && !answers(reply, list.asks()->0) ==> list.next(reply).stage
            == ListStage::Done(Err(ListError::UnexpectedReply)),
        list.asks() is None <==> list.stage is Done,
        list.stage is Done ==> list.next(reply) == list,
        list.next(reply).package == list.package,
{
}

/// The files of a package outside `target/package` are asked from cargo, in the directory of the
/// package, and changes that are not committed are no obstacle.
pub proof fn law_cargo_lists_files(package: Seq<char>)
    ensures
        !is_in_target_package(path_parts(package)) ==> file_list(package).asks() == Some(
            RequestView::Cargo {
                dir: package,
                args: seq!["package"@, "--list"@, "--quiet"@, "--allow-dirty"@],
            },
        ),
{
}

} // verus!
