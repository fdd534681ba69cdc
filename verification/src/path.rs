//! Paths, as texts that are taken apart into their parts.
//!
//! Paths are read by the rules of the platform that the library is built for.

use cargo_metadata::camino::{Utf8Component, Utf8Path};
use vstd::prelude::*;
use vstd::relations::*;

use crate::order::{
    lemma_lex_order, lemma_lex_skip, lemma_text_order, lex_le, order_of, text_le, text_order, texts,
    Order,
};
use crate::text::{is_text, opt_text};

verus! {

/// One part of a path.
#[derive(Debug, PartialEq, Eq)]
pub enum PathPart {
    /// A Windows path prefix, such as the drive of `C:`.
    Prefix(String),
    /// The root directory.
    RootDir,
    /// The current directory, `.`.
    CurDir,
    /// The parent directory, `..`.
    ParentDir,
    /// The name of a file or of a directory.
    Normal(String),
}

/// What a part of a path stands for.
pub ghost enum Part {
    Prefix(Seq<char>),
    RootDir,
    CurDir,
    ParentDir,
    Normal(Seq<char>),
}

impl View for PathPart {
    type V = Part;

    open spec fn view(&self) -> Part {
        match *self {
            PathPart::Prefix(s) => Part::Prefix(s@),
            PathPart::RootDir => Part::RootDir,
            PathPart::CurDir => Part::CurDir,
            PathPart::ParentDir => Part::ParentDir,
            PathPart::Normal(s) => Part::Normal(s@),
        }
    }
}

/// What a list of parts stands for.
pub open spec fn parts(v: Seq<PathPart>) -> Seq<Part> {
    v.map_values(|p: PathPart| p@)
}

/// The parts of a path, as `Utf8Path::components` gives them.
pub uninterp spec fn path_parts(path: Seq<char>) -> Seq<Part>;

/// The path that `Utf8Path::join` makes.
pub uninterp spec fn joined(base: Seq<char>, path: Seq<char>) -> Seq<char>;

/// The path that `Utf8Path::parent` gives.
pub uninterp spec fn parent_path(path: Seq<char>) -> Option<Seq<char>>;

/// What `Utf8Path::strip_prefix` leaves of a path.
pub uninterp spec fn stripped(path: Seq<char>, base: Seq<char>) -> Option<Seq<char>>;

/// The name that the last of some parts gives a file.
pub open spec fn last_name(parts: Seq<Part>) -> Option<Seq<char>> {
    if parts.len() > 0 {
        match parts.last() {
            Part::Normal(name) => Some(name),
            _ => None,
        }
    } else {
        None
    }
}

/// The parts belong to a path with a parent: there is a last one, and it is no root or prefix.
pub open spec fn has_parent(parts: Seq<Part>) -> bool {
    parts.len() > 0 && !(parts.last() is RootDir) && !(parts.last() is Prefix)
}

/// The file name of a path.
pub open spec fn path_name(path: Seq<char>) -> Option<Seq<char>> {
    last_name(path_parts(path))
}

/// Two paths are the same when they have the same parts.
pub open spec fn same_path(a: Seq<char>, b: Seq<char>) -> bool {
    path_parts(a) == path_parts(b)
}

/// The prefix of a path with the given parts. Only Windows has paths with one.
pub open spec fn prefix_of(parts: Seq<Part>) -> Option<Part> {
    if parts.len() > 0 && parts[0] is Prefix {
        Some(parts[0])
    } else {
        None
    }
}

/// All parts are names.
pub open spec fn are_names(parts: Seq<Part>) -> bool {
    forall|i: int| 0 <= i < parts.len() ==> #[trigger] parts[i] is Normal
}

/// `whole` has the parts of a path that is adjoined to `base`: a path of names stands at the end,
/// behind all parts of `base` where there is no prefix. It may be otherwise where the two together
/// read as another prefix, as `b` adjoined to `\\a` does.
pub open spec fn is_adjoined(base: Seq<Part>, path: Seq<Part>, whole: Seq<Part>) -> bool {
    are_names(path) && prefix_of(whole) == prefix_of(base) ==> {
        &&& path.is_suffix_of(whole)
        &&& prefix_of(base) is None ==> whole == base + path
    }
}

/// `Utf8Path::components` takes a path apart. Which parts a path has is not said here: `path_parts`
/// is the name of the result.
#[verifier::external_body]
pub(crate) fn parts_of(path: &str) -> (r: Vec<PathPart>)
    ensures
        parts(r@) == path_parts(path@),
{
    let mut out = Vec::new();
    for part in Utf8Path::new(path).components() {
        out.push(match part {
            Utf8Component::Prefix(prefix) => PathPart::Prefix(format!("{:?}", prefix.kind())),
            Utf8Component::RootDir => PathPart::RootDir,
            Utf8Component::CurDir => PathPart::CurDir,
            Utf8Component::ParentDir => PathPart::ParentDir,
            Utf8Component::Normal(name) => PathPart::Normal(name.to_string()),
        });
    }
    out
}

/// `Utf8Path::join` adjoins a path to another one. Where the adjoined path is made of names, they
/// are the last parts of the result. How the two are put together otherwise is not said here:
/// `joined` is the name of the result.
#[verifier::external_body]
pub(crate) fn join(base: &str, path: &str) -> (r: String)
    ensures
        r@ == joined(base@, path@),
        is_adjoined(path_parts(base@), path_parts(path@), path_parts(r@)),
{
    Utf8Path::new(base).join(path).into_string()
}

/// `Utf8Path::parent` gives the path without its last part; there is none for a path that ends in
/// a root or a prefix, or that has no parts.
#[verifier::external_body]
pub(crate) fn parent(path: &str) -> (r: Option<String>)
    ensures
        opt_text(r) == parent_path(path@),
        r is Some <==> has_parent(path_parts(path@)),
        r is Some ==> path_parts(r->0@) == path_parts(path@).drop_last(),
{
    Utf8Path::new(path).parent().map(|p| p.to_string())
}

/// `Utf8Path::file_name` gives the last part of a path, if that is a name.
#[verifier::external_body]
pub(crate) fn file_name(path: &str) -> (r: Option<String>)
    ensures
        opt_text(r) == path_name(path@),
{
    Utf8Path::new(path).file_name().map(|name| name.to_string())
}

/// `Utf8Path::strip_prefix` leaves a path without a base. It fails exactly where the parts of the
/// base are not the first parts of the path. What it leaves, joined onto the base, gives the path
/// back; of paths with a Windows prefix this is not said.
#[verifier::external_body]
pub(crate) fn strip_prefix(path: &str, base: &str) -> (r: Option<String>)
    ensures
        opt_text(r) == stripped(path@, base@),
        r is Some <==> path_parts(base@).is_prefix_of(path_parts(path@)),
        r is Some && prefix_of(path_parts(joined(base@, r->0@))) is None ==> same_path(
            joined(base@, r->0@),
            path@,
        ),
{
    match Utf8Path::new(path).strip_prefix(base) {
        Ok(rest) => Some(rest.to_string()),
        Err(_) => None,
    }
}

/// The kind of a part, as a number: prefixes come first, names last.
pub open spec fn part_rank(p: Part) -> int {
    match p {
        Part::Prefix(_) => 0,
        Part::RootDir => 1,
        Part::CurDir => 2,
        Part::ParentDir => 3,
        Part::Normal(_) => 4,
    }
}

/// The text that a part carries.
pub open spec fn part_text(p: Part) -> Seq<char> {
    match p {
        Part::Prefix(s) => s,
        Part::Normal(s) => s,
        _ => Seq::empty(),
    }
}

/// The order of the parts of paths: by kind, then by text.
pub open spec fn part_order() -> spec_fn(Part, Part) -> bool {
    |a: Part, b: Part|
        part_rank(a) < part_rank(b) || (part_rank(a) == part_rank(b) && text_le(
            part_text(a),
            part_text(b),
        ))
}

/// `a` comes before `b`, or is the same path: paths are ordered part by part.
pub open spec fn path_le(a: Seq<char>, b: Seq<char>) -> bool {
    lex_le(part_order(), path_parts(a), path_parts(b))
}

/// `a` comes before `b`.
pub open spec fn path_before(a: Seq<char>, b: Seq<char>) -> bool {
    path_le(a, b) && !same_path(a, b)
}

/// The paths are in their order, and no two are the same.
pub open spec fn in_path_order(set: Seq<Seq<char>>) -> bool {
    forall|i: int, j: int| 0 <= i < j < set.len() ==> path_before(#[trigger] set[i], #[trigger] set[j])
}

/// An ordered list of paths with one more path, at its place unless it is there already.
pub open spec fn with_path(set: Seq<Seq<char>>, path: Seq<char>) -> Seq<Seq<char>>
    decreases set.len(),
{
    if set.len() == 0 {
        seq![path]
    } else if path_before(set[0], path) {
        seq![set[0]] + with_path(set.drop_first(), path)
    } else if same_path(set[0], path) {
        set
    } else {
        seq![path] + set
    }
}

/// The set of the given paths, as an ordered list.
pub open spec fn path_set(paths: Seq<Seq<char>>) -> Seq<Seq<char>>
    decreases paths.len(),
{
    if paths.len() == 0 {
        Seq::empty()
    } else {
        with_path(path_set(paths.drop_last()), paths.last())
    }
}

/// Two lists hold the same paths in the same order.
pub open spec fn same_paths(a: Seq<Seq<char>>, b: Seq<Seq<char>>) -> bool {
    a.len() == b.len() && forall|i: int| 0 <= i < a.len() ==> same_path(#[trigger] a[i], b[i])
}

/// The path stands in the list, written in whatever way.
pub open spec fn has_path(list: Seq<Seq<char>>, path: Seq<char>) -> bool {
    exists|i: int| 0 <= i < list.len() && same_path(#[trigger] list[i], path)
}

proof fn lemma_part_order()
    ensures
        total_ordering(part_order()),
{
    lemma_text_order();
    let le = part_order();
    let tle = text_order();
    assert forall|a: Part| #[trigger] le(a, a) by {
        assert(tle(part_text(a), part_text(a)));
    }
    assert forall|a: Part, b: Part| #[trigger] le(a, b) && #[trigger] le(b, a) implies a == b by {
        assert(tle(part_text(a), part_text(b)) && tle(part_text(b), part_text(a)));
    }
    assert forall|a: Part, b: Part, c: Part|
        #[trigger] le(a, b) && #[trigger] le(b, c) implies le(a, c) by {
        if part_rank(a) == part_rank(b) && part_rank(b) == part_rank(c) {
            assert(tle(part_text(a), part_text(b)) && tle(part_text(b), part_text(c)));
            assert(tle(part_text(a), part_text(c)));
        }
    }
    assert forall|a: Part, b: Part| #[trigger] le(a, b) || #[trigger] le(b, a) by {
        assert(tle(part_text(a), part_text(b)) || tle(part_text(b), part_text(a)));
    }
}

/// Of two paths one comes first or they are the same, and coming before is transitive.
proof fn lemma_path_order()
    ensures
        total_ordering(|a: Seq<Part>, b: Seq<Part>| lex_le(part_order(), a, b)),
        forall|a: Seq<char>, b: Seq<char>| #[trigger] path_le(a, b) || path_before(b, a),
        forall|a: Seq<char>, b: Seq<char>| #[trigger] path_before(a, b) ==> !path_le(b, a),
        forall|a: Seq<char>, b: Seq<char>, c: Seq<char>|
            #[trigger] path_before(a, b) && #[trigger] path_before(b, c) ==> path_before(a, c),
{
    lemma_part_order();
    lemma_lex_order(part_order());
    let le = |a: Seq<Part>, b: Seq<Part>| lex_le(part_order(), a, b);
    assert forall|a: Seq<char>, b: Seq<char>| #[trigger] path_le(a, b) || path_before(b, a) by {
        assert(le(path_parts(a), path_parts(b)) || le(path_parts(b), path_parts(a)));
        assert(le(path_parts(a), path_parts(a)));
    }
    assert forall|a: Seq<char>, b: Seq<char>| #[trigger] path_before(a, b) implies !path_le(b, a) by {
        assert(le(path_parts(a), path_parts(b)));
        assert(le(path_parts(b), path_parts(a)) == path_le(b, a));
    }
    assert forall|a: Seq<char>, b: Seq<char>, c: Seq<char>|
        #[trigger] path_before(a, b) && #[trigger] path_before(b, c) implies path_before(a, c) by {
        assert(le(path_parts(a), path_parts(b)) && le(path_parts(b), path_parts(c)));
        assert(le(path_parts(a), path_parts(c)));
        if same_path(a, c) {
            assert(le(path_parts(b), path_parts(a)));
        }
    }
}

/// Where a path goes in an ordered list.
proof fn lemma_with_path_at(set: Seq<Seq<char>>, path: Seq<char>, at: int)
    requires
        0 <= at <= set.len(),
        forall|i: int| 0 <= i < at ==> path_before(#[trigger] set[i], path),
        at < set.len() ==> !path_before(set[at], path),
    ensures
        with_path(set, path) == if at < set.len() && same_path(set[at], path) {
            set
        } else {
            set.insert(at, path)
        },
    decreases set.len(),
{
    if set.len() > 0 && at > 0 {
        assert(path_before(set[0], path));
        let rest = set.drop_first();
        assert forall|i: int| 0 <= i < at - 1 implies path_before(#[trigger] rest[i], path) by {
            assert(path_before(set[i + 1], path));
        }
        lemma_with_path_at(rest, path, at - 1);
        assert(seq![set[0]] + rest =~= set);
        assert(seq![set[0]] + rest.insert(at - 1, path) =~= set.insert(at, path));
    } else {
        assert(seq![path] + set =~= set.insert(0, path));
        if set.len() == 0 {
            assert(seq![path] =~= set.insert(0, path));
        }
    }
}

/// How two parts are ordered.
fn order_of_parts(a: &PathPart, b: &PathPart) -> (r: Order)
    ensures
        r == Order::Same <==> a@ == b@,
        r == Order::Before ==> part_order()(a@, b@),
        r == Order::After ==> part_order()(b@, a@),
{
    match (a, b) {
        (PathPart::Prefix(x), PathPart::Prefix(y)) => order_of(x.as_str(), y.as_str()),
        (PathPart::Normal(x), PathPart::Normal(y)) => order_of(x.as_str(), y.as_str()),
        (PathPart::RootDir, PathPart::RootDir) => Order::Same,
        (PathPart::CurDir, PathPart::CurDir) => Order::Same,
        (PathPart::ParentDir, PathPart::ParentDir) => Order::Same,
        (PathPart::Prefix(_), _) => Order::Before,
        (_, PathPart::Prefix(_)) => Order::After,
        (PathPart::RootDir, _) => Order::Before,
        (_, PathPart::RootDir) => Order::After,
        (PathPart::CurDir, _) => Order::Before,
        (_, PathPart::CurDir) => Order::After,
        (PathPart::ParentDir, _) => Order::Before,
        (_, PathPart::ParentDir) => Order::After,
    }
}

/// A path together with its parts.
struct SplitPath {
    text: String,
    parts: Vec<PathPart>,
}

impl SplitPath {
    spec fn wf(self) -> bool {
        parts(self.parts@) == path_parts(self.text@)
    }
}

/// The texts of paths.
spec fn split_texts(v: Seq<SplitPath>) -> Seq<Seq<char>> {
    v.map_values(|p: SplitPath| p.text@)
}

/// The parts that go with the paths are theirs.
spec fn all_wf(v: Seq<SplitPath>) -> bool {
    forall|i: int| 0 <= i < v.len() ==> (#[trigger] v[i]).wf()
}

/// How two paths are ordered.
fn order_of_paths(a: &SplitPath, b: &SplitPath) -> (r: Order)
    requires
        a.wf(),
        b.wf(),
    ensures
        r == Order::Same <==> same_path(a.text@, b.text@),
        r == Order::Before <==> path_before(a.text@, b.text@),
        r == Order::After <==> path_before(b.text@, a.text@),
{
    let ghost xs = path_parts(a.text@);
    let ghost ys = path_parts(b.text@);
    let mut i: usize = 0;
    proof {
        lemma_path_order();
        lemma_part_order();
        assert(path_le(a.text@, b.text@) || path_before(b.text@, a.text@));
    }
    while i < a.parts.len() && i < b.parts.len()
        invariant
            a.wf(),
            b.wf(),
            xs == path_parts(a.text@),
            ys == path_parts(b.text@),
            total_ordering(part_order()),
            i <= a.parts@.len(),
            i <= b.parts@.len(),
            forall|k: int| 0 <= k < i ==> xs[k] == ys[k],
            path_before(a.text@, b.text@) ==> !path_le(b.text@, a.text@),
            path_before(b.text@, a.text@) ==> !path_le(a.text@, b.text@),
        decreases a.parts@.len() - i,
    {
        assert(xs[i as int] == a.parts@[i as int]@);
        assert(ys[i as int] == b.parts@[i as int]@);
        let order = order_of_parts(&a.parts[i], &b.parts[i]);
        proof {
            lemma_lex_skip(part_order(), xs, ys, i as int);
            lemma_lex_skip(part_order(), ys, xs, i as int);
            assert(xs.skip(i as int)[0] == xs[i as int]);
            assert(ys.skip(i as int)[0] == ys[i as int]);
        }
        match order {
            Order::Same => {},
            _ => {
                return order;
            },
        }
        i += 1;
    }
    proof {
        lemma_lex_skip(part_order(), xs, ys, i as int);
        lemma_lex_skip(part_order(), ys, xs, i as int);
    }
    if i == a.parts.len() && i == b.parts.len() {
        assert(xs =~= ys);
        Order::Same
    } else if i == a.parts.len() {
        Order::Before
    } else {
        Order::After
    }
}

/// The place of a path in an ordered list: behind all that come before it.
fn place_of_path(set: &Vec<SplitPath>, path: &SplitPath) -> (r: usize)
    requires
        all_wf(set@),
        path.wf(),
        in_path_order(split_texts(set@)),
    ensures
        r <= set@.len(),
        forall|i: int| 0 <= i < r ==> path_before(#[trigger] split_texts(set@)[i], path.text@),
        forall|i: int|
            r <= i < set@.len() ==> !path_before(#[trigger] split_texts(set@)[i], path.text@),
{
    let ghost names = split_texts(set@);
    let mut low: usize = 0;
    let mut high: usize = set.len();
    proof {
        lemma_path_order();
    }
    while low < high
        invariant
            low <= high <= set@.len(),
            names == split_texts(set@),
            all_wf(set@),
            path.wf(),
            in_path_order(names),
            forall|a: Seq<char>, b: Seq<char>, c: Seq<char>|
                #[trigger] path_before(a, b) && #[trigger] path_before(b, c) ==> path_before(a, c),
            forall|i: int| 0 <= i < low ==> path_before(#[trigger] names[i], path.text@),
            forall|i: int| high <= i < set@.len() ==> !path_before(#[trigger] names[i], path.text@),
        decreases high - low,
    {
        let middle: usize = low + (high - low) / 2;
        assert(names[middle as int] == set@[middle as int].text@);
        assert(set@[middle as int].wf());
        match order_of_paths(&set[middle], path) {
            Order::Before => {
                assert forall|i: int| 0 <= i < middle + 1 implies path_before(
                    #[trigger] names[i],
                    path.text@,
                ) by {
                    if i < middle {
                        assert(path_before(names[i], names[middle as int]));
                    }
                }
                low = middle + 1;
            },
            _ => {
                assert forall|i: int| middle <= i < set@.len() implies !path_before(
                    #[trigger] names[i],
                    path.text@,
                ) by {
                    if i > middle && path_before(names[i], path.text@) {
                        assert(path_before(names[middle as int], names[i]));
                        assert(path_before(names[middle as int], path.text@));
                    }
                }
                high = middle;
            },
        }
    }
    low
}

/// The paths of a list as an ordered list without repetition.
pub fn ordered_paths(paths: &Vec<String>) -> (r: Vec<String>)
    ensures
        texts(r@) == path_set(texts(paths@)),
{
    let mut set: Vec<SplitPath> = Vec::new();
    let mut i: usize = 0;
    assert(texts(paths@).take(0) =~= Seq::empty());
    assert(split_texts(set@) =~= Seq::empty());
    while i < paths.len()
        invariant
            i <= paths@.len(),
            all_wf(set@),
            in_path_order(split_texts(set@)),
            split_texts(set@) == path_set(texts(paths@).take(i as int)),
        decreases paths@.len() - i,
    {
        let path = SplitPath { text: paths[i].clone(), parts: parts_of(paths[i].as_str()) };
        let ghost before = set@;
        let ghost names = split_texts(before);
        let at = place_of_path(&set, &path);
        proof {
            lemma_with_path_at(names, path.text@, at as int);
            let taken = texts(paths@).take(i + 1);
            assert(taken.drop_last() =~= texts(paths@).take(i as int));
            assert(taken.last() == path.text@);
            lemma_path_order();
        }
        let known = if at < set.len() {
            assert(names[at as int] == set@[at as int].text@);
            order_of_paths(&set[at], &path) == Order::Same
        } else {
            false
        };
        if !known {
            set.insert(at, path);
            assert(split_texts(set@) =~= names.insert(at as int, path.text@));
            assert(all_wf(set@)) by {
                assert forall|k: int| 0 <= k < set@.len() implies (#[trigger] set@[k]).wf() by {
                    if k < at {
                        assert(before[k].wf());
                    } else if k > at {
                        assert(before[k - 1].wf());
                    }
                }
            }
            proof {
                lemma_insert_keeps_order(names, path.text@, at as int);
            }
        }
        i += 1;
    }
    assert(texts(paths@).take(paths@.len() as int) =~= texts(paths@));
    let mut out: Vec<String> = Vec::new();
    let mut k: usize = 0;
    assert(texts(out@) =~= split_texts(set@).take(0));
    while k < set.len()
        invariant
            k <= set@.len(),
            texts(out@) == split_texts(set@).take(k as int),
        decreases set@.len() - k,
    {
        let ghost before = out@;
        out.push(set[k].text.clone());
        assert(texts(out@) =~= split_texts(set@).take(k + 1)) by {
            assert(texts(out@) =~= texts(before).push(set@[k as int].text@));
            assert(split_texts(set@).take(k + 1) =~= split_texts(set@).take(k as int).push(
                set@[k as int].text@,
            ));
        }
        k += 1;
    }
    assert(split_texts(set@).take(set@.len() as int) =~= split_texts(set@));
    out
}

proof fn lemma_insert_keeps_order(set: Seq<Seq<char>>, path: Seq<char>, at: int)
    requires
        0 <= at <= set.len(),
        in_path_order(set),
        forall|i: int| 0 <= i < at ==> path_before(#[trigger] set[i], path),
        forall|i: int| at <= i < set.len() ==> !path_before(#[trigger] set[i], path),
        at < set.len() ==> !same_path(set[at], path),
    ensures
        in_path_order(set.insert(at, path)),
{
    lemma_path_order();
    let new = set.insert(at, path);
    assert forall|i: int, j: int| 0 <= i < j < new.len() implies path_before(
        #[trigger] new[i],
        #[trigger] new[j],
    ) by {
        let i0 = if i < at { i } else { i - 1 };
        let j0 = if j < at { j } else { j - 1 };
        if i != at && j != at {
            assert(path_before(set[i0], set[j0]));
        } else if j == at {
            assert(path_before(set[i0], path));
        } else {
            assert(!path_before(set[at], path));
            assert(path_le(path, set[at]) || path_before(set[at], path));
            assert(path_before(path, set[at]));
            if j0 > at {
                assert(path_before(set[at], set[j0]));
            }
        }
    }
}

/// Whether two lists of parts are the same.
pub fn are_same_parts(a: &Vec<PathPart>, b: &Vec<PathPart>) -> (r: bool)
    ensures
        r == (parts(a@) == parts(b@)),
{
    if a.len() != b.len() {
        assert(parts(a@).len() != parts(b@).len());
        return false;
    }
    let mut i: usize = 0;
    while i < a.len()
        invariant
            i <= a@.len(),
            a@.len() == b@.len(),
            forall|k: int| 0 <= k < i ==> #[trigger] parts(a@)[k] == parts(b@)[k],
        decreases a@.len() - i,
    {
        assert(parts(a@)[i as int] == a@[i as int]@);
        assert(parts(b@)[i as int] == b@[i as int]@);
        if order_of_parts(&a[i], &b[i]) != Order::Same {
            return false;
        }
        i += 1;
    }
    assert(parts(a@) =~= parts(b@));
    true
}

/// Whether two paths are the same.
pub fn is_same_path(a: &str, b: &str) -> (r: bool)
    ensures
        r == same_path(a@, b@),
{
    are_same_parts(&parts_of(a), &parts_of(b))
}

/// Whether a part is the given name.
pub fn is_part_name(part: &PathPart, name: &str) -> (r: bool)
    ensures
        r == (part@ == Part::Normal(name@)),
{
    match part {
        PathPart::Normal(text) => is_text(text.as_str(), name),
        _ => false,
    }
}

/// Whether two lists hold the same paths in the same order.
pub fn are_same_paths(a: &Vec<String>, b: &Vec<String>) -> (r: bool)
    ensures
        r == same_paths(texts(a@), texts(b@)),
{
    if a.len() != b.len() {
        return false;
    }
    let mut i: usize = 0;
    while i < a.len()
        invariant
            i <= a@.len(),
            a@.len() == b@.len(),
            forall|k: int| 0 <= k < i ==> same_path(#[trigger] texts(a@)[k], texts(b@)[k]),
        decreases a@.len() - i,
    {
        assert(texts(a@)[i as int] == a@[i as int]@);
        assert(texts(b@)[i as int] == b@[i as int]@);
        if !is_same_path(a[i].as_str(), b[i].as_str()) {
            return false;
        }
        i += 1;
    }
    true
}

/// The place of a path in an ordered list.
spec fn place(set: Seq<Seq<char>>, path: Seq<char>) -> int
    decreases set.len(),
{
    if set.len() == 0 || !path_before(set[0], path) {
        0
    } else {
        1 + place(set.drop_first(), path)
    }
}

proof fn lemma_place(set: Seq<Seq<char>>, path: Seq<char>)
    requires
        in_path_order(set),
    ensures
        0 <= place(set, path) <= set.len(),
        forall|i: int| 0 <= i < place(set, path) ==> path_before(#[trigger] set[i], path),
        forall|i: int|
            place(set, path) <= i < set.len() ==> !path_before(#[trigger] set[i], path),
    decreases set.len(),
{
    lemma_path_order();
    if set.len() > 0 {
        let rest = set.drop_first();
        assert forall|i: int, j: int| 0 <= i < j < rest.len() implies path_before(
            #[trigger] rest[i],
            #[trigger] rest[j],
        ) by {
            assert(path_before(set[i + 1], set[j + 1]));
        }
        lemma_place(rest, path);
        if path_before(set[0], path) {
            assert forall|i: int| 0 <= i < place(set, path) implies path_before(
                #[trigger] set[i],
                path,
            ) by {
                if i > 0 {
                    assert(path_before(rest[i - 1], path));
                }
            }
            assert forall|i: int| place(set, path) <= i < set.len() implies !path_before(
                #[trigger] set[i],
                path,
            ) by {
                assert(!path_before(rest[i - 1], path));
            }
        } else {
            assert forall|i: int| 0 <= i < set.len() implies !path_before(
                #[trigger] set[i],
                path,
            ) by {
                if i > 0 && path_before(set[i], path) {
                    assert(path_before(set[0], set[i]));
                }
            }
        }
    }
}

/// Adding a path to an ordered list keeps the order and adds that path alone.
proof fn lemma_with_path(set: Seq<Seq<char>>, path: Seq<char>)
    requires
        in_path_order(set),
    ensures
        in_path_order(with_path(set, path)),
        forall|p: Seq<char>| #[trigger]
            has_path(with_path(set, path), p) <==> has_path(set, p) || same_path(path, p),
{
    let at = place(set, path);
    let new = with_path(set, path);
    lemma_place(set, path);
    lemma_with_path_at(set, path, at);
    if at < set.len() && same_path(set[at], path) {
        assert forall|p: Seq<char>| #[trigger] has_path(new, p) <==> has_path(set, p) || same_path(
            path,
            p,
        ) by {
            if same_path(path, p) {
                assert(same_path(set[at], p));
            }
        }
    } else {
        lemma_insert_keeps_order(set, path, at);
        assert forall|p: Seq<char>| #[trigger] has_path(new, p) <==> has_path(set, p) || same_path(
            path,
            p,
        ) by {
            if has_path(new, p) {
                let i = choose|i: int| 0 <= i < new.len() && same_path(#[trigger] new[i], p);
                if i < at {
                    assert(same_path(set[i], p));
                } else if i > at {
                    assert(same_path(set[i - 1], p));
                }
            }
            if has_path(set, p) {
                let i = choose|i: int| 0 <= i < set.len() && same_path(#[trigger] set[i], p);
                if i < at {
                    assert(same_path(new[i], p));
                } else {
                    assert(same_path(new[i + 1], p));
                }
            }
            if same_path(path, p) {
                assert(same_path(new[at], p));
            }
        }
    }
}

/// The set of some paths is in order, and holds exactly those paths.
pub proof fn law_path_set(paths: Seq<Seq<char>>)
    ensures
        in_path_order(path_set(paths)),
        forall|p: Seq<char>| #[trigger] has_path(path_set(paths), p) <==> has_path(paths, p),
    decreases paths.len(),
{
    if paths.len() > 0 {
        let rest = paths.drop_last();
        law_path_set(rest);
        lemma_with_path(path_set(rest), paths.last());
        assert forall|p: Seq<char>| #[trigger] has_path(path_set(paths), p) <==> has_path(
            paths,
            p,
        ) by {
            if has_path(paths, p) {
                let i = choose|i: int| 0 <= i < paths.len() && same_path(#[trigger] paths[i], p);
                if i < rest.len() {
                    assert(same_path(rest[i], p));
                }
            }
            if has_path(rest, p) {
                let i = choose|i: int| 0 <= i < rest.len() && same_path(#[trigger] rest[i], p);
                assert(same_path(paths[i], p));
            }
            if same_path(paths.last(), p) {
                assert(same_path(paths[paths.len() - 1], p));
            }
        }
    }
}

proof fn lemma_ordered_lists_unique(a: Seq<Seq<char>>, b: Seq<Seq<char>>)
    requires
        in_path_order(a),
        in_path_order(b),
        forall|p: Seq<char>| #[trigger] has_path(a, p) <==> has_path(b, p),
    ensures
        same_paths(a, b),
    decreases a.len(),
{
    lemma_path_order();
    if a.len() == 0 {
        if b.len() > 0 {
            assert(same_path(b[0], b[0]));
            assert(has_path(b, b[0]));
            assert(has_path(a, b[0]));
        }
    } else {
        assert(same_path(a[0], a[0]));
        assert(has_path(a, a[0]));
        assert(has_path(b, a[0]));
        let j = choose|j: int| 0 <= j < b.len() && same_path(#[trigger] b[j], a[0]);
        assert(same_path(b[0], b[0]));
        assert(has_path(b, b[0]));
        assert(has_path(a, b[0]));
        let i = choose|i: int| 0 <= i < a.len() && same_path(#[trigger] a[i], b[0]);
        if i > 0 && j > 0 {
            assert(path_before(a[0], a[i]));
            assert(path_before(b[0], b[j]));
            assert(path_before(a[i], a[0]));
        }
        assert(same_path(a[0], b[0]));
        let x = a.drop_first();
        let y = b.drop_first();
        assert forall|m: int, n: int| 0 <= m < n < x.len() implies path_before(
            #[trigger] x[m],
            #[trigger] x[n],
        ) by {
            assert(path_before(a[m + 1], a[n + 1]));
        }
        assert forall|m: int, n: int| 0 <= m < n < y.len() implies path_before(
            #[trigger] y[m],
            #[trigger] y[n],
        ) by {
            assert(path_before(b[m + 1], b[n + 1]));
        }
        assert forall|p: Seq<char>| #[trigger] has_path(x, p) <==> has_path(y, p) by {
            if has_path(x, p) {
                let k = choose|k: int| 0 <= k < x.len() && same_path(#[trigger] x[k], p);
                assert(path_before(a[0], a[k + 1]));
                assert(same_path(a[k + 1], p));
                assert(has_path(a, p));
                assert(has_path(b, p));
                let l = choose|l: int| 0 <= l < b.len() && same_path(#[trigger] b[l], p);
                assert(l > 0);
                assert(same_path(y[l - 1], p));
            }
            if has_path(y, p) {
                let k = choose|k: int| 0 <= k < y.len() && same_path(#[trigger] y[k], p);
                assert(path_before(b[0], b[k + 1]));
                assert(same_path(b[k + 1], p));
                assert(has_path(b, p));
                assert(has_path(a, p));
                let l = choose|l: int| 0 <= l < a.len() && same_path(#[trigger] a[l], p);
                assert(l > 0);
                assert(same_path(x[l - 1], p));
            }
        }
        lemma_ordered_lists_unique(x, y);
        assert forall|k: int| 0 <= k < a.len() implies same_path(#[trigger] a[k], b[k]) by {
            if k > 0 {
                assert(same_path(x[k - 1], y[k - 1]));
            }
        }
    }
}

/// The sets of two lists of paths are the same exactly when each path of one list stands in the
/// other one.
pub proof fn law_same_path_sets(a: Seq<Seq<char>>, b: Seq<Seq<char>>)
    ensures
        same_paths(path_set(a), path_set(b)) <==> forall|p: Seq<char>| #[trigger]
            has_path(a, p) <==> has_path(b, p),
{
    law_path_set(a);
    law_path_set(b);
    let x = path_set(a);
    let y = path_set(b);
    if same_paths(x, y) {
        assert forall|p: Seq<char>| #[trigger] has_path(a, p) <==> has_path(b, p) by {
            assert(has_path(x, p) <==> has_path(a, p));
            assert(has_path(y, p) <==> has_path(b, p));
            if has_path(x, p) {
                let i = choose|i: int| 0 <= i < x.len() && same_path(#[trigger] x[i], p);
                assert(same_path(y[i], p));
            }
            if has_path(y, p) {
                let i = choose|i: int| 0 <= i < y.len() && same_path(#[trigger] y[i], p);
                assert(same_path(x[i], p));
            }
        }
    }
    if forall|p: Seq<char>| #[trigger] has_path(a, p) <==> has_path(b, p) {
        assert forall|p: Seq<char>| #[trigger] has_path(x, p) <==> has_path(y, p) by {
            assert(has_path(x, p) <==> has_path(a, p));
            assert(has_path(a, p) <==> has_path(b, p));
        }
        lemma_ordered_lists_unique(x, y);
    }
}

/// Two paths are the same exactly where they have as many parts, and each part is the same.
pub proof fn law_same_path(a: Seq<char>, b: Seq<char>)
    ensures
        same_path(a, b) <==> path_parts(a).len() == path_parts(b).len() && forall|i: int|
            0 <= i < path_parts(a).len() ==> #[trigger] path_parts(a)[i] == path_parts(b)[i],
{
    if path_parts(a).len() == path_parts(b).len() && forall|i: int|
        0 <= i < path_parts(a).len() ==> #[trigger] path_parts(a)[i] == path_parts(b)[i] {
        assert(path_parts(a) =~= path_parts(b));
    }
}

/// Two lists hold the same paths exactly where they are as long, and the paths at each place are
/// the same.
pub proof fn law_same_paths(a: Seq<Seq<char>>, b: Seq<Seq<char>>)
    ensures
        same_paths(a, b) <==> a.len() == b.len() && forall|i: int|
            0 <= i < a.len() ==> path_parts(#[trigger] a[i]) == path_parts(b[i]),
{
    if a.len() == b.len() && forall|i: int|
        0 <= i < a.len() ==> path_parts(#[trigger] a[i]) == path_parts(b[i]) {
        assert forall|i: int| 0 <= i < a.len() implies same_path(#[trigger] a[i], b[i]) by {}
    }
    if same_paths(a, b) {
        assert forall|i: int| 0 <= i < a.len() implies path_parts(#[trigger] a[i]) == path_parts(
            b[i],
        ) by {
            assert(same_path(a[i], b[i]));
        }
    }
}

/// The first part in which two paths differ decides their order: prefixes come before the root, the
/// root before `.`, that before `..`, and that before names; prefixes and names go by their texts.
pub proof fn law_first_part_decides(a: Seq<char>, b: Seq<char>, i: int)
    requires
        0 <= i < path_parts(a).len(),
        i < path_parts(b).len(),
        forall|k: int| 0 <= k < i ==> path_parts(a)[k] == path_parts(b)[k],
        match (path_parts(a)[i], path_parts(b)[i]) {
            (Part::Prefix(x), Part::Prefix(y)) => x != y && text_le(x, y),
            (Part::Prefix(_), _) => true,
            (Part::RootDir, q) => !(q is Prefix) && !(q is RootDir),
            (Part::CurDir, q) => q is ParentDir || q is Normal,
            (Part::ParentDir, q) => q is Normal,
            (Part::Normal(x), Part::Normal(y)) => x != y && text_le(x, y),
            _ => false,
        },
    ensures
        path_before(a, b),
        !path_le(b, a),
{
    lemma_path_order();
    let x = path_parts(a);
    let y = path_parts(b);
    lemma_lex_skip(part_order(), x, y, i);
    assert(x.skip(i)[0] == x[i]);
    assert(y.skip(i)[0] == y[i]);
    assert(x[i] != y[i]);
    assert(path_le(a, b));
    assert(path_before(a, b));
}

/// What is inside a directory comes behind the directory.
pub proof fn law_inside_comes_later(a: Seq<char>, b: Seq<char>)
    requires
        path_parts(a).is_prefix_of(path_parts(b)),
        path_parts(a).len() < path_parts(b).len(),
    ensures
        path_before(a, b),
        !path_le(b, a),
{
    lemma_path_order();
    let x = path_parts(a);
    let y = path_parts(b);
    assert forall|k: int| 0 <= k < x.len() implies x[k] == y[k] by {
        assert(y.subrange(0, x.len() as int)[k] == y[k]);
    }
    lemma_lex_skip(part_order(), x, y, x.len() as int);
    lemma_lex_skip(part_order(), y, x, x.len() as int);
}

/// The last part of a path tells its name and whether it has a parent.
pub proof fn law_last_part(parts: Seq<Part>, last: Part)
    ensures
        last_name(parts.push(last)) == match last {
            Part::Normal(name) => Some(name),
            _ => None,
        },
        has_parent(parts.push(last)) <==> last is CurDir || last is ParentDir || last is Normal,
        last_name(Seq::empty()) is None,
        !has_parent(Seq::empty()),
{
    assert(parts.push(last).last() == last);
}

/// What a part stands for is a part of the same kind, with the same text.
pub proof fn law_part_view(part: PathPart, v: Seq<PathPart>)
    ensures
        part matches PathPart::Prefix(text) ==> part@ == Part::Prefix(text@),
        part is RootDir ==> part@ is RootDir,
        part is CurDir ==> part@ is CurDir,
        part is ParentDir ==> part@ is ParentDir,
        part matches PathPart::Normal(text) ==> part@ == Part::Normal(text@),
        parts(v).len() == v.len(),
        forall|i: int| 0 <= i < v.len() ==> #[trigger] parts(v)[i] == v[i]@,
{
}

} // verus!
