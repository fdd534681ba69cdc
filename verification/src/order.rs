//! The order of texts, and sorting by it.

use vstd::prelude::*;
use vstd::relations::*;
use vstd::seq_lib::*;
use vstd::utf8::*;

verus! {

/// How two values are ordered.
#[derive(Debug, Clone, Copy, PartialEq, Eq, Structural)]
pub enum Order {
    /// The first one comes first.
    Before,
    /// The two are equal.
    Same,
    /// The second one comes first.
    After,
}

/// `a` comes before `b`, or is equal to it, in the lexicographic order that `le` gives.
pub open spec fn lex_le<A>(le: spec_fn(A, A) -> bool, a: Seq<A>, b: Seq<A>) -> bool
    decreases a.len(),
{
    if a.len() == 0 {
        true
    } else if b.len() == 0 {
        false
    } else if a[0] == b[0] {
        lex_le(le, a.drop_first(), b.drop_first())
    } else {
        le(a[0], b[0])
    }
}

/// The order of bytes.
pub open spec fn byte_order() -> spec_fn(u8, u8) -> bool {
    |x: u8, y: u8| x <= y
}

/// `a` comes before `b`, or is equal to it: texts are ordered by the bytes of their UTF-8 form.
pub open spec fn text_le(a: Seq<char>, b: Seq<char>) -> bool {
    lex_le(byte_order(), encode_utf8(a), encode_utf8(b))
}

/// The order of texts, as a relation.
pub open spec fn text_order() -> spec_fn(Seq<char>, Seq<char>) -> bool {
    |a: Seq<char>, b: Seq<char>| text_le(a, b)
}

/// The texts of `s` in their order.
pub open spec fn sorted_texts(s: Seq<Seq<char>>) -> Seq<Seq<char>> {
    s.sort_by(text_order())
}

/// The contents of a list of strings.
pub open spec fn texts(v: Seq<String>) -> Seq<Seq<char>> {
    v.map_values(|s: String| s@)
}

proof fn lemma_lex_reflexive<A>(le: spec_fn(A, A) -> bool, a: Seq<A>)
    ensures
        lex_le(le, a, a),
    decreases a.len(),
{
    if a.len() > 0 {
        lemma_lex_reflexive(le, a.drop_first());
    }
}

proof fn lemma_lex_antisymmetric<A>(le: spec_fn(A, A) -> bool, a: Seq<A>, b: Seq<A>)
    requires
        total_ordering(le),
        lex_le(le, a, b),
        lex_le(le, b, a),
    ensures
        a == b,
    decreases a.len(),
{
    if a.len() > 0 && b.len() > 0 {
        if a[0] == b[0] {
            lemma_lex_antisymmetric(le, a.drop_first(), b.drop_first());
            assert(a =~= seq![a[0]] + a.drop_first());
            assert(b =~= seq![b[0]] + b.drop_first());
        } else {
            assert(le(a[0], b[0]) && le(b[0], a[0]));
        }
    } else {
        assert(a =~= b);
    }
}

proof fn lemma_lex_transitive<A>(le: spec_fn(A, A) -> bool, a: Seq<A>, b: Seq<A>, c: Seq<A>)
    requires
        total_ordering(le),
        lex_le(le, a, b),
        lex_le(le, b, c),
    ensures
        lex_le(le, a, c),
    decreases a.len(),
{
    if a.len() > 0 {
        if a[0] == b[0] && b[0] == c[0] {
            lemma_lex_transitive(le, a.drop_first(), b.drop_first(), c.drop_first());
        } else if a[0] != b[0] && b[0] != c[0] {
            assert(le(a[0], b[0]) && le(b[0], c[0]));
            assert(le(a[0], c[0]));
            if a[0] == c[0] {
                assert(le(b[0], a[0]));
            }
        }
    }
}

proof fn lemma_lex_total<A>(le: spec_fn(A, A) -> bool, a: Seq<A>, b: Seq<A>)
    requires
        total_ordering(le),
    ensures
        lex_le(le, a, b) || lex_le(le, b, a),
    decreases a.len(),
{
    if a.len() > 0 && b.len() > 0 {
        if a[0] == b[0] {
            lemma_lex_total(le, a.drop_first(), b.drop_first());
        } else {
            assert(le(a[0], b[0]) || le(b[0], a[0]));
        }
    }
}

/// A lexicographic order is a total order where the order of the elements is one.
pub proof fn lemma_lex_order<A>(le: spec_fn(A, A) -> bool)
    requires
        total_ordering(le),
    ensures
        total_ordering(|a: Seq<A>, b: Seq<A>| lex_le(le, a, b)),
{
    assert forall|a: Seq<A>| #[trigger] lex_le(le, a, a) by {
        lemma_lex_reflexive(le, a);
    }
    assert forall|a: Seq<A>, b: Seq<A>|
        #[trigger] lex_le(le, a, b) && #[trigger] lex_le(le, b, a) implies a == b by {
        lemma_lex_antisymmetric(le, a, b);
    }
    assert forall|a: Seq<A>, b: Seq<A>, c: Seq<A>|
        #[trigger] lex_le(le, a, b) && #[trigger] lex_le(le, b, c) implies lex_le(le, a, c) by {
        lemma_lex_transitive(le, a, b, c);
    }
    assert forall|a: Seq<A>, b: Seq<A>|
        #[trigger] lex_le(le, a, b) || #[trigger] lex_le(le, b, a) by {
        lemma_lex_total(le, a, b);
    }
}

/// The order of texts is a total order.
pub proof fn lemma_text_order()
    ensures
        total_ordering(text_order()),
{
    let le = text_order();
    assert(total_ordering(byte_order()));
    assert forall|a: Seq<char>| #[trigger] le(a, a) by {
        lemma_lex_reflexive(byte_order(), encode_utf8(a));
    }
    assert forall|a: Seq<char>, b: Seq<char>|
        #[trigger] le(a, b) && #[trigger] le(b, a) implies a == b by {
        lemma_lex_antisymmetric(byte_order(), encode_utf8(a), encode_utf8(b));
        encode_utf8_decode_utf8(a);
        encode_utf8_decode_utf8(b);
    }
    assert forall|a: Seq<char>, b: Seq<char>, c: Seq<char>|
        #[trigger] le(a, b) && #[trigger] le(b, c) implies le(a, c) by {
        lemma_lex_transitive(byte_order(), encode_utf8(a), encode_utf8(b), encode_utf8(c));
    }
    assert forall|a: Seq<char>, b: Seq<char>| #[trigger] le(a, b) || #[trigger] le(b, a) by {
        lemma_lex_total(byte_order(), encode_utf8(a), encode_utf8(b));
    }
}

/// Dropping a common prefix does not change how two sequences are ordered.
pub(crate) proof fn lemma_lex_skip<A>(le: spec_fn(A, A) -> bool, a: Seq<A>, b: Seq<A>, n: int)
    requires
        0 <= n <= a.len(),
        n <= b.len(),
        forall|i: int| 0 <= i < n ==> a[i] == b[i],
    ensures
        lex_le(le, a, b) == lex_le(le, a.skip(n), b.skip(n)),
    decreases n,
{
    if n == 0 {
        assert(a.skip(0) =~= a);
        assert(b.skip(0) =~= b);
    } else {
        lemma_lex_skip(le, a.drop_first(), b.drop_first(), n - 1);
        assert(a.drop_first().skip(n - 1) =~= a.skip(n));
        assert(b.drop_first().skip(n - 1) =~= b.skip(n));
    }
}

/// How two texts are ordered.
pub fn order_of(a: &str, b: &str) -> (r: Order)
    ensures
        r == Order::Same <==> a@ == b@,
        r == Order::Before <==> text_le(a@, b@) && a@ != b@,
        r == Order::After <==> text_le(b@, a@) && a@ != b@,
{
    let xs = a.as_bytes();
    let ys = b.as_bytes();
    let mut i: usize = 0;
    proof {
        lemma_text_order();
        assert(text_order()(a@, b@) == text_le(a@, b@));
        assert(text_order()(b@, a@) == text_le(b@, a@));
        encode_utf8_decode_utf8(a@);
        encode_utf8_decode_utf8(b@);
    }
    while i < xs.len() && i < ys.len() && xs[i] == ys[i]
        invariant
            i <= xs@.len(),
            i <= ys@.len(),
            forall|k: int| 0 <= k < i ==> xs@[k] == ys@[k],
        decreases xs@.len() - i,
    {
        i += 1;
    }
    proof {
        lemma_lex_skip(byte_order(), xs@, ys@, i as int);
        lemma_lex_skip(byte_order(), ys@, xs@, i as int);
    }
    if i == xs.len() && i == ys.len() {
        assert(xs@ =~= ys@);
        Order::Same
    } else if i == xs.len() {
        Order::Before
    } else if i == ys.len() {
        Order::After
    } else if xs[i] < ys[i] {
        Order::Before
    } else {
        Order::After
    }
}

/// The place at which `x` goes into the sorted list `list`: behind all that are not after it.
pub(crate) fn place_of(list: &Vec<String>, x: &String) -> (r: usize)
    requires
        sorted_by(texts(list@), text_order()),
    ensures
        r <= list@.len(),
        forall|i: int| 0 <= i < r ==> text_le(#[trigger] texts(list@)[i], x@),
        forall|i: int|
            r <= i < list@.len() ==> text_le(x@, #[trigger] texts(list@)[i]) && texts(list@)[i]
                != x@,
{
    let mut low: usize = 0;
    let mut high: usize = list.len();
    proof {
        lemma_text_order();
    }
    while low < high
        invariant
            low <= high <= list@.len(),
            total_ordering(text_order()),
            sorted_by(texts(list@), text_order()),
            forall|i: int| 0 <= i < low ==> text_le(#[trigger] texts(list@)[i], x@),
            forall|i: int|
                high <= i < list@.len() ==> text_le(x@, #[trigger] texts(list@)[i]) && texts(
                    list@,
                )[i] != x@,
        decreases high - low,
    {
        let middle: usize = low + (high - low) / 2;
        let ghost le = text_order();
        let ghost at = texts(list@)[middle as int];
        assert(at == list@[middle as int]@);
        assert forall|i: int| 0 <= i < middle implies le(#[trigger] texts(list@)[i], at) by {}
        assert forall|i: int| middle < i < list@.len() implies le(at, #[trigger] texts(list@)[i]) by {}
        assert(le(at, x@) || le(x@, at));
        match order_of(list[middle].as_str(), x.as_str()) {
            Order::After => {
                assert(le(x@, at));
                assert forall|i: int| middle <= i < list@.len() implies text_le(
                    x@,
                    #[trigger] texts(list@)[i],
                ) && texts(list@)[i] != x@ by {
                    assert(le(at, at));
                    assert(le(at, texts(list@)[i]));
                    assert(le(x@, texts(list@)[i]));
                }
                high = middle;
            },
            _ => {
                assert(le(at, at));
                assert(le(at, x@));
                assert forall|i: int| 0 <= i < middle + 1 implies text_le(
                    #[trigger] texts(list@)[i],
                    x@,
                ) by {
                    assert(le(texts(list@)[i], x@));
                }
                low = middle + 1;
            },
        }
    }
    low
}

/// The texts of `list` in their order.
pub fn sort_texts(list: Vec<String>) -> (r: Vec<String>)
    ensures
        texts(r@) == sorted_texts(texts(list@)),
{
    let mut rest = list;
    let mut out: Vec<String> = Vec::new();
    proof {
        lemma_text_order();
        broadcast use group_to_multiset_ensures;
        assert(texts(out@).to_multiset() =~= vstd::multiset::Multiset::<Seq<char>>::empty());
    }
    while rest.len() > 0
        invariant
            total_ordering(text_order()),
            sorted_by(texts(out@), text_order()),
            texts(out@).to_multiset().add(texts(rest@).to_multiset()) == texts(list@).to_multiset(),
        decreases rest@.len(),
    {
        let ghost before = out@;
        let ghost left = rest@;
        if let Some(x) = rest.pop() {
            let ghost le = text_order();
            let at = place_of(&out, &x);
            out.insert(at, x);
            proof {
                broadcast use group_to_multiset_ensures;
                assert(texts(left) =~= texts(rest@).push(x@));
                assert(texts(out@) =~= texts(before).insert(at as int, x@));
                assert(texts(out@).to_multiset() =~= texts(before).to_multiset().insert(x@));
                assert(texts(out@).to_multiset().add(texts(rest@).to_multiset())
                    =~= texts(before).to_multiset().add(texts(left).to_multiset()));
                assert forall|i: int, j: int| 0 <= i < j < out@.len() implies #[trigger] le(
                    texts(out@)[i],
                    texts(out@)[j],
                ) by {
                    let i0 = if i < at { i } else { i - 1 };
                    let j0 = if j < at { j } else { j - 1 };
                    if i != at && j != at {
                        assert(le(texts(before)[i0], texts(before)[j0]));
                    } else if i == at {
                        assert(text_le(x@, texts(before)[j0]));
                    } else {
                        assert(text_le(texts(before)[i0], x@));
                    }
                }
            }
        }
    }
    proof {
        broadcast use group_to_multiset_ensures;
        texts(list@).lemma_sort_by_ensures(text_order());
        assert(texts(rest@).to_multiset() =~= vstd::multiset::Multiset::<Seq<char>>::empty());
        assert(texts(out@).to_multiset() =~= texts(list@).to_multiset());
        lemma_sorted_unique(texts(out@), sorted_texts(texts(list@)), text_order());
    }
    out
}

/// Sorting does not depend on the order in which the texts are given.
pub proof fn lemma_sorting_forgets_order(a: Seq<Seq<char>>, b: Seq<Seq<char>>)
    requires
        a.to_multiset() == b.to_multiset(),
    ensures
        sorted_texts(a) == sorted_texts(b),
{
    lemma_text_order();
    a.lemma_sort_by_ensures(text_order());
    b.lemma_sort_by_ensures(text_order());
    lemma_sorted_unique(sorted_texts(a), sorted_texts(b), text_order());
}

/// Texts are ordered by the first byte in which they differ.
pub proof fn law_first_byte_decides(a: Seq<char>, b: Seq<char>, i: int)
    requires
        0 <= i < encode_utf8(a).len(),
        i < encode_utf8(b).len(),
        forall|k: int| 0 <= k < i ==> encode_utf8(a)[k] == encode_utf8(b)[k],
        encode_utf8(a)[i] < encode_utf8(b)[i],
    ensures
        text_le(a, b),
        !text_le(b, a),
{
    let x = encode_utf8(a);
    let y = encode_utf8(b);
    lemma_lex_skip(byte_order(), x, y, i);
    lemma_lex_skip(byte_order(), y, x, i);
    assert(x.skip(i)[0] == x[i]);
    assert(y.skip(i)[0] == y[i]);
}

/// A text comes before any longer text that begins with it.
pub proof fn law_beginning_comes_first(a: Seq<char>, b: Seq<char>)
    requires
        encode_utf8(a).is_prefix_of(encode_utf8(b)),
        encode_utf8(a).len() < encode_utf8(b).len(),
    ensures
        text_le(a, b),
        !text_le(b, a),
{
    let x = encode_utf8(a);
    let y = encode_utf8(b);
    assert forall|k: int| 0 <= k < x.len() implies x[k] == y[k] by {
        assert(y.subrange(0, x.len() as int)[k] == y[k]);
    }
    lemma_lex_skip(byte_order(), x, y, x.len() as int);
    lemma_lex_skip(byte_order(), y, x, x.len() as int);
}

/// Sorting keeps each text as often as it is there, and puts none before a text that comes first.
pub proof fn law_sorted(s: Seq<Seq<char>>)
    ensures
        sorted_texts(s).to_multiset() == s.to_multiset(),
        sorted_texts(s).len() == s.len(),
        forall|x: Seq<char>| #[trigger] sorted_texts(s).contains(x) <==> s.contains(x),
        forall|i: int, j: int|
            0 <= i < j < sorted_texts(s).len() ==> text_le(
                #[trigger] sorted_texts(s)[i],
                #[trigger] sorted_texts(s)[j],
            ),
{
    broadcast use group_to_multiset_ensures;

    lemma_text_order();
    s.lemma_sort_by_ensures(text_order());
    let t = sorted_texts(s);
    assert(t.to_multiset().len() == t.len());
    assert(s.to_multiset().len() == s.len());
    assert forall|x: Seq<char>| #[trigger] t.contains(x) <==> s.contains(x) by {
        assert(t.contains(x) <==> t.to_multiset().count(x) > 0);
        assert(s.contains(x) <==> s.to_multiset().count(x) > 0);
    }
    assert forall|i: int, j: int| 0 <= i < j < t.len() implies text_le(
        #[trigger] t[i],
        #[trigger] t[j],
    ) by {
        assert(text_order()(t[i], t[j]));
    }
}

/// What a list of strings stands for has each of them at its place.
pub proof fn law_texts(v: Seq<String>)
    ensures
        texts(v).len() == v.len(),
        forall|i: int| 0 <= i < v.len() ==> #[trigger] texts(v)[i] == v[i]@,
{
}

} // verus!
