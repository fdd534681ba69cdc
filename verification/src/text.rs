//! Reading and building texts.

use vstd::prelude::*;
use vstd::string::*;
use vstd::utf8::*;

use crate::order::{order_of, texts, Order};

verus! {

/// `char::is_whitespace` is true exactly of the characters with the Unicode property White_Space.
pub assume_specification[ char::is_whitespace ](c: char) -> (r: bool)
    ensures
        r == is_white_space(c),
;

/// `String::push` appends the character to the end of the string.
pub assume_specification[ String::push ](s: &mut String, c: char)
    ensures
        final(s)@ == old(s)@.push(c),
;

/// `std::str::from_utf8` accepts exactly the valid UTF-8 byte strings, and decodes them.
#[verifier::external_body]
pub(crate) fn text_of_utf8(bytes: &Vec<u8>) -> (r: Option<String>)
    ensures
        r is Some <==> valid_utf8(bytes@),
        r is Some ==> r->0@ == decode_utf8(bytes@),
{
    match std::str::from_utf8(bytes) {
        Ok(s) => Some(s.to_string()),
        Err(_) => None,
    }
}

/// The characters with the Unicode property White_Space.
pub open spec fn is_white_space(c: char) -> bool {
    let u = c as u32;
    ||| 0x9 <= u <= 0xd
    ||| u == 0x20
    ||| u == 0x85
    ||| u == 0xa0
    ||| u == 0x1680
    ||| 0x2000 <= u <= 0x200a
    ||| u == 0x2028
    ||| u == 0x2029
    ||| u == 0x202f
    ||| u == 0x205f
    ||| u == 0x3000
}

/// A text is blank when it holds nothing but white space.
pub open spec fn is_blank_text(s: Seq<char>) -> bool {
    forall|i: int| 0 <= i < s.len() ==> is_white_space(#[trigger] s[i])
}

/// `needle` stands somewhere in `hay`.
pub open spec fn has_text(hay: Seq<char>, needle: Seq<char>) -> bool {
    exists|i: int| stands_at(hay, needle, i)
}

/// `needle` stands in `hay` at position `i`.
pub open spec fn stands_at(hay: Seq<char>, needle: Seq<char>, i: int) -> bool {
    &&& 0 <= i
    &&& i + needle.len() <= hay.len()
    &&& hay.subrange(i, i + needle.len()) == needle
}

/// The last digit of a number.
pub open spec fn digit(n: nat) -> char {
    seq!['0', '1', '2', '3', '4', '5', '6', '7', '8', '9'][(n % 10) as int]
}

/// A number in decimal notation.
pub open spec fn decimal(n: nat) -> Seq<char>
    decreases n,
{
    if n < 10 {
        seq![digit(n)]
    } else {
        decimal(n / 10).push(digit(n))
    }
}

/// The lines of a text that are ended by a line feed, and what stands behind the last of them.
pub open spec fn split_lines(s: Seq<char>) -> (Seq<Seq<char>>, Seq<char>)
    decreases s.len(),
{
    if s.len() == 0 {
        (Seq::empty(), Seq::empty())
    } else {
        let (ended, rest) = split_lines(s.drop_last());
        if s.last() == '\n' {
            (ended.push(without_return(rest)), Seq::empty())
        } else {
            (ended, rest.push(s.last()))
        }
    }
}

/// A line without the carriage return at its end, if it has one there.
pub open spec fn without_return(line: Seq<char>) -> Seq<char> {
    if line.len() > 0 && line.last() == '\r' {
        line.drop_last()
    } else {
        line
    }
}

/// The lines of a text. A line ends with a line feed or with a carriage return and a line feed;
/// the end of the last line is optional.
pub open spec fn lines_of(s: Seq<char>) -> Seq<Seq<char>> {
    let (ended, rest) = split_lines(s);
    if rest.len() == 0 {
        ended
    } else {
        ended.push(rest)
    }
}

/// The characters of a text.
pub fn chars_of(s: &str) -> (r: Vec<char>)
    ensures
        r@ == s@,
{
    let mut out: Vec<char> = Vec::new();
    for c in it: s.chars()
        invariant
            out@ == it.seq().take(it.index()),
            it.seq() == s@,
    {
        out.push(c);
        assert(it.seq().take(it.index() + 1) =~= it.seq().take(it.index()).push(c));
    }
    assert(s@.take(s@.len() as int) =~= s@);
    out
}

/// Whether a text holds nothing but white space.
pub fn is_blank(s: &str) -> (r: bool)
    ensures
        r == is_blank_text(s@),
{
    let chars = chars_of(s);
    let mut i: usize = 0;
    while i < chars.len()
        invariant
            i <= chars@.len(),
            chars@ == s@,
            forall|k: int| 0 <= k < i ==> is_white_space(#[trigger] s@[k]),
        decreases chars@.len() - i,
    {
        if !chars[i].is_whitespace() {
            assert(!is_white_space(s@[i as int]));
            return false;
        }
        i += 1;
    }
    true
}

/// Appends a number in decimal notation.
pub fn push_decimal(out: &mut String, n: u64)
    ensures
        final(out)@ == old(out)@ + decimal(n as nat),
    decreases n,
{
    let ghost before = out@;
    if n >= 10 {
        push_decimal(out, n / 10);
    }
    let c = match n % 10 {
        0 => '0',
        1 => '1',
        2 => '2',
        3 => '3',
        4 => '4',
        5 => '5',
        6 => '6',
        7 => '7',
        8 => '8',
        _ => '9',
    };
    out.push(c);
    assert(out@ =~= before + decimal(n as nat));
}

/// The text that the characters make.
fn text_of(chars: &Vec<char>, end: usize) -> (r: String)
    requires
        end <= chars@.len(),
    ensures
        r@ == chars@.take(end as int),
{
    let mut out = String::new();
    let mut i: usize = 0;
    while i < end
        invariant
            i <= end <= chars@.len(),
            out@ == chars@.take(i as int),
        decreases end - i,
    {
        out.push(chars[i]);
        i += 1;
        assert(chars@.take(i as int) =~= chars@.take(i - 1).push(chars@[i - 1]));
    }
    out
}

/// The lines of a text.
pub fn lines(s: &str) -> (r: Vec<String>)
    ensures
        texts(r@) == lines_of(s@),
{
    let chars = chars_of(s);
    let mut out: Vec<String> = Vec::new();
    let mut rest: Vec<char> = Vec::new();
    let mut i: usize = 0;
    assert(s@.take(0) =~= Seq::empty());
    assert(texts(out@) =~= Seq::empty());
    while i < chars.len()
        invariant
            i <= chars@.len(),
            chars@ == s@,
            split_lines(s@.take(i as int)) == (texts(out@), rest@),
        decreases chars@.len() - i,
    {
        let ghost before = out@;
        let c = chars[i];
        proof {
            assert(s@.take(i + 1).drop_last() =~= s@.take(i as int));
            assert(s@.take(i + 1).last() == c);
        }
        if c == '\n' {
            let end: usize = if rest.len() > 0 && rest[rest.len() - 1] == '\r' {
                rest.len() - 1
            } else {
                rest.len()
            };
            let line = text_of(&rest, end);
            assert(line@ =~= without_return(rest@));
            out.push(line);
            assert(texts(out@) =~= texts(before).push(line@));
            rest = Vec::new();
            assert(rest@ =~= Seq::empty());
        } else {
            rest.push(c);
        }
        i += 1;
    }
    assert(s@.take(s@.len() as int) =~= s@);
    if rest.len() > 0 {
        let ghost before = out@;
        let line = text_of(&rest, rest.len());
        assert(line@ =~= rest@);
        out.push(line);
        assert(texts(out@) =~= texts(before).push(line@));
    }
    out
}

/// The content of an optional string.
pub open spec fn opt_text(s: Option<String>) -> Option<Seq<char>> {
    match s {
        Some(s) => Some(s@),
        None => None,
    }
}

/// What an optional text stands for.
pub open spec fn opt_str(text: Option<&str>) -> Option<Seq<char>> {
    match text {
        Some(text) => Some(text@),
        None => None,
    }
}

/// An optional string as an optional text.
pub(crate) fn as_opt_str(text: &Option<String>) -> (r: Option<&str>)
    ensures
        opt_str(r) == opt_text(*text),
{
    match text {
        Some(text) => Some(text.as_str()),
        None => None,
    }
}

/// A copy of a list of strings.
pub(crate) fn clone_texts(list: &Vec<String>) -> (r: Vec<String>)
    ensures
        texts(r@) == texts(list@),
{
    let out = list.clone();
    assert(texts(out@) =~= texts(list@));
    out
}

/// A copy of an optional string.
pub(crate) fn clone_opt(s: &Option<String>) -> (r: Option<String>)
    ensures
        opt_text(r) == opt_text(*s),
{
    match s {
        Some(s) => Some(s.clone()),
        None => None,
    }
}

/// Whether the list has the text.
pub(crate) fn has_entry(list: &Vec<String>, x: &str) -> (r: bool)
    ensures
        r == texts(list@).contains(x@),
{
    let mut i: usize = 0;
    while i < list.len()
        invariant
            i <= list@.len(),
            forall|k: int| 0 <= k < i ==> #[trigger] texts(list@)[k] != x@,
        decreases list@.len() - i,
    {
        assert(texts(list@)[i as int] == list@[i as int]@);
        if is_text(list[i].as_str(), x) {
            return true;
        }
        i += 1;
    }
    false
}

/// Whether two texts are the same.
pub(crate) fn is_text(a: &str, b: &str) -> (r: bool)
    ensures
        r == (a@ == b@),
{
    order_of(a, b) == Order::Same
}

/// The number that digits stand for, the last of them being the units.
pub open spec fn digits_value(digits: Seq<char>) -> int
    decreases digits.len(),
{
    if digits.len() == 0 {
        0
    } else {
        digits_value(digits.drop_last()) * 10 + (digits.last() as int - '0' as int)
    }
}

/// A number in decimal notation is made of digits that stand for that number, without a zero in
/// front of other digits.
pub proof fn law_decimal(n: nat)
    ensures
        decimal(n).len() > 0,
        forall|i: int| 0 <= i < decimal(n).len() ==> '0' <= #[trigger] decimal(n)[i] <= '9',
        digits_value(decimal(n)) == n,
        decimal(n)[0] == '0' ==> n == 0 && decimal(n).len() == 1,
    decreases n,
{
    reveal_with_fuel(digits_value, 2);
    assert('0' <= digit(n) <= '9' && digit(n) as int - '0' as int == n % 10);
    if n < 10 {
        assert(decimal(n).drop_last() =~= Seq::empty());
    } else {
        law_decimal(n / 10);
        let head = decimal(n / 10);
        assert(decimal(n).drop_last() =~= head);
        assert(decimal(n).last() == digit(n));
        assert(decimal(n)[0] == head[0]);
        assert forall|i: int| 0 <= i < decimal(n).len() implies '0' <= #[trigger] decimal(n)[i]
            <= '9' by {
            if i < head.len() {
                assert(decimal(n)[i] == head[i]);
            }
        }
    }
}

/// A text is blank exactly where it holds no character that is not white space. So two texts make a
/// blank one together exactly where both are blank.
pub proof fn law_blank(a: Seq<char>, b: Seq<char>)
    ensures
        is_blank_text(a) <==> !(exists|c: char| #[trigger] a.contains(c) && !is_white_space(c)),
        is_blank_text(a + b) <==> is_blank_text(a) && is_blank_text(b),
        is_blank_text(Seq::empty()),
{
    if is_blank_text(a) {
        assert forall|c: char| #[trigger] a.contains(c) implies is_white_space(c) by {
            let i = a.index_of(c);
            assert(is_white_space(a[i]));
        }
    } else {
        let i = choose|i: int| 0 <= i < a.len() && !is_white_space(#[trigger] a[i]);
        assert(a.contains(a[i]));
    }
    if is_blank_text(a + b) {
        assert forall|i: int| 0 <= i < a.len() implies is_white_space(#[trigger] a[i]) by {
            assert(is_white_space((a + b)[i]));
        }
        assert forall|i: int| 0 <= i < b.len() implies is_white_space(#[trigger] b[i]) by {
            assert(is_white_space((a + b)[i + a.len()]));
        }
    }
}

/// A text stands in another one exactly where that is put together of something, the text, and
/// something else.
pub proof fn law_has_text(hay: Seq<char>, needle: Seq<char>, before: Seq<char>, behind: Seq<char>)
    ensures
        has_text(before + needle + behind, needle),
        has_text(hay, needle) ==> exists|x: Seq<char>, y: Seq<char>|
            hay == #[trigger] (x + needle + y),
{
    let whole = before + needle + behind;
    assert(whole.subrange(before.len() as int, (before.len() + needle.len()) as int) =~= needle);
    assert(stands_at(whole, needle, before.len() as int));
    if has_text(hay, needle) {
        let i = choose|i: int| stands_at(hay, needle, i);
        let x = hay.take(i);
        let y = hay.skip(i + needle.len());
        assert(hay =~= x + needle + y) by {
            assert forall|k: int| 0 <= k < hay.len() implies hay[k] == (x + needle + y)[k] by {
                if i <= k < i + needle.len() {
                    assert(hay.subrange(i, i + needle.len())[k - i] == needle[k - i]);
                }
            }
        }
    }
}

/// What stands in a text stands in any text that it is a part of.
pub proof fn law_within(
    text: Seq<char>,
    needle: Seq<char>,
    before: Seq<char>,
    behind: Seq<char>,
)
    requires
        has_text(text, needle),
    ensures
        has_text(before + text + behind, needle),
{
    let i = choose|i: int| stands_at(text, needle, i);
    let whole = before + text + behind;
    let at = before.len() + i;
    assert(whole.subrange(at, at + needle.len()) =~= text.subrange(i, i + needle.len()));
    assert(stands_at(whole, needle, at));
}

proof fn lemma_split_one(line: Seq<char>)
    requires
        !line.contains('\n'),
    ensures
        split_lines(line) == (Seq::<Seq<char>>::empty(), line),
    decreases line.len(),
{
    if line.len() > 0 {
        let rest = line.drop_last();
        assert(line[line.len() - 1] == line.last());
        assert(!rest.contains('\n')) by {
            if rest.contains('\n') {
                let i = rest.index_of('\n');
                assert(line[i] == '\n');
            }
        }
        lemma_split_one(rest);
        assert(rest.push(line.last()) =~= line);
    }
}

proof fn lemma_split_first(line: Seq<char>, rest: Seq<char>)
    requires
        !line.contains('\n'),
    ensures
        split_lines(line + seq!['\n'] + rest) == (
            seq![without_return(line)] + split_lines(rest).0,
            split_lines(rest).1,
        ),
    decreases rest.len(),
{
    let whole = line + seq!['\n'] + rest;
    let first = seq![without_return(line)];
    if rest.len() == 0 {
        lemma_split_one(line);
        assert(whole.drop_last() =~= line);
        assert(Seq::<Seq<char>>::empty().push(without_return(line)) =~= first + split_lines(rest).0);
    } else {
        lemma_split_first(line, rest.drop_last());
        assert(whole.drop_last() =~= line + seq!['\n'] + rest.drop_last());
        assert(whole.last() == rest.last());
        let (ended, open) = split_lines(rest.drop_last());
        if rest.last() == '\n' {
            assert((first + ended).push(without_return(open)) =~= first + ended.push(
                without_return(open),
            ));
        }
    }
}

/// The lines of a text: what stands before the first line feed is the first line, without a
/// carriage return at its end, and the other lines are those of what stands behind it. Without a
/// line feed the whole text is a line, unless it is empty.
pub proof fn law_lines(line: Seq<char>, rest: Seq<char>)
    requires
        !line.contains('\n'),
    ensures
        lines_of(line + seq!['\n'] + rest) == seq![
            if line.len() > 0 && line.last() == '\r' {
                line.drop_last()
            } else {
                line
            },
        ] + lines_of(rest),
        line.len() > 0 ==> lines_of(line) == seq![line],
        lines_of(Seq::empty()) == Seq::<Seq<char>>::empty(),
{
    lemma_split_first(line, rest);
    lemma_split_one(line);
    let first = seq![without_return(line)];
    let (ended, open) = split_lines(rest);
    assert((first + ended).push(open) =~= first + ended.push(open));
    assert(Seq::<Seq<char>>::empty().push(line) =~= seq![line]);
}

/// The characters that are white space, one by one.
pub open spec fn white_space() -> Seq<char> {
    seq![
        '\t',
        '\n',
        '\u{b}',
        '\u{c}',
        '\r',
        ' ',
        '\u{85}',
        '\u{a0}',
        '\u{1680}',
        '\u{2000}',
        '\u{2001}',
        '\u{2002}',
        '\u{2003}',
        '\u{2004}',
        '\u{2005}',
        '\u{2006}',
        '\u{2007}',
        '\u{2008}',
        '\u{2009}',
        '\u{200a}',
        '\u{2028}',
        '\u{2029}',
        '\u{202f}',
        '\u{205f}',
        '\u{3000}',
    ]
}

/// A character is white space exactly where it is one of those.
pub proof fn law_white_space(c: char)
    ensures
        is_white_space(c) <==> white_space().contains(c),
{
    let all = white_space();
    assert(all[0] == '\t');
    assert(all[1] == '\n');
    assert(all[2] == '\u{b}');
    assert(all[3] == '\u{c}');
    assert(all[4] == '\r');
    assert(all[5] == ' ');
    assert(all[6] == '\u{85}');
    assert(all[7] == '\u{a0}');
    assert(all[8] == '\u{1680}');
    assert(all[9] == '\u{2000}');
    assert(all[10] == '\u{2001}');
    assert(all[11] == '\u{2002}');
    assert(all[12] == '\u{2003}');
    assert(all[13] == '\u{2004}');
    assert(all[14] == '\u{2005}');
    assert(all[15] == '\u{2006}');
    assert(all[16] == '\u{2007}');
    assert(all[17] == '\u{2008}');
    assert(all[18] == '\u{2009}');
    assert(all[19] == '\u{200a}');
    assert(all[20] == '\u{2028}');
    assert(all[21] == '\u{2029}');
    assert(all[22] == '\u{202f}');
    assert(all[23] == '\u{205f}');
    assert(all[24] == '\u{3000}');
    if all.contains(c) {
        let i = all.index_of(c);
        assert(all[i] == c);
    }
}

/// An optional text is there exactly where the string is, and has its characters.
pub proof fn law_optional_text(s: Option<String>, t: Option<&str>)
    ensures
        opt_text(s) is Some <==> s is Some,
        s is Some ==> opt_text(s)->0 == s->0@,
        opt_str(t) is Some <==> t is Some,
        t is Some ==> opt_str(t)->0 == t->0@,
{
}

} // verus!
