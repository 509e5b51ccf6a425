//! Texts as characters: searching, replacing and splitting them.
use vstd::prelude::*;
use vstd::string::*;

verus! {

/// The characters of `text`.
pub fn chars_of(text: &str) -> (r: Vec<char>)
    ensures
        r@ == text@,
{
    broadcast use vstd::string::group_string_axioms;

    let mut out: Vec<char> = Vec::new();
    for c in it: text.chars()
        invariant
            it.seq() == text@,
            out@ =~= it.seq().take(it.index()),
    {
        out.push(c);
    }
    assert(out@ =~= text@);
    out
}

/// The texts of `list`.
pub open spec fn texts_of(list: Seq<String>) -> Seq<Seq<char>> {
    Seq::new(list.len(), |i: int| list[i]@)
}

/// Whether two texts are the same.
pub fn same_text(a: &str, b: &str) -> (r: bool)
    ensures
        r == (a@ == b@),
{
    let left = chars_of(a);
    let right = chars_of(b);
    if left.len() != right.len() {
        return false;
    }
    let r = found_at(left.as_slice(), 0, right.as_slice());
    assert(left@.subrange(0, left@.len() as int) =~= left@);
    r
}

/// Whether two lists hold the same texts in the same order.
pub fn same_texts(a: &[String], b: &[String]) -> (r: bool)
    ensures
        r == (texts_of(a@) == texts_of(b@)),
{
    if a.len() != b.len() {
        assert(texts_of(a@).len() != texts_of(b@).len());
        return false;
    }
    let mut i: usize = 0;
    while i < a.len()
        invariant
            0 <= i <= a@.len(),
            a@.len() == b@.len(),
            forall|j: int| 0 <= j < i ==> a@[j]@ == b@[j]@,
        decreases a@.len() - i,
    {
        if !same_text(a[i].as_str(), b[i].as_str()) {
            assert(texts_of(a@)[i as int] != texts_of(b@)[i as int]);
            return false;
        }
        i += 1;
    }
    assert(texts_of(a@) =~= texts_of(b@));
    true
}

/// Whether `needle` stands in `text` at `at`.
pub open spec fn stands_at(text: Seq<char>, at: int, needle: Seq<char>) -> bool {
    0 <= at && at + needle.len() <= text.len() && text.subrange(at, at + needle.len()) == needle
}

/// Whether `needle` stands somewhere in `text`. The empty text stands
/// everywhere.
pub open spec fn has_part(text: Seq<char>, needle: Seq<char>) -> bool {
    exists|at: int| stands_at(text, at, needle)
}

/// Whether `needle` stands in `text` at `at`.
pub fn found_at(text: &[char], at: usize, needle: &[char]) -> (r: bool)
    ensures
        r == stands_at(text@, at as int, needle@),
{
    if needle.len() > text.len() || at > text.len() - needle.len() {
        return false;
    }
    let len: usize = text.len();
    let mut j: usize = 0;
    while j < needle.len()
        invariant
            0 <= j <= needle@.len(),
            len == text@.len(),
            at + needle@.len() <= len,
            forall|k: int| 0 <= k < j ==> text@[at + k] == needle@[k],
        decreases needle@.len() - j,
    {
        if text[at + j] != needle[j] {
            assert(text@.subrange(at as int, at + needle@.len())[j as int] != needle@[j as int]);
            return false;
        }
        j += 1;
    }
    assert(text@.subrange(at as int, at + needle@.len()) =~= needle@);
    true
}

/// Whether `text` holds `needle`.
pub fn contains_text(text: &str, needle: &str) -> (r: bool)
    ensures
        r == has_part(text@, needle@),
{
    let chars = chars_of(text);
    let wanted = chars_of(needle);
    if wanted.len() > chars.len() {
        return false;
    }
    let last: usize = chars.len() - wanted.len();
    let mut at: usize = 0;
    while at < last
        invariant
            last == chars@.len() - wanted@.len(),
            chars@ == text@,
            wanted@ == needle@,
            0 <= at <= last,
            forall|k: int| 0 <= k < at ==> !stands_at(chars@, k, wanted@),
        decreases last - at,
    {
        if found_at(chars.as_slice(), at, wanted.as_slice()) {
            return true;
        }
        at += 1;
    }
    found_at(chars.as_slice(), last, wanted.as_slice())
}

/// Whether `text` begins with `start`.
pub fn starts_with_text(text: &str, start: &str) -> (r: bool)
    ensures
        r == start@.is_prefix_of(text@),
{
    let chars = chars_of(text);
    let wanted = chars_of(start);
    found_at(chars.as_slice(), 0, wanted.as_slice())
}

/// Whether `text` ends with `end`.
pub fn ends_with_text(text: &str, end: &str) -> (r: bool)
    ensures
        r == end@.is_suffix_of(text@),
{
    let chars = chars_of(text);
    let wanted = chars_of(end);
    if wanted.len() > chars.len() {
        return false;
    }
    found_at(chars.as_slice(), chars.len() - wanted.len(), wanted.as_slice())
}

/// `text` with each `from` in it replaced by `to`, read from the left; where
/// one `from` has been replaced the reading goes on behind it. An empty `from`
/// is found nowhere.
pub open spec fn replaced(text: Seq<char>, from: Seq<char>, to: Seq<char>) -> Seq<char>
    decreases text.len(),
{
    if from.len() == 0 || text.len() < from.len() {
        text
    } else if text.take(from.len() as int) == from {
        to + replaced(text.skip(from.len() as int), from, to)
    } else {
        seq![text[0]] + replaced(text.skip(1), from, to)
    }
}

/// Returns `text` with each `from` in it replaced by `to`.
pub fn replace_text(text: &str, from: &str, to: &str) -> (r: String)
    ensures
        r@ == replaced(text@, from@, to@),
{
    let chars = chars_of(text);
    let wanted = chars_of(from);
    let mut out = String::new();
    if wanted.len() == 0 || wanted.len() > chars.len() {
        out.append(text);
        assert(out@ =~= text@);
        return out;
    }
    let mut kept: usize = 0;
    let mut at: usize = 0;
    assert(chars@.skip(0) =~= chars@);
    while at <= chars.len() - wanted.len()
        invariant
            chars@ == text@,
            wanted@ == from@,
            0 < wanted@.len() <= chars@.len(),
            0 <= kept <= at <= chars@.len(),
            replaced(text@, from@, to@) =~= out@ + chars@.subrange(kept as int, at as int)
                + replaced(chars@.skip(at as int), from@, to@),
        decreases chars@.len() - at,
    {
        let ghost rest = chars@.skip(at as int);
        if found_at(chars.as_slice(), at, wanted.as_slice()) {
            assert(rest.take(wanted@.len() as int) =~= chars@.subrange(
                at as int,
                at + wanted@.len(),
            ));
            assert(rest.skip(wanted@.len() as int) =~= chars@.skip(at + wanted@.len()));
            out.append(text.substring_char(kept, at));
            out.append(to);
            at += wanted.len();
            kept = at;
            assert(chars@.subrange(kept as int, at as int) =~= Seq::<char>::empty());
        } else {
            assert(rest.take(wanted@.len() as int) =~= chars@.subrange(
                at as int,
                at + wanted@.len(),
            ));
            assert(rest.skip(1) =~= chars@.skip(at + 1));
            assert(chars@.subrange(kept as int, at as int) + seq![rest[0]] =~= chars@.subrange(
                kept as int,
                at + 1,
            ));
            at += 1;
        }
    }
    assert(chars@.subrange(kept as int, at as int) + chars@.skip(at as int) =~= chars@.subrange(
        kept as int,
        chars@.len() as int,
    ));
    out.append(text.substring_char(kept, chars.len()));
    out
}

/// Each of `list` with `from` replaced by `to`.
pub open spec fn each_replaced(list: Seq<Seq<char>>, from: Seq<char>, to: Seq<char>) -> Seq<
    Seq<char>,
> {
    Seq::new(list.len(), |i: int| replaced(list[i], from, to))
}

/// Returns each of `list` with `from` replaced by `to`.
pub fn replace_in_each(list: &[String], from: &str, to: &str) -> (r: Vec<String>)
    ensures
        texts_of(r@) == each_replaced(texts_of(list@), from@, to@),
{
    let mut out: Vec<String> = Vec::new();
    let mut i: usize = 0;
    while i < list.len()
        invariant
            0 <= i <= list@.len(),
            out@.len() == i,
            forall|j: int| 0 <= j < i ==> out@[j]@ == replaced(list@[j]@, from@, to@),
        decreases list@.len() - i,
    {
        out.push(replace_text(list[i].as_str(), from, to));
        i += 1;
    }
    assert(texts_of(out@) =~= each_replaced(texts_of(list@), from@, to@));
    out
}

/// `text` with each character that `marks` holds replaced by `with`.
pub open spec fn chars_replaced(text: Seq<char>, marks: Seq<char>, with: Seq<char>) -> Seq<char>
    decreases text.len(),
{
    if text.len() == 0 {
        Seq::empty()
    } else {
        chars_replaced(text.drop_last(), marks, with) + if marks.contains(text.last()) {
            with
        } else {
            seq![text.last()]
        }
    }
}

/// Whether `marks` holds `mark`.
pub fn holds_char(marks: &[char], mark: char) -> (r: bool)
    ensures
        r == marks@.contains(mark),
{
    let mut j: usize = 0;
    while j < marks.len()
        invariant
            0 <= j <= marks@.len(),
            forall|k: int| 0 <= k < j ==> marks@[k] != mark,
        decreases marks@.len() - j,
    {
        if marks[j] == mark {
            return true;
        }
        j += 1;
    }
    false
}

/// Returns `text` with each character that `marks` holds replaced by `with`.
pub fn replace_chars(text: &str, marks: &[char], with: &str) -> (r: String)
    ensures
        r@ == chars_replaced(text@, marks@, with@),
{
    let chars = chars_of(text);
    let mut out = String::new();
    let mut kept: usize = 0;
    let mut at: usize = 0;
    assert(chars@.take(0) =~= Seq::<char>::empty());
    while at < chars.len()
        invariant
            chars@ == text@,
            0 <= kept <= at <= chars@.len(),
            chars_replaced(chars@.take(at as int), marks@, with@) =~= out@ + chars@.subrange(
                kept as int,
                at as int,
            ),
        decreases chars@.len() - at,
    {
        assert(chars@.take(at + 1).drop_last() =~= chars@.take(at as int));
        if holds_char(marks, chars[at]) {
            out.append(text.substring_char(kept, at));
            out.append(with);
            at += 1;
            kept = at;
            assert(chars@.subrange(kept as int, at as int) =~= Seq::<char>::empty());
        } else {
            assert(chars@.subrange(kept as int, at as int) + seq![chars@[at as int]]
                =~= chars@.subrange(kept as int, at + 1));
            at += 1;
        }
    }
    assert(chars@.take(at as int) =~= chars@);
    out.append(text.substring_char(kept, at));
    out
}

/// The place of the first `mark` in `text`, or the length of `text` where
/// there is none.
pub open spec fn first_place_of(text: Seq<char>, mark: char) -> int
    decreases text.len(),
{
    if text.len() == 0 {
        0
    } else if text[0] == mark {
        0
    } else {
        1 + first_place_of(text.skip(1), mark)
    }
}

/// What stands in `text` in front of its first `mark`; all of `text` where it
/// holds no `mark`.
pub open spec fn before_first(text: Seq<char>, mark: char) -> Seq<char> {
    text.take(first_place_of(text, mark))
}

/// What stands in `text` behind its first `mark`, if it holds a `mark`.
pub open spec fn after_first(text: Seq<char>, mark: char) -> Option<Seq<char>> {
    if first_place_of(text, mark) < text.len() {
        Some(text.skip(first_place_of(text, mark) + 1))
    } else {
        None
    }
}

/// The place of the first `mark` in `text`, or the length of `text`.
pub fn find_first(text: &[char], mark: char) -> (r: usize)
    ensures
        r == first_place_of(text@, mark),
        r <= text@.len(),
{
    let mut i: usize = 0;
    assert(text@.skip(0) =~= text@);
    while i < text.len()
        invariant
            0 <= i <= text@.len(),
            first_place_of(text@, mark) == i + first_place_of(text@.skip(i as int), mark),
        decreases text@.len() - i,
    {
        if text[i] == mark {
            return i;
        }
        assert(text@.skip(i as int).skip(1) =~= text@.skip(i + 1));
        i += 1;
    }
    i
}

/// Splits `text` at its first `mark`: what stands in front of it, and what
/// stands behind it if there is a `mark`.
pub fn split_at_first<'a>(text: &'a str, mark: char) -> (r: (&'a str, Option<&'a str>))
    ensures
        r.0@ == before_first(text@, mark),
        match r.1 {
            Some(rest) => after_first(text@, mark) == Some(rest@),
            None => after_first(text@, mark) is None,
        },
{
    let chars = chars_of(text);
    let len: usize = chars.len();
    let at = find_first(chars.as_slice(), mark);
    let front = text.substring_char(0, at);
    assert(text@.subrange(0, at as int) =~= text@.take(at as int));
    if at < len {
        let rest = text.substring_char(at + 1, len);
        assert(text@.subrange(at + 1, len as int) =~= text@.skip(at + 1));
        (front, Some(rest))
    } else {
        (front, None)
    }
}

/// The place of the last `mark` in `text`, or -1 where there is none.
pub open spec fn last_place_of(text: Seq<char>, mark: char) -> int
    decreases text.len(),
{
    if text.len() == 0 {
        -1
    } else if text.last() == mark {
        text.len() - 1
    } else {
        last_place_of(text.drop_last(), mark)
    }
}

/// What stands in `text` behind its last `mark`; all of `text` where it holds
/// no `mark`.
pub open spec fn after_last(text: Seq<char>, mark: char) -> Seq<char> {
    text.skip(last_place_of(text, mark) + 1)
}

/// What stands in `text` in front of its last `mark`; nothing where it holds
/// no `mark`.
pub open spec fn before_last(text: Seq<char>, mark: char) -> Seq<char> {
    if last_place_of(text, mark) < 0 {
        Seq::empty()
    } else {
        text.take(last_place_of(text, mark))
    }
}

/// `last_place_of` is -1 or a place in the text, and that place holds the
/// mark.
pub proof fn lemma_last_place_of(text: Seq<char>, mark: char)
    ensures
        -1 <= last_place_of(text, mark) < text.len(),
        last_place_of(text, mark) >= 0 ==> text[last_place_of(text, mark)] == mark,
        forall|i: int| last_place_of(text, mark) < i < text.len() ==> text[i] != mark,
    decreases text.len(),
{
    if text.len() > 0 && text.last() != mark {
        let before = text.drop_last();
        lemma_last_place_of(before, mark);
        assert forall|i: int| last_place_of(text, mark) < i < text.len() implies text[i]
            != mark by {
            if i < before.len() {
                assert(before[i] == text[i]);
            }
        }
    }
}

/// The place of the last `mark` in `text`.
pub fn find_last(text: &[char], mark: char) -> (r: Option<usize>)
    ensures
        match r {
            Some(place) => place == last_place_of(text@, mark) && place < text@.len(),
            None => last_place_of(text@, mark) == -1,
        },
{
    let mut i: usize = text.len();
    assert(text@.take(i as int) =~= text@);
    while i > 0
        invariant
            0 <= i <= text@.len(),
            last_place_of(text@, mark) == last_place_of(text@.take(i as int), mark),
        decreases i,
    {
        if text[i - 1] == mark {
            return Some(i - 1);
        }
        assert(text@.take(i as int).drop_last() =~= text@.take(i - 1));
        i -= 1;
    }
    None
}

/// Returns what stands in `text` behind its last `mark`, or all of `text`
/// where it holds no `mark`.
pub fn text_after_last<'a>(text: &'a str, mark: char) -> (r: &'a str)
    ensures
        r@ == after_last(text@, mark),
{
    let chars = chars_of(text);
    let len: usize = chars.len();
    match find_last(chars.as_slice(), mark) {
        Some(place) => {
            let part = text.substring_char(place + 1, len);
            assert(text@.subrange(place + 1, text@.len() as int) =~= text@.skip(place + 1));
            part
        },
        None => {
            assert(text@.skip(0) =~= text@);
            text
        },
    }
}

/// Returns what stands in `text` in front of its last `mark`, or nothing
/// where it holds no `mark`.
pub fn text_before_last<'a>(text: &'a str, mark: char) -> (r: &'a str)
    ensures
        r@ == before_last(text@, mark),
{
    let chars = chars_of(text);
    match find_last(chars.as_slice(), mark) {
        Some(place) => {
            let part = text.substring_char(0, place);
            assert(text@.subrange(0, place as int) =~= text@.take(place as int));
            part
        },
        None => {
            let part = text.substring_char(0, 0);
            assert(text@.subrange(0, 0) =~= Seq::<char>::empty());
            part
        },
    }
}

/// How often `mark` stands in `text`.
pub open spec fn count_of(text: Seq<char>, mark: char) -> nat
    decreases text.len(),
{
    if text.len() == 0 {
        0
    } else {
        count_of(text.drop_last(), mark) + if text.last() == mark {
            1nat
        } else {
            0nat
        }
    }
}

/// How often `mark` stands in `text`.
pub fn count_char(text: &str, mark: char) -> (r: usize)
    ensures
        r == count_of(text@, mark),
{
    let chars = chars_of(text);
    let mut count: usize = 0;
    let mut i: usize = 0;
    assert(chars@.take(0) =~= Seq::<char>::empty());
    while i < chars.len()
        invariant
            0 <= i <= chars@.len(),
            count <= i,
            count == count_of(chars@.take(i as int), mark),
        decreases chars@.len() - i,
    {
        assert(chars@.take(i + 1).drop_last() =~= chars@.take(i as int));
        if chars[i] == mark {
            count += 1;
        }
        i += 1;
    }
    assert(chars@.take(i as int) =~= chars@);
    count
}

/// Whether `text` holds any of `marks`.
#[verifier::loop_isolation(false)]
pub fn contains_any_char(text: &str, marks: &[char]) -> (r: bool)
    ensures
        r == exists|i: int, j: int|
            0 <= i < text@.len() && 0 <= j < marks@.len() && text@[i] == marks@[j],
{
    let chars = chars_of(text);
    let mut i: usize = 0;
    while i < chars.len()
        invariant
            0 <= i <= chars@.len(),
            forall|a: int, b: int|
                0 <= a < i && 0 <= b < marks@.len() ==> chars@[a] != marks@[b],
        decreases chars@.len() - i,
    {
        let mut j: usize = 0;
        while j < marks.len()
            invariant
                0 <= i < chars@.len(),
                0 <= j <= marks@.len(),
                forall|b: int| 0 <= b < j ==> chars@[i as int] != marks@[b],
            decreases marks@.len() - j,
        {
            if chars[i] == marks[j] {
                return true;
            }
            j += 1;
        }
        i += 1;
    }
    false
}

/// All of `list`, one behind the other.
pub open spec fn joined(list: Seq<Seq<char>>) -> Seq<char>
    decreases list.len(),
{
    if list.len() == 0 {
        Seq::empty()
    } else {
        joined(list.drop_last()) + list.last()
    }
}

/// Returns all of `list`, one behind the other.
pub fn join_texts(list: &[String]) -> (r: String)
    ensures
        r@ == joined(texts_of(list@)),
{
    let mut out = String::new();
    let mut i: usize = 0;
    assert(texts_of(list@).take(0) =~= Seq::<Seq<char>>::empty());
    while i < list.len()
        invariant
            0 <= i <= list@.len(),
            out@ == joined(texts_of(list@).take(i as int)),
        decreases list@.len() - i,
    {
        assert(texts_of(list@).take(i + 1).drop_last() =~= texts_of(list@).take(i as int));
        out.append(list[i].as_str());
        i += 1;
    }
    assert(texts_of(list@).take(i as int) =~= texts_of(list@));
    out
}

/// Appends copies of the texts of `more` to `list`.
pub fn append_texts(list: &mut Vec<String>, more: &[String])
    ensures
        texts_of(final(list)@) == texts_of(old(list)@) + texts_of(more@),
{
    let ghost before = list@;
    let mut i: usize = 0;
    while i < more.len()
        invariant
            0 <= i <= more@.len(),
            list@.len() == before.len() + i,
            forall|j: int| 0 <= j < before.len() ==> list@[j]@ == before[j]@,
            forall|j: int| 0 <= j < i ==> list@[before.len() + j]@ == more@[j]@,
        decreases more@.len() - i,
    {
        list.push(more[i].clone());
        i += 1;
    }
    assert(texts_of(list@) =~= texts_of(before) + texts_of(more@));
}

/// The small letter for a capital letter of the Latin alphabet; any other
/// character as it is.
pub open spec fn lower_char(mark: char) -> char {
    if 'A' <= mark <= 'Z' {
        ((mark as u8) + 32) as char
    } else {
        mark
    }
}

/// `text` with small letters for the capital letters of the Latin alphabet.
pub open spec fn lowered(text: Seq<char>) -> Seq<char> {
    Seq::new(text.len(), |i: int| lower_char(text[i]))
}

/// Returns the small letter `letter` as a text.
fn small_letter(letter: u8) -> (r: &'static str)
    requires
        0x61 <= letter <= 0x7a,
    ensures
        r@ == seq![letter as char],
{
    let letters = "abcdefghijklmnopqrstuvwxyz";
    proof {
        reveal_strlit("abcdefghijklmnopqrstuvwxyz");
    }
    let at: usize = (letter - 0x61) as usize;
    let r = letters.substring_char(at, at + 1);
    assert(r@ =~= seq![letter as char]);
    r
}

/// Returns `text` with small letters for the capital letters of the Latin
/// alphabet.
pub fn lower_text(text: &str) -> (r: String)
    ensures
        r@ == lowered(text@),
{
    let chars = chars_of(text);
    let mut out = String::new();
    let mut kept: usize = 0;
    let mut at: usize = 0;
    while at < chars.len()
        invariant
            chars@ == text@,
            0 <= kept <= at <= chars@.len(),
            out@ + chars@.subrange(kept as int, at as int) =~= lowered(chars@.take(at as int)),
        decreases chars@.len() - at,
    {
        let mark = chars[at];
        assert(lowered(chars@.take(at + 1)) =~= lowered(chars@.take(at as int)).push(
            lower_char(mark),
        ));
        if 'A' <= mark && mark <= 'Z' {
            out.append(text.substring_char(kept, at));
            let small: u8 = (mark as u8) + 32;
            out.append(small_letter(small));
            at += 1;
            kept = at;
            assert(chars@.subrange(kept as int, at as int) =~= Seq::<char>::empty());
        } else {
            assert(chars@.subrange(kept as int, at + 1) =~= chars@.subrange(
                kept as int,
                at as int,
            ).push(mark));
            at += 1;
        }
    }
    out.append(text.substring_char(kept, at));
    assert(chars@.take(at as int) =~= chars@);
    out
}

} // verus!
