//! Texts in order: the order of their bytes, in which a text comes behind
//! every text that it begins with. Lists kept in this order hold no text
//! twice.
use crate::encoding::{bytes_of, lemma_same_bytes_same_text};
use crate::text::texts_of;
use vstd::prelude::*;
use vstd::string::*;

verus! {

/// Whether `a` comes before `b`: at the first place where they differ, `a`
/// has the smaller byte, or `a` ends there and `b` does not.
pub open spec fn comes_before(a: Seq<u8>, b: Seq<u8>) -> bool
    decreases a.len(),
{
    if b.len() == 0 {
        false
    } else if a.len() == 0 {
        true
    } else if a[0] != b[0] {
        a[0] < b[0]
    } else {
        comes_before(a.skip(1), b.skip(1))
    }
}

/// Whether the text `a` comes before the text `b`.
pub open spec fn text_before(a: Seq<char>, b: Seq<char>) -> bool {
    comes_before(bytes_of(a), bytes_of(b))
}

/// Whether each text of `list` comes before the next.
pub open spec fn ascending(list: Seq<Seq<char>>) -> bool {
    forall|i: int, j: int| 0 <= i < j < list.len() ==> text_before(list[i], list[j])
}

/// Nothing comes before itself.
pub proof fn lemma_not_before_itself(a: Seq<u8>)
    ensures
        !comes_before(a, a),
    decreases a.len(),
{
    if a.len() > 0 {
        lemma_not_before_itself(a.skip(1));
    }
}

/// The order goes on: what comes before something that comes before a third
/// comes before the third.
pub proof fn lemma_before_goes_on(a: Seq<u8>, b: Seq<u8>, c: Seq<u8>)
    requires
        comes_before(a, b),
        comes_before(b, c),
    ensures
        comes_before(a, c),
    decreases a.len(),
{
    if a.len() > 0 && b.len() > 0 && c.len() > 0 && a[0] == b[0] && b[0] == c[0] {
        lemma_before_goes_on(a.skip(1), b.skip(1), c.skip(1));
    }
}

/// Of two sequences that differ, one comes before the other.
pub proof fn lemma_one_comes_first(a: Seq<u8>, b: Seq<u8>)
    ensures
        a == b || comes_before(a, b) || comes_before(b, a),
    decreases a.len(),
{
    if a.len() > 0 && b.len() > 0 && a[0] == b[0] {
        lemma_one_comes_first(a.skip(1), b.skip(1));
        if a.skip(1) == b.skip(1) {
            assert(a =~= seq![a[0]] + a.skip(1));
            assert(b =~= seq![b[0]] + b.skip(1));
        }
    } else if a.len() == 0 && b.len() == 0 {
        assert(a =~= b);
    }
}

/// What a sequence begins with does not come behind it.
pub proof fn lemma_start_not_behind(start: Seq<u8>, whole: Seq<u8>)
    requires
        start.is_prefix_of(whole),
    ensures
        !comes_before(whole, start),
    decreases start.len(),
{
    if start.len() > 0 {
        assert(whole[0] == whole.subrange(0, start.len() as int)[0]);
        assert(start.skip(1) =~= whole.skip(1).subrange(0, start.len() - 1));
        lemma_start_not_behind(start.skip(1), whole.skip(1));
    }
}

/// An ascending list holds no text twice.
pub proof fn lemma_ascending_no_twice(list: Seq<Seq<char>>, i: int, j: int)
    requires
        ascending(list),
        0 <= i < list.len(),
        0 <= j < list.len(),
        list[i] == list[j],
    ensures
        i == j,
{
    lemma_not_before_itself(bytes_of(list[i]));
    if i < j {
        assert(text_before(list[i], list[j]));
    } else if j < i {
        assert(text_before(list[j], list[i]));
    }
}

/// Whether the bytes `a` come before the bytes `b`.
pub fn bytes_before(a: &[u8], b: &[u8]) -> (r: bool)
    ensures
        r == comes_before(a@, b@),
{
    let mut i: usize = 0;
    assert(a@.skip(0) =~= a@);
    assert(b@.skip(0) =~= b@);
    while i < a.len() && i < b.len()
        invariant
            0 <= i <= a@.len(),
            i <= b@.len(),
            comes_before(a@, b@) == comes_before(a@.skip(i as int), b@.skip(i as int)),
        decreases a@.len() - i,
    {
        if a[i] != b[i] {
            return a[i] < b[i];
        }
        assert(a@.skip(i as int).skip(1) =~= a@.skip(i + 1));
        assert(b@.skip(i as int).skip(1) =~= b@.skip(i + 1));
        i += 1;
    }
    i < b.len()
}

/// Whether the text `a` comes before the text `b`.
pub fn comes_first(a: &str, b: &str) -> (r: bool)
    ensures
        r == text_before(a@, b@),
{
    bytes_before(a.as_bytes(), b.as_bytes())
}

/// Puts `text` into the ascending `list` at its place, unless the list holds
/// it already.
pub(crate) fn insert_ordered(list: &mut Vec<String>, text: String)
    requires
        ascending(texts_of(old(list)@)),
    ensures
        ascending(texts_of(final(list)@)),
        forall|other: Seq<char>|
            #![trigger texts_of(final(list)@).contains(other)]
            #![trigger texts_of(old(list)@).contains(other)]
            texts_of(final(list)@).contains(other) <==> (other == text@ || texts_of(
                old(list)@,
            ).contains(other)),
{
    let ghost before = texts_of(list@);
    let mut at: usize = 0;
    while at < list.len() && comes_first(list[at].as_str(), text.as_str())
        invariant
            0 <= at <= list@.len(),
            texts_of(list@) == before,
            forall|i: int| 0 <= i < at ==> text_before(#[trigger] before[i], text@),
        decreases list@.len() - at,
    {
        assert(before[at as int] == list@[at as int]@);
        at += 1;
    }
    if at < list.len() {
        assert(before[at as int] == list@[at as int]@);
        if crate::text::same_text(list[at].as_str(), text.as_str()) {
            assert(before.contains(text@));
            return ;
        }
    }
    proof {
        if at < before.len() {
            lemma_one_comes_first(bytes_of(text@), bytes_of(before[at as int]));
            if bytes_of(text@) == bytes_of(before[at as int]) {
                lemma_same_bytes_same_text(text@, before[at as int]);
            }
        }
    }
    list.insert(at, text);
    let ghost after = texts_of(list@);
    assert(after =~= before.take(at as int) + seq![text@] + before.skip(at as int));
    assert forall|i: int, j: int| 0 <= i < j < after.len() implies text_before(
        after[i],
        after[j],
    ) by {
        if j < at {
            assert(after[i] == before[i] && after[j] == before[j]);
        } else if j == at {
            assert(after[i] == before[i]);
        } else if i == at {
            assert(after[j] == before[j - 1]);
            if j - 1 > at {
                assert(text_before(before[at as int], before[j - 1]));
                lemma_before_goes_on(
                    bytes_of(text@),
                    bytes_of(before[at as int]),
                    bytes_of(before[j - 1]),
                );
            }
        } else if i < at {
            assert(after[i] == before[i] && after[j] == before[j - 1]);
            assert(text_before(before[i], before[j - 1]));
        } else {
            assert(after[i] == before[i - 1] && after[j] == before[j - 1]);
            assert(text_before(before[i - 1], before[j - 1]));
        }
    }
    assert forall|other: Seq<char>| after.contains(other) <==> (other == text@ || before.contains(
        other,
    )) by {
        if after.contains(other) {
            let k = choose|k: int| 0 <= k < after.len() && after[k] == other;
            if k < at {
                assert(before[k] == other);
            } else if k > at {
                assert(before[k - 1] == other);
            }
        }
        if other == text@ {
            assert(after[at as int] == other);
        }
        if before.contains(other) {
            let k = choose|k: int| 0 <= k < before.len() && before[k] == other;
            if k < at {
                assert(after[k] == other);
            } else {
                assert(after[k + 1] == other);
            }
        }
    }
}

} // verus!
