//! What the matcher of wildcards does on patterns of a simple shape.
use crate::encoding::lemma_plain_byte_is_char;
use crate::wildcards::{
    find_span, fresh_seeker, holds_excluded, place_byte, scan, start_cursor, tail_is_open,
    wildcard_matches, wildcard_part, wildcard_span, Cursor, Scan, Seeker, CARET, DOLLAR, STAR,
};
use vstd::prelude::*;
use vstd::utf8::*;

verus! {

/// No byte of `pattern` is `*`.
pub open spec fn star_free(pattern: Seq<u8>) -> bool {
    forall|i: int| 0 <= i < pattern.len() ==> pattern[i] != STAR
}

/// A dead cursor stays dead.
pub proof fn lemma_dead_stays(pattern: Seq<u8>, input: Seq<u8>)
    ensures
        scan(pattern, Cursor::Dead, input) == Scan::Pending(Cursor::Dead),
    decreases input.len(),
{
    if input.len() > 0 {
        lemma_dead_stays(pattern, input.drop_last());
    }
}

/// Reading `first` and then `rest` is reading `first + rest`.
pub proof fn lemma_scan_concat(pattern: Seq<u8>, cursor: Cursor, first: Seq<u8>, rest: Seq<u8>)
    ensures
        scan(pattern, cursor, first + rest) == match scan(pattern, cursor, first) {
            Scan::Matched => Scan::Matched,
            Scan::Pending(between) => scan(pattern, between, rest),
        },
    decreases rest.len(),
{
    if rest.len() == 0 {
        assert(first + rest =~= first);
    } else {
        lemma_scan_concat(pattern, cursor, first, rest.drop_last());
        assert((first + rest).drop_last() =~= first + rest.drop_last());
        assert((first + rest).last() == rest.last());
    }
}

/// Over the bytes in front of its first `*`, a pattern is read byte by byte:
/// the cursor stands behind the input as long as the input is the start of
/// the pattern, and is dead as soon as it is not.
pub proof fn lemma_scan_literal(pattern: Seq<u8>, literal: int, input: Seq<u8>)
    requires
        0 <= literal <= pattern.len(),
        forall|i: int| 0 <= i < literal ==> pattern[i] != STAR,
        input.len() <= literal,
    ensures
        scan(pattern, start_cursor(), input) == if input =~= pattern.take(input.len() as int) {
            Scan::Pending(Cursor::Live { index: input.len() as int, jumpback: None })
        } else {
            Scan::Pending(Cursor::Dead)
        },
    decreases input.len(),
{
    if input.len() > 0 {
        let before = input.drop_last();
        lemma_scan_literal(pattern, literal, before);
        if before =~= pattern.take(before.len() as int) {
            if input.last() == pattern[before.len() as int] {
                assert(input =~= pattern.take(input.len() as int));
            } else {
                assert(pattern.take(input.len() as int)[before.len() as int] != input.last());
            }
        } else {
            if input =~= pattern.take(input.len() as int) {
                assert(before =~= pattern.take(before.len() as int));
            }
        }
    } else {
        assert(input =~= pattern.take(0));
    }
}

/// The pattern `*` matches every input, the empty one too.
pub proof fn law_star_matches_all(input: Seq<u8>)
    ensures
        wildcard_matches(input, seq![STAR]),
    decreases input.len(),
{
    let pattern = seq![STAR];
    reveal_with_fuel(tail_is_open, 3);
    if input.len() > 0 {
        law_star_matches_all(input.drop_last());
        assert(scan(pattern, start_cursor(), input) is Matched) by {
            match scan(pattern, start_cursor(), input.drop_last()) {
                Scan::Matched => {},
                Scan::Pending(before) => {
                    lemma_star_only_pending(input.drop_last());
                },
            }
        }
    }
}

/// Under the pattern `*` only the empty input leaves the matcher waiting.
proof fn lemma_star_only_pending(input: Seq<u8>)
    ensures
        scan(seq![STAR], start_cursor(), input) == if input.len() == 0 {
            Scan::Pending(start_cursor())
        } else {
            Scan::Matched
        },
    decreases input.len(),
{
    if input.len() > 0 {
        lemma_star_only_pending(input.drop_last());
    }
}

/// A pattern without `*` matches itself and nothing else.
///
/// Left out is the one other input that a pattern with `$` at its end
/// matches: the pattern without that `$`.
pub proof fn law_literal_matches_itself(input: Seq<u8>, pattern: Seq<u8>)
    requires
        pattern.len() > 0,
        star_free(pattern),
        !(pattern.last() == DOLLAR && input == pattern.drop_last()),
    ensures
        wildcard_matches(input, pattern) <==> input == pattern,
{
    let len = pattern.len() as int;
    if input.len() <= len {
        lemma_scan_literal(pattern, len, input);
        if input =~= pattern.take(input.len() as int) {
            if input.len() == len {
                assert(pattern.take(len) =~= pattern);
            } else {
                if input.len() == len - 1 {
                    assert(pattern.take(len - 1) =~= pattern.drop_last());
                }
            }
        }
    } else {
        let head = input.take(len);
        let rest = input.skip(len);
        assert(input =~= head + rest);
        lemma_scan_literal(pattern, len, head);
        lemma_scan_concat(pattern, start_cursor(), head, rest);
        lemma_dead_stays(pattern, rest);
        if head =~= pattern.take(len) {
            lemma_overrun_dies(pattern, rest);
        }
    }
}

/// A cursor at the end of a pattern without `*` dies on the next byte.
proof fn lemma_overrun_dies(pattern: Seq<u8>, rest: Seq<u8>)
    requires
        rest.len() > 0,
    ensures
        scan(
            pattern,
            Cursor::Live { index: pattern.len() as int, jumpback: None },
            rest,
        ) == Scan::Pending(Cursor::Dead),
    decreases rest.len(),
{
    reveal_with_fuel(scan, 2);
    if rest.len() > 1 {
        lemma_overrun_dies(pattern, rest.drop_last());
    }
}

/// How many bytes of `tail` stand matched once the matcher has read `input`
/// behind a `*`: each byte either continues the match of `tail`, or sends the
/// matcher back to the start of `tail` and is used up. A match of all of
/// `tail` begins anew with the next byte.
pub open spec fn tail_progress(tail: Seq<u8>, input: Seq<u8>) -> int
    decreases input.len(),
{
    if input.len() == 0 {
        0
    } else {
        let before = tail_progress(tail, input.drop_last());
        let at = if before >= tail.len() {
            0
        } else {
            before
        };
        if 0 <= at < tail.len() && tail[at] == input.last() {
            at + 1
        } else {
            0
        }
    }
}

/// `tail_progress` stays between 0 and the length of `tail`, and as many
/// bytes as it counts are the end of the input.
pub proof fn lemma_tail_progress_is_suffix(tail: Seq<u8>, input: Seq<u8>)
    ensures
        0 <= tail_progress(tail, input) <= tail.len(),
        tail_progress(tail, input) <= input.len(),
        input.skip(input.len() - tail_progress(tail, input)) =~= tail.take(
            tail_progress(tail, input),
        ),
    decreases input.len(),
{
    if input.len() > 0 {
        let before = input.drop_last();
        lemma_tail_progress_is_suffix(tail, before);
        let count = tail_progress(tail, input);
        let earlier = tail_progress(tail, before);
        if count > 1 {
            assert(earlier == count - 1);
            assert forall|i: int| 0 <= i < count implies input.skip(input.len() - count)[i]
                == tail.take(count)[i] by {
                if i < count - 1 {
                    assert(before.skip(before.len() - earlier)[i] == tail.take(earlier)[i]);
                }
            }
        }
    }
}

/// Where the first byte of `tail` does not occur in `middle`, the matcher
/// finds `tail` behind `middle`.
pub proof fn lemma_tail_progress_found(tail: Seq<u8>, middle: Seq<u8>, upto: int)
    requires
        0 <= upto <= tail.len(),
        tail.len() > 0,
        forall|i: int| 0 <= i < middle.len() ==> middle[i] != tail[0],
    ensures
        tail_progress(tail, middle + tail.take(upto)) == upto,
    decreases middle.len() + upto,
{
    let input = middle + tail.take(upto);
    if upto > 0 {
        lemma_tail_progress_found(tail, middle, upto - 1);
        assert(input.drop_last() =~= middle + tail.take(upto - 1));
        assert(input.last() == tail[upto - 1]);
    } else {
        assert(input =~= middle);
        if middle.len() > 0 {
            lemma_tail_progress_found(tail, middle.drop_last(), 0);
            assert(middle.drop_last() + tail.take(0) =~= middle.drop_last());
        }
    }
}

/// Behind the `*` of `head * tail`, the cursor stands as far into `tail` as
/// `tail_progress` says.
proof fn lemma_scan_behind_star(head: Seq<u8>, tail: Seq<u8>, input: Seq<u8>)
    requires
        star_free(tail),
        tail.len() > 0,
        input.len() > 0,
    ensures
        scan(
            head + seq![STAR] + tail,
            Cursor::Live { index: head.len() as int, jumpback: None },
            input,
        ) == Scan::Pending(
            Cursor::Live {
                index: head.len() + 1 + tail_progress(tail, input),
                jumpback: Some(head.len() as int),
            },
        ),
    decreases input.len(),
{
    let pattern = head + seq![STAR] + tail;
    let star = head.len() as int;
    let at_star = Cursor::Live { index: star, jumpback: None };
    assert(pattern[star] == STAR);
    assert(forall|i: int| 0 <= i < tail.len() ==> pattern[star + 1 + i] == tail[i]);
    assert(pattern.len() == star + 1 + tail.len());
    reveal_with_fuel(place_byte, 3);
    let before = input.drop_last();
    lemma_tail_progress_is_suffix(tail, before);
    if before.len() == 0 {
        assert(scan(pattern, at_star, before) == Scan::Pending(at_star));
        assert(pattern[star + 1] == tail[0]);
    } else {
        lemma_scan_behind_star(head, tail, before);
        let earlier = tail_progress(tail, before);
        if earlier < tail.len() {
            assert(pattern[star + 1 + earlier] == tail[earlier]);
        } else {
            assert(pattern[star + 1] == tail[0]);
        }
    }
}

/// What `head * tail` matches, said in full: the input begins with `head`,
/// and either `tail` is empty, or the matcher has all of `tail` matched when
/// the input ends.
pub proof fn law_star_between_exact(input: Seq<u8>, head: Seq<u8>, tail: Seq<u8>)
    requires
        star_free(head),
        star_free(tail),
        tail.len() == 0 || tail.last() != DOLLAR,
    ensures
        wildcard_matches(input, head + seq![STAR] + tail) <==> head.is_prefix_of(input) && (
        tail.len() == 0 || (input.len() > head.len() && tail_progress(
            tail,
            input.skip(head.len() as int),
        ) == tail.len())),
{
    let pattern = head + seq![STAR] + tail;
    let star = head.len() as int;
    assert(pattern[star] == STAR);
    assert(forall|i: int| 0 <= i < star ==> pattern[i] == head[i]);
    assert(forall|i: int| 0 <= i < tail.len() ==> pattern[star + 1 + i] == tail[i]);
    assert(pattern.take(star) =~= head);
    reveal_with_fuel(tail_is_open, 3);
    reveal_with_fuel(place_byte, 3);
    if input.len() <= star {
        lemma_scan_literal(pattern, star, input);
        if input =~= pattern.take(input.len() as int) {
            if input.len() < star {
                assert(pattern[input.len() as int] != STAR);
            } else {
                assert(head.is_prefix_of(input));
                if tail.len() > 0 {
                    assert(pattern[star + 1] == tail[0]);
                }
            }
        } else {
            if head.is_prefix_of(input) {
                assert(input =~= pattern.take(input.len() as int));
            }
        }
    } else {
        let front = input.take(star);
        let rest = input.skip(star);
        assert(input =~= front + rest);
        lemma_scan_literal(pattern, star, front);
        lemma_scan_concat(pattern, start_cursor(), front, rest);
        if front =~= head {
            assert(head.is_prefix_of(input));
            if tail.len() == 0 {
                lemma_star_at_end_matches(pattern, star, rest);
            } else {
                lemma_scan_behind_star(head, tail, rest);
                lemma_tail_progress_is_suffix(tail, rest);
                let count = tail_progress(tail, rest);
                if count < tail.len() {
                    assert(pattern[star + 1 + count] == tail[count]);
                }
            }
        } else {
            lemma_dead_stays(pattern, rest);
            if head.is_prefix_of(input) {
                assert(front =~= head);
            }
        }
    }
}

/// A cursor at a `*` that ends the pattern matches on the next byte.
proof fn lemma_star_at_end_matches(pattern: Seq<u8>, star: int, rest: Seq<u8>)
    requires
        rest.len() > 0,
        star == pattern.len() - 1,
        star >= 0,
        pattern[star] == STAR,
    ensures
        scan(pattern, Cursor::Live { index: star, jumpback: None }, rest) is Matched,
    decreases rest.len(),
{
    reveal_with_fuel(scan, 2);
    if rest.len() > 1 {
        lemma_star_at_end_matches(pattern, star, rest.drop_last());
    }
}

/// What `head * tail` matches begins with `head` and ends with `tail`, the
/// two not overlapping.
pub proof fn law_star_between_sound(input: Seq<u8>, head: Seq<u8>, tail: Seq<u8>)
    requires
        star_free(head),
        star_free(tail),
        tail.len() == 0 || tail.last() != DOLLAR,
        wildcard_matches(input, head + seq![STAR] + tail),
    ensures
        head.is_prefix_of(input),
        tail.is_suffix_of(input),
        input.len() >= head.len() + tail.len(),
{
    law_star_between_exact(input, head, tail);
    if tail.len() > 0 {
        let rest = input.skip(head.len() as int);
        lemma_tail_progress_is_suffix(tail, rest);
        assert(tail.take(tail.len() as int) =~= tail);
        assert(rest.skip(rest.len() - tail.len()) =~= input.subrange(
            input.len() - tail.len(),
            input.len() as int,
        ));
    } else {
        assert(tail =~= input.subrange(input.len() as int, input.len() as int));
    }
}

/// `head * tail` matches just what begins with `head` and ends with `tail`,
/// the two not overlapping.
///
/// This is stated where the bytes between `head` and `tail` do not hold the
/// first byte of `tail`: the matcher does not go back in the input, so on
/// other inputs it can miss a `tail` at the end.
pub proof fn law_star_between(input: Seq<u8>, head: Seq<u8>, tail: Seq<u8>)
    requires
        star_free(head),
        star_free(tail),
        tail.len() == 0 || tail.last() != DOLLAR,
        tail.len() > 0 ==> forall|i: int|
            head.len() <= i < input.len() - tail.len() ==> input[i] != tail[0],
    ensures
        wildcard_matches(input, head + seq![STAR] + tail) <==> (head.is_prefix_of(input)
            && tail.is_suffix_of(input) && input.len() >= head.len() + tail.len()),
{
    law_star_between_exact(input, head, tail);
    if wildcard_matches(input, head + seq![STAR] + tail) {
        law_star_between_sound(input, head, tail);
    }
    if head.is_prefix_of(input) && tail.is_suffix_of(input) && input.len() >= head.len()
        + tail.len() && tail.len() > 0 {
        let rest = input.skip(head.len() as int);
        let middle = rest.take(rest.len() - tail.len());
        assert(rest =~= middle + tail.take(tail.len() as int)) by {
            assert(tail.take(tail.len() as int) =~= tail);
        }
        lemma_tail_progress_found(tail, middle, tail.len() as int);
    }
}

/// Where a pattern `* x *`, with `x` one byte that is not `*`, has the matcher
/// once it has read `input`.
proof fn lemma_scan_star_byte_star(input: Seq<u8>, byte: u8)
    requires
        byte != STAR,
    ensures
        scan(seq![STAR, byte, STAR], start_cursor(), input) == if !input.contains(byte) {
            if input.len() == 0 {
                Scan::Pending(start_cursor())
            } else {
                Scan::Pending(Cursor::Live { index: 1, jumpback: Some(0) })
            }
        } else if input.drop_last().contains(byte) {
            Scan::Matched
        } else {
            Scan::Pending(Cursor::Live { index: 2, jumpback: Some(0) })
        },
    decreases input.len(),
{
    let pattern = seq![STAR, byte, STAR];
    reveal_with_fuel(place_byte, 3);
    if input.len() > 0 {
        let before = input.drop_last();
        lemma_scan_star_byte_star(before, byte);
        if before.contains(byte) {
            let k = choose|k: int| 0 <= k < before.len() && before[k] == byte;
            assert(input[k] == byte);
        } else if input.last() == byte {
            assert(input[input.len() - 1] == byte);
        } else {
            if input.contains(byte) {
                let k = choose|k: int| 0 <= k < input.len() && input[k] == byte;
                assert(before[k] == byte);
            }
        }
        if before.len() > 0 && before.drop_last().contains(byte) {
            let k = choose|k: int|
                0 <= k < before.drop_last().len() && before.drop_last()[k] == byte;
            assert(before[k] == byte);
        }
    }
}

/// A pattern `* x *`, with `x` one byte that is not `*`, matches just the
/// inputs that hold `x`. So `*.*` matches what holds a `.`.
pub proof fn law_star_byte_star(input: Seq<u8>, byte: u8)
    requires
        byte != STAR,
    ensures
        wildcard_matches(input, seq![STAR, byte, STAR]) <==> input.contains(byte),
{
    lemma_scan_star_byte_star(input, byte);
    reveal_with_fuel(tail_is_open, 4);
}

/// A search that has begun a part at or before the place it reads finds, if
/// anything, a part that lies in the input.
proof fn lemma_found_span_is_in_input(
    pattern: Seq<u8>,
    exclude: Seq<u8>,
    input: Seq<u8>,
    at: int,
    seeker: Seeker,
)
    requires
        0 <= at <= input.len(),
        seeker.start matches Some(first) ==> 0 <= first <= at,
    ensures
        find_span(pattern, exclude, input, at, seeker) matches Some(span) ==> 0 <= span.0 <= span.1
            <= input.len(),
    decreases input.len() - at, pattern.len() - seeker.index,
{
    if at < input.len() && 0 <= seeker.index < pattern.len() {
        let first = match seeker.start {
            Some(first) => first,
            None => at,
        };
        if pattern[seeker.index] == STAR {
            if exclude.contains(input[at]) {
                lemma_found_span_is_in_input(pattern, exclude, input, at + 1, fresh_seeker());
            } else if seeker.index < pattern.len() - 1 {
                lemma_found_span_is_in_input(pattern, exclude, input, at, Seeker { index: seeker.index + 1, jumpback: Some(seeker.index), start: Some(first) });
            } else {
                lemma_found_span_is_in_input(pattern, exclude, input, at + 1, Seeker { index: seeker.index, jumpback: seeker.jumpback, start: Some(first) });
            }
        } else if pattern[seeker.index] == CARET && at + seeker.index == 0 {
            lemma_found_span_is_in_input(pattern, exclude, input, at, Seeker { index: seeker.index + 1, jumpback: seeker.jumpback, start: Some(0) });
        } else if pattern[seeker.index] == input[at] {
            if seeker.index < pattern.len() - 1 {
                lemma_found_span_is_in_input(pattern, exclude, input, at + 1, Seeker { index: seeker.index + 1, jumpback: seeker.jumpback, start: Some(first) });
            }
        } else if seeker.start is None {
            lemma_found_span_is_in_input(pattern, exclude, input, at + 1, seeker);
        } else {
            match seeker.jumpback {
                Some(star) => {
                    if exclude.contains(input[at]) || holds_excluded(
                        pattern,
                        exclude,
                        star + 1,
                        seeker.index,
                    ) {
                        lemma_found_span_is_in_input(pattern, exclude, input, at + 1, fresh_seeker());
                    } else {
                        lemma_found_span_is_in_input(pattern, exclude, input, at + 1, Seeker { index: star + 1, jumpback: seeker.jumpback, start: seeker.start });
                    }
                },
                None => {
                    lemma_found_span_is_in_input(pattern, exclude, input, at + 1, fresh_seeker());
                },
            }
        }
    }
}

/// What a pattern picks out of an input is a part of that input.
pub proof fn law_span_is_in_input(input: Seq<u8>, pattern: Seq<u8>, exclude: Seq<u8>)
    ensures
        wildcard_span(input, pattern, exclude) matches Some(span) ==> 0 <= span.0 <= span.1
            <= input.len(),
{
    lemma_found_span_is_in_input(pattern, exclude, input, 0, fresh_seeker());
}

/// No byte of `input` from `from` on is in `exclude`.
pub open spec fn free_of_excluded(input: Seq<u8>, exclude: Seq<u8>, from: int, to: int) -> bool {
    forall|i: int| from <= i < to && 0 <= i < input.len() ==> !exclude.contains(#[trigger] input[i])
}

/// Under the pattern `*`, a search that has taken all bytes so far takes the
/// rest as well, where none of it is excluded.
proof fn lemma_star_takes_the_rest(exclude: Seq<u8>, input: Seq<u8>, at: int, seeker: Seeker)
    requires
        0 <= at <= input.len(),
        input.len() > 0,
        seeker.index == 0,
        at == 0 ==> seeker.start is None,
        at > 0 ==> seeker.start == Some(0int),
        free_of_excluded(input, exclude, at, input.len() as int),
    ensures
        find_span(seq![STAR], exclude, input, at, seeker) == Some((0int, input.len() as int)),
    decreases input.len() - at,
{
    reveal_with_fuel(tail_is_open, 3);
    if at < input.len() {
        assert(!exclude.contains(input[at]));
        lemma_star_takes_the_rest(
            exclude,
            input,
            at + 1,
            Seeker { index: 0, jumpback: seeker.jumpback, start: Some(0) },
        );
    }
}

/// The pattern `*` picks out the whole of an input that holds no excluded
/// byte, and the empty pattern picks nothing.
pub proof fn law_span_of_star_is_all(input: Seq<u8>, exclude: Seq<u8>)
    requires
        free_of_excluded(input, exclude, 0, input.len() as int),
    ensures
        wildcard_span(input, seq![STAR], exclude) == Some((0int, input.len() as int)),
        wildcard_span(input, Seq::empty(), exclude) is None,
{
    if input.len() > 0 {
        lemma_star_takes_the_rest(exclude, input, 0, fresh_seeker());
    }
}

/// Whether a search under a pattern that begins with a plain byte has begun
/// its part where that byte stands: a search that is past the start of the
/// pattern has begun a part, and a part begins with the first byte of the
/// pattern.
spec fn begun_at_first_byte(pattern: Seq<u8>, input: Seq<u8>, seeker: Seeker) -> bool {
    &&& seeker.index > 0 ==> seeker.start is Some
    &&& seeker.start matches Some(first) ==> 0 <= first < input.len() && input[first]
        == pattern[0]
}

/// Under a pattern that begins with a byte that is neither `*` nor `^`, what
/// is found begins where that byte stands in the input.
proof fn lemma_found_span_begins_with_first_byte(
    pattern: Seq<u8>,
    exclude: Seq<u8>,
    input: Seq<u8>,
    at: int,
    seeker: Seeker,
)
    requires
        0 <= at <= input.len(),
        pattern.len() > 0,
        pattern[0] != STAR,
        pattern[0] != CARET,
        begun_at_first_byte(pattern, input, seeker),
    ensures
        find_span(pattern, exclude, input, at, seeker) matches Some(span) ==> 0 <= span.0
            < input.len() && input[span.0] == pattern[0],
    decreases input.len() - at, pattern.len() - seeker.index,
{
    if at < input.len() && 0 <= seeker.index < pattern.len() {
        let first = match seeker.start {
            Some(first) => first,
            None => at,
        };
        if pattern[seeker.index] == STAR {
            if exclude.contains(input[at]) {
                lemma_found_span_begins_with_first_byte(pattern, exclude, input, at + 1, fresh_seeker());
            } else if seeker.index < pattern.len() - 1 {
                lemma_found_span_begins_with_first_byte(pattern, exclude, input, at, Seeker { index: seeker.index + 1, jumpback: Some(seeker.index), start: Some(first) });
            } else {
                lemma_found_span_begins_with_first_byte(pattern, exclude, input, at + 1, Seeker { index: seeker.index, jumpback: seeker.jumpback, start: Some(first) });
            }
        } else if pattern[seeker.index] == CARET && at + seeker.index == 0 {
            
        } else if pattern[seeker.index] == input[at] {
            if seeker.index < pattern.len() - 1 {
                lemma_found_span_begins_with_first_byte(pattern, exclude, input, at + 1, Seeker { index: seeker.index + 1, jumpback: seeker.jumpback, start: Some(first) });
            }
        } else if seeker.start is None {
            lemma_found_span_begins_with_first_byte(pattern, exclude, input, at + 1, seeker);
        } else {
            match seeker.jumpback {
                Some(star) => {
                    if exclude.contains(input[at]) || holds_excluded(
                        pattern,
                        exclude,
                        star + 1,
                        seeker.index,
                    ) {
                        lemma_found_span_begins_with_first_byte(pattern, exclude, input, at + 1, fresh_seeker());
                    } else {
                        lemma_found_span_begins_with_first_byte(pattern, exclude, input, at + 1, Seeker { index: star + 1, jumpback: seeker.jumpback, start: seeker.start });
                    }
                },
                None => {
                    lemma_found_span_begins_with_first_byte(pattern, exclude, input, at + 1, fresh_seeker());
                },
            }
        }
    }
}

/// What is found ends with the input, or behind a byte of the input that is
/// the last byte of the pattern.
proof fn lemma_found_span_ends_with_last_byte(
    pattern: Seq<u8>,
    exclude: Seq<u8>,
    input: Seq<u8>,
    at: int,
    seeker: Seeker,
)
    requires
        0 <= at <= input.len(),
    ensures
        find_span(pattern, exclude, input, at, seeker) matches Some(span) ==> span.1
            == input.len() || (0 < span.1 <= input.len() && pattern.len() > 0 && input[span.1 - 1]
            == pattern.last()),
    decreases input.len() - at, pattern.len() - seeker.index,
{
    if at < input.len() && 0 <= seeker.index < pattern.len() {
        let first = match seeker.start {
            Some(first) => first,
            None => at,
        };
        if pattern[seeker.index] == STAR {
            if exclude.contains(input[at]) {
                lemma_found_span_ends_with_last_byte(pattern, exclude, input, at + 1, fresh_seeker());
            } else if seeker.index < pattern.len() - 1 {
                lemma_found_span_ends_with_last_byte(pattern, exclude, input, at, Seeker { index: seeker.index + 1, jumpback: Some(seeker.index), start: Some(first) });
            } else {
                lemma_found_span_ends_with_last_byte(pattern, exclude, input, at + 1, Seeker { index: seeker.index, jumpback: seeker.jumpback, start: Some(first) });
            }
        } else if pattern[seeker.index] == CARET && at + seeker.index == 0 {
            lemma_found_span_ends_with_last_byte(pattern, exclude, input, at, Seeker { index: seeker.index + 1, jumpback: seeker.jumpback, start: Some(0) });
        } else if pattern[seeker.index] == input[at] {
            if seeker.index < pattern.len() - 1 {
                lemma_found_span_ends_with_last_byte(pattern, exclude, input, at + 1, Seeker { index: seeker.index + 1, jumpback: seeker.jumpback, start: Some(first) });
            }
        } else if seeker.start is None {
            lemma_found_span_ends_with_last_byte(pattern, exclude, input, at + 1, seeker);
        } else {
            match seeker.jumpback {
                Some(star) => {
                    if exclude.contains(input[at]) || holds_excluded(
                        pattern,
                        exclude,
                        star + 1,
                        seeker.index,
                    ) {
                        lemma_found_span_ends_with_last_byte(pattern, exclude, input, at + 1, fresh_seeker());
                    } else {
                        lemma_found_span_ends_with_last_byte(pattern, exclude, input, at + 1, Seeker { index: star + 1, jumpback: seeker.jumpback, start: seeker.start });
                    }
                },
                None => {
                    lemma_found_span_ends_with_last_byte(pattern, exclude, input, at + 1, fresh_seeker());
                },
            }
        }
    }
}

/// Whether a pattern begins and ends with a plain byte: its first byte is
/// below 128 and neither `*` nor `^`, and its last byte is below 128.
pub open spec fn has_plain_ends(pattern: Seq<u8>) -> bool {
    pattern.len() > 0 && pattern[0] < 0x80 && pattern[0] != STAR && pattern[0] != CARET
        && pattern.last() < 0x80
}

/// From a text, a pattern that begins and ends with a plain byte picks out
/// whole characters: nothing that it finds is lost for cutting a character.
pub proof fn law_plain_ends_cut_no_char(input: Seq<u8>, pattern: Seq<u8>, exclude: Seq<u8>)
    requires
        valid_utf8(input),
        has_plain_ends(pattern),
    ensures
        wildcard_part(input, pattern, exclude) == match wildcard_span(input, pattern, exclude) {
            Some((first, end)) => Some(input.subrange(first, end)),
            None => None,
        },
{
    lemma_found_span_begins_with_first_byte(pattern, exclude, input, 0, fresh_seeker());
    lemma_found_span_ends_with_last_byte(pattern, exclude, input, 0, fresh_seeker());
    match wildcard_span(input, pattern, exclude) {
        Some((first, end)) => {
            lemma_plain_byte_is_char(input, first);
            if end == input.len() {
                is_char_boundary_start_end_of_seq(input);
            } else {
                lemma_plain_byte_is_char(input, end - 1);
            }
        },
        None => {},
    }
}


/// Whether the part of `input` from `first` up to `end` begins with `head`
/// and ends with `tail`, the two not overlapping, and holds no byte of
/// `exclude` between them.
pub open spec fn picked_between(
    input: Seq<u8>,
    head: Seq<u8>,
    tail: Seq<u8>,
    exclude: Seq<u8>,
    first: int,
    end: int,
) -> bool {
    &&& 0 <= first
    &&& end <= input.len()
    &&& first + head.len() + tail.len() <= end
    &&& input.subrange(first, first + head.len()) == head
    &&& input.subrange(end - tail.len(), end) == tail
    &&& forall|i: int|
        first + head.len() <= i < end - tail.len() ==> !exclude.contains(#[trigger] input[i])
}

/// Where a search under `head * tail` stands while it has not passed the
/// `*`: it has matched a start of `head` just in front of the place it
/// reads.
spec fn in_head(head: Seq<u8>, input: Seq<u8>, at: int, seeker: Seeker) -> bool {
    &&& 0 <= seeker.index <= head.len()
    &&& seeker.jumpback is None
    &&& seeker.index == 0 ==> seeker.start is None
    &&& seeker.index > 0 ==> {
        &&& seeker.start == Some(at - seeker.index)
        &&& at - seeker.index >= 0
        &&& forall|j: int| 0 <= j < seeker.index ==> input[at - seeker.index + j] == head[j]
    }
}

/// Where a search under `head * tail` stands once it has passed the `*`: its
/// part begins with `head`, it has matched a start of `tail` just in front of
/// the place it reads, and the `*` has taken no excluded byte between the
/// two.
spec fn in_tail(
    head: Seq<u8>,
    tail: Seq<u8>,
    exclude: Seq<u8>,
    input: Seq<u8>,
    at: int,
    seeker: Seeker,
) -> bool {
    let matched = seeker.index - head.len() - 1;
    &&& 0 <= matched < tail.len()
    &&& seeker.jumpback == Some(head.len() as int)
    &&& seeker.start is Some
    &&& 0 <= seeker.start->0
    &&& seeker.start->0 + head.len() <= at - matched
    &&& forall|j: int| 0 <= j < head.len() ==> input[seeker.start->0 + j] == head[j]
    &&& forall|j: int| 0 <= j < matched ==> input[at - matched + j] == tail[j]
    &&& forall|i: int|
        seeker.start->0 + head.len() <= i < at - matched ==> !exclude.contains(#[trigger] input[i])
}

/// Under `head * tail`, whatever a search finds begins with `head`, ends with
/// `tail`, and holds no excluded byte between them.
proof fn lemma_found_between(
    head: Seq<u8>,
    tail: Seq<u8>,
    exclude: Seq<u8>,
    input: Seq<u8>,
    at: int,
    seeker: Seeker,
)
    requires
        0 <= at <= input.len(),
        head.len() > 0,
        tail.len() > 0,
        star_free(head),
        star_free(tail),
        head[0] != CARET,
        tail.last() != DOLLAR,
        in_head(head, input, at, seeker) || in_tail(head, tail, exclude, input, at, seeker),
    ensures
        find_span(head + seq![STAR] + tail, exclude, input, at, seeker) matches Some(span)
            ==> picked_between(input, head, tail, exclude, span.0, span.1),
    decreases input.len() - at, head.len() + 1 + tail.len() - seeker.index,
{
    let pattern = head + seq![STAR] + tail;
    let star = head.len() as int;
    assert(pattern.len() == star + 1 + tail.len());
    assert(pattern[star] == STAR);
    assert(forall|i: int| 0 <= i < star ==> pattern[i] == head[i]);
    assert(forall|i: int| 0 <= i < tail.len() ==> pattern[star + 1 + i] == tail[i]);
    reveal_with_fuel(tail_is_open, 3);
    if at >= input.len() {
        if seeker.index < star {
            assert(pattern[seeker.index] == head[seeker.index]);
        } else if seeker.index == star {
            assert(pattern[star + 1] == tail[0]);
        } else {
            assert(pattern[seeker.index] == tail[seeker.index - star - 1]);
        }
    } else if seeker.index < star {
        // matching `head`
        assert(pattern[seeker.index] == head[seeker.index]);
        if pattern[seeker.index] == input[at] {
            let next = Seeker {
                index: seeker.index + 1,
                jumpback: seeker.jumpback,
                start: Some(at - seeker.index),
            };
            assert(in_head(head, input, at + 1, next));
            lemma_found_between(head, tail, exclude, input, at + 1, next);
        } else if seeker.start is None {
            lemma_found_between(head, tail, exclude, input, at + 1, seeker);
        } else {
            lemma_found_between(head, tail, exclude, input, at + 1, fresh_seeker());
        }
    } else if seeker.index == star {
        // at the `*`
        if exclude.contains(input[at]) {
            lemma_found_between(head, tail, exclude, input, at + 1, fresh_seeker());
        } else {
            let next = Seeker { index: star + 1, jumpback: Some(star), start: seeker.start };
            assert(in_tail(head, tail, exclude, input, at, next));
            lemma_found_between(head, tail, exclude, input, at, next);
        }
    } else {
        // matching `tail`
        let matched = seeker.index - star - 1;
        let first = seeker.start->0;
        assert(pattern[seeker.index] == tail[matched]);
        if pattern[seeker.index] == input[at] {
            if seeker.index == pattern.len() - 1 {
                let end = at + 1;
                assert(input.subrange(first, first + star) =~= head);
                assert(input.subrange(end - tail.len(), end) =~= tail) by {
                    assert forall|j: int| 0 <= j < tail.len() implies input[end - tail.len() + j]
                        == tail[j] by {
                        if j < matched {
                            assert(input[at - matched + j] == tail[j]);
                        }
                    }
                }
            } else {
                let next = Seeker {
                    index: seeker.index + 1,
                    jumpback: seeker.jumpback,
                    start: seeker.start,
                };
                assert(in_tail(head, tail, exclude, input, at + 1, next)) by {
                    assert forall|j: int| 0 <= j < matched + 1 implies input[at + 1 - (matched + 1)
                        + j] == tail[j] by {
                        if j < matched {
                            assert(input[at - matched + j] == tail[j]);
                        }
                    }
                }
                lemma_found_between(head, tail, exclude, input, at + 1, next);
            }
        } else if exclude.contains(input[at]) || holds_excluded(
            pattern,
            exclude,
            star + 1,
            seeker.index,
        ) {
            lemma_found_between(head, tail, exclude, input, at + 1, fresh_seeker());
        } else {
            let next = Seeker { index: star + 1, jumpback: seeker.jumpback, start: seeker.start };
            assert(in_tail(head, tail, exclude, input, at + 1, next)) by {
                assert forall|i: int| first + star <= i < at + 1 implies !exclude.contains(
                    #[trigger] input[i],
                ) by {
                    if at - matched <= i < at {
                        let k = star + 1 + (i - (at - matched));
                        assert(input[i] == tail[i - (at - matched)]);
                        assert(pattern[k] == input[i]);
                        assert(!exclude.contains(pattern[k]));
                    }
                }
            }
            lemma_found_between(head, tail, exclude, input, at + 1, next);
        }
    }
}

/// What `head * tail` picks out of an input begins with `head` and ends with
/// `tail`, the two not overlapping, and no byte between them is excluded.
pub proof fn law_star_between_picks(
    input: Seq<u8>,
    head: Seq<u8>,
    tail: Seq<u8>,
    exclude: Seq<u8>,
)
    requires
        head.len() > 0,
        tail.len() > 0,
        star_free(head),
        star_free(tail),
        head[0] != CARET,
        tail.last() != DOLLAR,
    ensures
        wildcard_span(input, head + seq![STAR] + tail, exclude) matches Some(span)
            ==> picked_between(input, head, tail, exclude, span.0, span.1),
{
    lemma_found_between(head, tail, exclude, input, 0, fresh_seeker());
}


/// Where a search under `head *` stands at the `*`: its part begins with
/// `head`, and the `*` has taken no excluded byte behind it.
spec fn in_rest(head: Seq<u8>, exclude: Seq<u8>, input: Seq<u8>, at: int, seeker: Seeker) -> bool {
    &&& seeker.index == head.len()
    &&& seeker.jumpback is None
    &&& seeker.start is Some
    &&& 0 <= seeker.start->0
    &&& seeker.start->0 + head.len() <= at
    &&& forall|j: int| 0 <= j < head.len() ==> input[seeker.start->0 + j] == head[j]
    &&& forall|i: int|
        seeker.start->0 + head.len() <= i < at ==> !exclude.contains(#[trigger] input[i])
}

/// Under `head *`, whatever a search finds begins with `head`, goes to the
/// end of the input, and holds no excluded byte behind `head`.
proof fn lemma_found_to_the_end(
    head: Seq<u8>,
    exclude: Seq<u8>,
    input: Seq<u8>,
    at: int,
    seeker: Seeker,
)
    requires
        0 <= at <= input.len(),
        head.len() > 0,
        star_free(head),
        head[0] != CARET,
        in_head(head, input, at, seeker) || in_rest(head, exclude, input, at, seeker),
    ensures
        find_span(head + seq![STAR], exclude, input, at, seeker) matches Some(span) ==> span.1
            == input.len() && picked_between(
            input,
            head,
            Seq::empty(),
            exclude,
            span.0,
            span.1,
        ),
    decreases input.len() - at, head.len() + 1 - seeker.index,
{
    let pattern = head + seq![STAR];
    let star = head.len() as int;
    assert(pattern.len() == star + 1);
    assert(pattern[star] == STAR);
    assert(forall|i: int| 0 <= i < star ==> pattern[i] == head[i]);
    reveal_with_fuel(tail_is_open, 3);
    if at >= input.len() {
        if seeker.index < star {
            assert(pattern[seeker.index] == head[seeker.index]);
        } else {
            let first = seeker.start->0;
            assert(input.subrange(first, first + star) =~= head);
            assert(input.subrange(input.len() as int, input.len() as int) =~= Seq::<u8>::empty());
        }
    } else if seeker.index < star {
        assert(pattern[seeker.index] == head[seeker.index]);
        if pattern[seeker.index] == input[at] {
            let next = Seeker {
                index: seeker.index + 1,
                jumpback: seeker.jumpback,
                start: Some(at - seeker.index),
            };
            assert(in_head(head, input, at + 1, next));
            if seeker.index + 1 == star {
                assert(in_rest(head, exclude, input, at + 1, next));
            }
            lemma_found_to_the_end(head, exclude, input, at + 1, next);
        } else if seeker.start is None {
            lemma_found_to_the_end(head, exclude, input, at + 1, seeker);
        } else {
            lemma_found_to_the_end(head, exclude, input, at + 1, fresh_seeker());
        }
    } else {
        assert(in_rest(head, exclude, input, at, seeker));
        if exclude.contains(input[at]) {
            lemma_found_to_the_end(head, exclude, input, at + 1, fresh_seeker());
        } else {
            let next = Seeker { index: star, jumpback: seeker.jumpback, start: seeker.start };
            assert(in_rest(head, exclude, input, at + 1, next));
            lemma_found_to_the_end(head, exclude, input, at + 1, next);
        }
    }
}

/// What `head *` picks out of an input begins with `head` and goes to the end
/// of the input, and no byte of it behind `head` is excluded.
pub proof fn law_star_at_end_picks(input: Seq<u8>, head: Seq<u8>, exclude: Seq<u8>)
    requires
        head.len() > 0,
        star_free(head),
        head[0] != CARET,
    ensures
        wildcard_span(input, head + seq![STAR], exclude) matches Some(span) ==> span.1
            == input.len() && picked_between(
            input,
            head,
            Seq::empty(),
            exclude,
            span.0,
            span.1,
        ),
{
    lemma_found_to_the_end(head, exclude, input, 0, fresh_seeker());
}

} // verus!
