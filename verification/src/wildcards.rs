//! Wildcard patterns over bytes.
//!
//! A pattern is a run of literal bytes in which `*` stands for any number of
//! bytes. The matcher reads the input once, from left to right. It keeps a
//! place in the pattern and the place of the last `*` it went past; a byte
//! that does not fit sends it back to just behind that `*`, and the byte is
//! used up. It never goes back in the input, so it is no full glob matcher:
//! `*ab` does not match `aab`.
use crate::encoding::lemma_boundary_in_prefix;
use crate::text::{append_texts, texts_of};
use vstd::hash_map::StringHashMap;
use vstd::prelude::*;
use vstd::string::*;
use vstd::utf8::*;

verus! {

/// The byte `*`.
pub const STAR: u8 = 0x2a;

/// The byte `$`.
pub const DOLLAR: u8 = 0x24;

/// The byte `^`.
pub const CARET: u8 = 0x5e;

/// Where a matcher stands in its pattern.
pub enum Cursor {
    /// The input read so far cannot be matched, whatever follows.
    Dead,
    /// The pattern is matched up to `index`; `jumpback` is the place of the
    /// last `*` passed, if any.
    Live { index: int, jumpback: Option<int> },
}

/// What one input byte does to a cursor. Where `matched` holds the whole
/// pattern is matched, whatever input follows.
pub struct Step {
    pub cursor: Cursor,
    pub matched: bool,
}

/// What a run of input does to a cursor.
pub enum Scan {
    /// The pattern was matched in full before the input ended.
    Matched,
    /// The input ended with the matcher at this cursor.
    Pending(Cursor),
}

/// The cursor of a matcher that has read nothing.
pub open spec fn start_cursor() -> Cursor {
    Cursor::Live { index: 0, jumpback: None }
}

/// A live cursor stays inside the pattern, and its `jumpback` is the place of
/// a `*` that is not the pattern's last byte.
pub open spec fn cursor_fits(pattern: Seq<u8>, cursor: Cursor) -> bool {
    match cursor {
        Cursor::Dead => true,
        Cursor::Live { index, jumpback } => {
            &&& 0 <= index <= pattern.len()
            &&& match jumpback {
                Some(j) => 0 <= j < pattern.len() - 1 && pattern[j] == STAR,
                None => true,
            }
        },
    }
}

/// The cursor at `index`, with `byte` still to be placed. The cursor moves
/// over every `*` that has something behind it; a `*` at the pattern's end
/// matches the rest of the input.
pub open spec fn place_byte(pattern: Seq<u8>, index: int, jumpback: Option<int>, byte: u8) -> Step
    recommends
        0 <= index < pattern.len(),
    decreases pattern.len() - index,
{
    if index < 0 || index >= pattern.len() {
        Step { cursor: Cursor::Dead, matched: false }
    } else if pattern[index] == STAR {
        if index < pattern.len() - 1 {
            place_byte(pattern, index + 1, Some(index), byte)
        } else {
            Step { cursor: Cursor::Live { index, jumpback }, matched: true }
        }
    } else if pattern[index] == byte {
        Step { cursor: Cursor::Live { index: index + 1, jumpback }, matched: false }
    } else {
        match jumpback {
            Some(star) => Step {
                cursor: Cursor::Live { index: star + 1, jumpback },
                matched: false,
            },
            None => Step { cursor: Cursor::Dead, matched: false },
        }
    }
}

/// What the byte `byte` does to `cursor`. A cursor at the pattern's end goes
/// back to its last `*` first; without one it is dead.
pub open spec fn step_cursor(pattern: Seq<u8>, cursor: Cursor, byte: u8) -> Step {
    match cursor {
        Cursor::Dead => Step { cursor: Cursor::Dead, matched: false },
        Cursor::Live { index, jumpback } => {
            if index >= pattern.len() {
                match jumpback {
                    Some(star) => place_byte(pattern, star, jumpback, byte),
                    None => Step { cursor: Cursor::Dead, matched: false },
                }
            } else {
                place_byte(pattern, index, jumpback, byte)
            }
        },
    }
}

/// What the bytes of `input`, read in order, do to `cursor`.
pub open spec fn scan(pattern: Seq<u8>, cursor: Cursor, input: Seq<u8>) -> Scan
    decreases input.len(),
{
    if input.len() == 0 {
        Scan::Pending(cursor)
    } else {
        match scan(pattern, cursor, input.drop_last()) {
            Scan::Matched => Scan::Matched,
            Scan::Pending(before) => {
                let step = step_cursor(pattern, before, input.last());
                if step.matched {
                    Scan::Matched
                } else {
                    Scan::Pending(step.cursor)
                }
            },
        }
    }
}

/// Whether the pattern from `index` on asks for nothing more: it holds only
/// `*` there, or `*` and then `$` as the pattern's last byte.
pub open spec fn tail_is_open(pattern: Seq<u8>, index: int) -> bool
    decreases pattern.len() - index,
{
    if index < 0 || index >= pattern.len() {
        true
    } else if pattern[index] == STAR {
        tail_is_open(pattern, index + 1)
    } else {
        pattern[index] == DOLLAR && index == pattern.len() - 1
    }
}

/// Whether a matcher that stopped at `cursor` when the input ended has
/// matched.
pub open spec fn accepts_at_end(pattern: Seq<u8>, cursor: Cursor) -> bool {
    match cursor {
        Cursor::Dead => false,
        Cursor::Live { index, .. } => tail_is_open(pattern, index),
    }
}

/// Whether `pattern` matches `input`. The empty pattern matches nothing.
pub open spec fn wildcard_matches(input: Seq<u8>, pattern: Seq<u8>) -> bool {
    pattern.len() > 0 && match scan(pattern, start_cursor(), input) {
        Scan::Matched => true,
        Scan::Pending(cursor) => accepts_at_end(pattern, cursor),
    }
}

/// Whether one of `patterns` matches `input`.
pub open spec fn any_wildcard_matches(input: Seq<u8>, patterns: Seq<Seq<u8>>) -> bool {
    exists|k: int| 0 <= k < patterns.len() && wildcard_matches(input, #[trigger] patterns[k])
}

/// A pattern together with the place its matcher has reached.
pub struct WildcardPattern {
    index: usize,
    jumpback_index: Option<usize>,
    bytes: Vec<u8>,
    valid: bool,
}

impl WildcardPattern {
    /// The bytes of the pattern.
    pub closed spec fn pattern(&self) -> Seq<u8> {
        self.bytes@
    }

    /// The cursor of the matcher.
    pub closed spec fn cursor(&self) -> Cursor {
        if self.valid {
            Cursor::Live {
                index: self.index as int,
                jumpback: match self.jumpback_index {
                    Some(j) => Some(j as int),
                    None => None,
                },
            }
        } else {
            Cursor::Dead
        }
    }

    #[verifier::type_invariant]
    spec fn fits(&self) -> bool {
        &&& self.index <= self.bytes@.len()
        &&& match self.jumpback_index {
            Some(j) => j < self.bytes@.len() - 1 && self.bytes@[j as int] == STAR,
            None => true,
        }
    }

    /// A matcher for `bytes` that has read nothing.
    #[must_use]
    pub fn new(bytes: Vec<u8>) -> (r: Self)
        ensures
            r.pattern() == bytes@,
            r.cursor() == start_cursor(),
    {
        Self { index: 0, jumpback_index: None, bytes, valid: true }
    }

    /// Reads one input byte. Returns `true` if the pattern is matched in full,
    /// whatever input follows, and `false` if the match is still open or has
    /// failed.
    pub fn check_next(&mut self, input_byte: u8) -> (matched: bool)
        ensures
            cursor_fits(final(self).pattern(), final(self).cursor()),
            final(self).pattern() == old(self).pattern(),
            matched == step_cursor(old(self).pattern(), old(self).cursor(), input_byte).matched,
            final(self).cursor() == step_cursor(
                old(self).pattern(),
                old(self).cursor(),
                input_byte,
            ).cursor,
    {
        proof {
            use_type_invariant(&*self);
        }
        if !self.valid {
            return false;
        }
        if self.index >= self.bytes.len() {
            match self.jumpback_index {
                Some(star) => {
                    self.index = star;
                },
                None => {
                    self.valid = false;
                    return false;
                },
            }
        }
        let ghost pattern = self.bytes@;
        let ghost goal = step_cursor(pattern, old(self).cursor(), input_byte);
        let len: usize = self.bytes.len();
        loop
            invariant
                self.valid,
                self.bytes@ == pattern,
                len == pattern.len(),
                pattern == old(self).bytes@,
                self.index < pattern.len(),
                self.fits(),
                goal == place_byte(
                    pattern,
                    self.index as int,
                    match self.jumpback_index {
                        Some(j) => Some(j as int),
                        None => None,
                    },
                    input_byte,
                ),
                goal == step_cursor(pattern, old(self).cursor(), input_byte),
            decreases pattern.len() - self.index,
        {
            let current: u8 = self.bytes[self.index];
            if current == STAR {
                if self.index < len - 1 {
                    self.jumpback_index = Some(self.index);
                    self.index += 1;
                } else {
                    return true;
                }
            } else if current == input_byte {
                self.index += 1;
                return false;
            } else {
                match self.jumpback_index {
                    Some(star) => {
                        self.index = star + 1;
                    },
                    None => {
                        self.valid = false;
                    },
                }
                return false;
            }
        }
    }

    /// The number of bytes in the pattern.
    pub fn pattern_len(&self) -> (r: usize)
        ensures
            r == self.pattern().len(),
    {
        self.bytes.len()
    }

    /// Whether the matcher has matched, if the input ends here.
    pub fn accepts(&self) -> (r: bool)
        ensures
            r == accepts_at_end(self.pattern(), self.cursor()),
    {
        proof {
            use_type_invariant(self);
        }
        self.valid && tail_open_from(self.bytes.as_slice(), self.index)
    }
}

/// The bytes of each of `patterns`, in order.
pub open spec fn patterns_as_bytes(patterns: Seq<String>) -> Seq<Seq<u8>> {
    Seq::new(patterns.len(), |k: int| vstd::utf8::encode_utf8(patterns[k]@))
}

/// Once a pattern is matched in full, more input does not change that.
pub proof fn lemma_matched_stays(pattern: Seq<u8>, cursor: Cursor, input: Seq<u8>, read: int)
    requires
        0 <= read <= input.len(),
        scan(pattern, cursor, input.take(read)) is Matched,
    ensures
        scan(pattern, cursor, input) is Matched,
    decreases input.len() - read,
{
    if read == input.len() {
        assert(input.take(read) =~= input);
    } else {
        assert(input.take(read + 1).drop_last() =~= input.take(read));
        lemma_matched_stays(pattern, cursor, input, read + 1);
    }
}

/// Reading one more byte: the scan of `input` up to `read + 1` is the scan up
/// to `read`, followed by one step.
pub proof fn lemma_scan_next(pattern: Seq<u8>, cursor: Cursor, input: Seq<u8>, read: int)
    requires
        0 <= read < input.len(),
    ensures
        scan(pattern, cursor, input.take(read + 1)) == match scan(
            pattern,
            cursor,
            input.take(read),
        ) {
            Scan::Matched => Scan::Matched,
            Scan::Pending(before) => {
                let step = step_cursor(pattern, before, input[read]);
                if step.matched {
                    Scan::Matched
                } else {
                    Scan::Pending(step.cursor)
                }
            },
        },
{
    assert(input.take(read + 1).drop_last() =~= input.take(read));
    assert(input.take(read + 1).last() == input[read]);
}

/// Returns `true` if `pattern` matches `input`, both taken as bytes.
#[must_use]
pub fn match_bytes(input: &[u8], pattern: &[u8]) -> (r: bool)
    ensures
        r == wildcard_matches(input@, pattern@),
{
    if pattern.len() == 0 {
        return false;
    }
    let mut matcher = WildcardPattern::new(vstd::slice::slice_to_vec(pattern));
    let mut read: usize = 0;
    while read < input.len()
        invariant
            0 <= read <= input@.len(),
            matcher.pattern() == pattern@,
            scan(pattern@, start_cursor(), input@.take(read as int)) == Scan::Pending(
                matcher.cursor(),
            ),
        decreases input@.len() - read,
    {
        let matched = matcher.check_next(input[read]);
        proof {
            lemma_scan_next(pattern@, start_cursor(), input@, read as int);
        }
        if matched {
            proof {
                lemma_matched_stays(pattern@, start_cursor(), input@, read + 1);
            }
            return true;
        }
        read += 1;
    }
    proof {
        assert(input@.take(read as int) =~= input@);
    }
    matcher.accepts()
}

/// Returns `true` if the pattern matches the input.
///
/// In the pattern `*` matches any number of bytes, and a `$` at its end
/// matches the end of the input.
#[must_use]
pub fn match_wildcard(input: &str, pattern: &str) -> (r: bool)
    ensures
        r == wildcard_matches(input.spec_bytes(), pattern.spec_bytes()),
{
    match_bytes(input.as_bytes(), pattern.as_bytes())
}

/// Returns `true` if any of the patterns matches the input. All patterns are
/// run over the input in one pass, which ends at the first that is matched
/// in full.
#[must_use]
#[verifier::loop_isolation(false)]
pub fn match_any_wildcard(input: &str, patterns: &[String]) -> (r: bool)
    ensures
        r == any_wildcard_matches(input.spec_bytes(), patterns_as_bytes(patterns@)),
{
    let bytes = input.as_bytes();
    let ghost all = patterns_as_bytes(patterns@);
    let mut matchers: Vec<WildcardPattern> = Vec::new();
    let mut k: usize = 0;
    while k < patterns.len()
        invariant
            0 <= k <= patterns@.len(),
            all == patterns_as_bytes(patterns@),
            matchers@.len() == k,
            forall|j: int|
                0 <= j < k ==> (#[trigger] matchers@[j]).pattern() == all[j]
                    && matchers@[j].cursor() == start_cursor(),
        decreases patterns@.len() - k,
    {
        let pattern = patterns[k].as_str().as_bytes();
        matchers.push(WildcardPattern::new(vstd::slice::slice_to_vec(pattern)));
        k += 1;
    }
    let mut read: usize = 0;
    while read < bytes.len()
        invariant
            0 <= read <= bytes@.len(),
            all.len() == patterns@.len(),
            matchers@.len() == all.len(),
            forall|j: int|
                0 <= j < all.len() ==> (#[trigger] matchers@[j]).pattern() == all[j] && scan(
                    all[j],
                    start_cursor(),
                    bytes@.take(read as int),
                ) == Scan::Pending(matchers@[j].cursor()),
        decreases bytes@.len() - read,
    {
        let byte = bytes[read];
        let mut k: usize = 0;
        while k < matchers.len()
            invariant
                0 <= k <= matchers@.len(),
                0 <= read < bytes@.len(),
                byte == bytes@[read as int],
                matchers@.len() == all.len(),
                forall|j: int|
                    0 <= j < all.len() ==> (#[trigger] matchers@[j]).pattern() == all[j],
                forall|j: int|
                    0 <= j < k ==> scan(all[j], start_cursor(), bytes@.take(read + 1))
                        == Scan::Pending((#[trigger] matchers@[j]).cursor()),
                forall|j: int|
                    k <= j < all.len() ==> scan(all[j], start_cursor(), bytes@.take(read as int))
                        == Scan::Pending((#[trigger] matchers@[j]).cursor()),
            decreases matchers@.len() - k,
        {
            let matched = matchers[k].check_next(byte);
            proof {
                lemma_scan_next(all[k as int], start_cursor(), bytes@, read as int);
            }
            if matched {
                proof {
                    lemma_matched_stays(all[k as int], start_cursor(), bytes@, read + 1);
                    assert(wildcard_matches(bytes@, all[k as int]));
                }
                return true;
            }
            k += 1;
        }
        read += 1;
    }
    proof {
        assert(bytes@.take(read as int) =~= bytes@);
    }
    let mut k: usize = 0;
    while k < matchers.len()
        invariant
            0 <= k <= matchers@.len(),
            matchers@.len() == all.len(),
            forall|j: int|
                0 <= j < all.len() ==> (#[trigger] matchers@[j]).pattern() == all[j] && scan(
                    all[j],
                    start_cursor(),
                    bytes@,
                ) == Scan::Pending(matchers@[j].cursor()),
            forall|j: int| 0 <= j < k ==> !wildcard_matches(bytes@, #[trigger] all[j]),
        decreases matchers@.len() - k,
    {
        if matchers[k].pattern_len() > 0 && matchers[k].accepts() {
            assert(wildcard_matches(bytes@, all[k as int]));
            return true;
        }
        k += 1;
    }
    false
}

/// Where a search for a part of the input that fits the pattern stands.
pub struct Seeker {
    /// The pattern is matched up to here.
    pub index: int,
    /// The place of the last `*` passed since the search began anew.
    pub jumpback: Option<int>,
    /// Where in the input the part that is being matched begins.
    pub start: Option<int>,
}

/// The seeker of a search that has not begun.
pub open spec fn fresh_seeker() -> Seeker {
    Seeker { index: 0, jumpback: None, start: None }
}

/// Whether one of the bytes of `pattern` from `from` up to `to` is in
/// `exclude`. These are the bytes that were matched behind a `*` at
/// `from - 1` by a search that stands at `to`.
pub open spec fn holds_excluded(pattern: Seq<u8>, exclude: Seq<u8>, from: int, to: int) -> bool {
    exists|k: int|
        from <= k < to && 0 <= k < pattern.len() && exclude.contains(#[trigger] pattern[k])
}

/// The part of `input` that the search finds, as the places of its first byte
/// and of the byte behind its last, with the search at `seeker` and the input
/// read up to `at`.
///
/// A `^` as the first byte of the pattern fits the start of the input. A
/// byte that does not fit makes the search begin anew behind it, unless a `*`
/// was passed: then the search goes back to just behind that `*`, and the `*`
/// takes the byte and the bytes that were matched behind it. A `*` at the end
/// of the pattern takes byte after byte to the end of the input.
///
/// No `*` takes a byte that `exclude` holds: where it would, the search
/// begins anew behind the byte at hand.
pub open spec fn find_span(
    pattern: Seq<u8>,
    exclude: Seq<u8>,
    input: Seq<u8>,
    at: int,
    seeker: Seeker,
) -> Option<(int, int)>
    decreases input.len() - at, pattern.len() - seeker.index,
{
    if at < 0 || at >= input.len() {
        if tail_is_open(pattern, seeker.index) {
            match seeker.start {
                Some(first) => Some((first, input.len() as int)),
                None => None,
            }
        } else {
            None
        }
    } else if seeker.index < 0 || seeker.index >= pattern.len() {
        None
    } else {
        let first = match seeker.start {
            Some(first) => first,
            None => at,
        };
        if pattern[seeker.index] == STAR {
            if exclude.contains(input[at]) {
                find_span(pattern, exclude, input, at + 1, fresh_seeker())
            } else if seeker.index < pattern.len() - 1 {
                find_span(
                    pattern,
                    exclude,
                    input,
                    at,
                    Seeker {
                        index: seeker.index + 1,
                        jumpback: Some(seeker.index),
                        start: Some(first),
                    },
                )
            } else {
                find_span(
                    pattern,
                    exclude,
                    input,
                    at + 1,
                    Seeker { index: seeker.index, jumpback: seeker.jumpback, start: Some(first) },
                )
            }
        } else if pattern[seeker.index] == CARET && at + seeker.index == 0 {
            find_span(
                pattern,
                exclude,
                input,
                at,
                Seeker { index: seeker.index + 1, jumpback: seeker.jumpback, start: Some(0) },
            )
        } else if pattern[seeker.index] == input[at] {
            if seeker.index == pattern.len() - 1 {
                Some((first, at + 1))
            } else {
                find_span(
                    pattern,
                    exclude,
                    input,
                    at + 1,
                    Seeker {
                        index: seeker.index + 1,
                        jumpback: seeker.jumpback,
                        start: Some(first),
                    },
                )
            }
        } else if seeker.start is None {
            find_span(pattern, exclude, input, at + 1, seeker)
        } else {
            match seeker.jumpback {
                Some(star) => if exclude.contains(input[at]) || holds_excluded(
                    pattern,
                    exclude,
                    star + 1,
                    seeker.index,
                ) {
                    find_span(pattern, exclude, input, at + 1, fresh_seeker())
                } else {
                    find_span(
                        pattern,
                        exclude,
                        input,
                        at + 1,
                        Seeker { index: star + 1, jumpback: seeker.jumpback, start: seeker.start },
                    )
                },
                None => find_span(pattern, exclude, input, at + 1, fresh_seeker()),
            }
        }
    }
}

/// The part of `input` that `pattern` picks out, as the places of its first
/// byte and of the byte behind its last. The empty pattern picks nothing, and
/// so does a pattern that is only `^`. The pattern `*` picks all of the empty
/// input; it is searched for in any other input like every pattern.
pub open spec fn wildcard_span(input: Seq<u8>, pattern: Seq<u8>, exclude: Seq<u8>) -> Option<
    (int, int),
> {
    if pattern.len() == 0 {
        None
    } else if pattern.len() == 1 && pattern[0] == STAR && input.len() == 0 {
        Some((0, 0))
    } else {
        find_span(pattern, exclude, input, 0, fresh_seeker())
    }
}

/// Whether `bytes` holds `byte`.
pub fn holds_byte(bytes: &[u8], byte: u8) -> (r: bool)
    ensures
        r == bytes@.contains(byte),
{
    let mut k: usize = 0;
    while k < bytes.len()
        invariant
            0 <= k <= bytes@.len(),
            forall|j: int| 0 <= j < k ==> bytes@[j] != byte,
        decreases bytes@.len() - k,
    {
        if bytes[k] == byte {
            return true;
        }
        k += 1;
    }
    false
}

/// Whether one of the bytes of `pattern` from `from` up to `to` is in
/// `exclude`.
pub fn holds_excluded_byte(pattern: &[u8], exclude: &[u8], from: usize, to: usize) -> (r: bool)
    ensures
        r == holds_excluded(pattern@, exclude@, from as int, to as int),
{
    let mut k: usize = from;
    while k < to && k < pattern.len()
        invariant
            from <= k,
            forall|j: int|
                from <= j < k && 0 <= j < pattern@.len() ==> !exclude@.contains(
                    #[trigger] pattern@[j],
                ),
        decreases pattern@.len() - k,
    {
        if holds_byte(exclude, pattern[k]) {
            return true;
        }
        k += 1;
    }
    false
}

/// Whether `pattern` asks for nothing more from `from` on.
pub fn tail_open_from(pattern: &[u8], from: usize) -> (r: bool)
    ensures
        r == tail_is_open(pattern@, from as int),
{
    let len: usize = pattern.len();
    let mut i: usize = from;
    while i < len
        invariant
            len == pattern@.len(),
            from <= i,
            tail_is_open(pattern@, from as int) == tail_is_open(pattern@, i as int),
        decreases len - i,
    {
        let current: u8 = pattern[i];
        if current != STAR {
            return current == DOLLAR && i == len - 1;
        }
        i += 1;
    }
    true
}

/// Finds the part of `input` that `pattern` picks out: the places of its
/// first byte and of the byte behind its last.
pub fn find_wildcard_span(input: &[u8], pattern: &[u8], exclude: &[u8]) -> (r: Option<
    (usize, usize),
>)
    ensures
        match r {
            Some((first, end)) => wildcard_span(input@, pattern@, exclude@) == Some(
                (first as int, end as int),
            ) && first <= end <= input@.len(),
            None => wildcard_span(input@, pattern@, exclude@) is None,
        },
{
    let len: usize = input.len();
    let plen: usize = pattern.len();
    if plen == 0 {
        return None;
    }
    if plen == 1 && pattern[0] == STAR && len == 0 {
        return Some((0, 0));
    }
    let ghost goal = wildcard_span(input@, pattern@, exclude@);
    let mut at: usize = 0;
    let mut index: usize = 0;
    let mut jumpback: Option<usize> = None;
    let mut start: Option<usize> = None;
    while at < len
        invariant
            len == input@.len(),
            plen == pattern@.len(),
            0 <= at <= len,
            0 <= index <= plen,
            goal == wildcard_span(input@, pattern@, exclude@),
            match jumpback {
                Some(star) => star < plen - 1,
                None => true,
            },
            match start {
                Some(first) => first <= at,
                None => true,
            },
            goal == find_span(
                pattern@,
                exclude@,
                input@,
                at as int,
                Seeker {
                    index: index as int,
                    jumpback: match jumpback {
                        Some(star) => Some(star as int),
                        None => None,
                    },
                    start: match start {
                        Some(first) => Some(first as int),
                        None => None,
                    },
                },
            ),
        ensures
            at == len,
        decreases len - at, plen - index,
    {
        if index >= plen {
            return None;
        }
        let first: usize = match start {
            Some(first) => first,
            None => at,
        };
        let byte: u8 = input[at];
        let current: u8 = pattern[index];
        if current == STAR {
            if holds_byte(exclude, byte) {
                jumpback = None;
                index = 0;
                start = None;
                at += 1;
            } else if index < plen - 1 {
                jumpback = Some(index);
                index += 1;
                start = Some(first);
            } else {
                start = Some(first);
                at += 1;
            }
        } else if current == CARET && at == 0 && index == 0 {
            start = Some(0);
            index += 1;
        } else if current == byte {
            if index == plen - 1 {
                return Some((first, at + 1));
            }
            start = Some(first);
            index += 1;
            at += 1;
        } else if start.is_none() {
            at += 1;
        } else {
            match jumpback {
                Some(star) => {
                    if holds_byte(exclude, byte) || holds_excluded_byte(
                        pattern,
                        exclude,
                        star + 1,
                        index,
                    ) {
                        jumpback = None;
                        index = 0;
                        start = None;
                    } else {
                        index = star + 1;
                    }
                },
                None => {
                    index = 0;
                    start = None;
                },
            }
            at += 1;
        }
    }
    if tail_open_from(pattern, index) {
        match start {
            Some(first) => Some((first, len)),
            None => None,
        }
    } else {
        None
    }
}

/// The bytes that `pattern` picks out of `input`, if it picks any and they
/// are whole characters of the input.
pub open spec fn wildcard_part(input: Seq<u8>, pattern: Seq<u8>, exclude: Seq<u8>) -> Option<
    Seq<u8>,
> {
    match wildcard_span(input, pattern, exclude) {
        Some((first, end)) => if is_char_boundary(input, first) && is_char_boundary(input, end) {
            Some(input.subrange(first, end))
        } else {
            None
        },
        None => None,
    }
}

/// Returns the part of the input that the pattern picks out.
///
/// In the pattern `*` matches any number of bytes that are not in `exclude`,
/// `^` at its start matches the start of the input, and `$` at its end
/// matches the end of the input. A part that would begin or end inside a
/// character is not returned.
#[must_use]
pub fn wildcard_substring<'a>(input: &'a str, pattern: &str, exclude: &[u8]) -> (r: Option<
    &'a str,
>)
    ensures
        match wildcard_part(input.spec_bytes(), pattern.spec_bytes(), exclude@) {
            Some(part) => r matches Some(text) && text.spec_bytes() == part,
            None => r is None,
        },
{
    proof {
        encode_utf8_valid_utf8(input@);
    }
    match find_wildcard_span(input.as_bytes(), pattern.as_bytes(), exclude) {
        Some((first, end)) => {
            if !input.is_char_boundary(end) {
                return None;
            }
            proof {
                lemma_boundary_in_prefix(input.spec_bytes(), first as int, end as int);
            }
            let (head, _) = input.split_at(end);
            if !head.is_char_boundary(first) {
                return None;
            }
            let (_, part) = head.split_at(first);
            assert(head.spec_bytes().subrange(first as int, end as int)
                =~= input.spec_bytes().subrange(first as int, end as int));
            Some(part)
        },
        None => None,
    }
}

/// Those of `inputs` that `pattern` matches, in their order.
pub open spec fn matching_inputs(inputs: Seq<String>, pattern: Seq<char>) -> Seq<Seq<char>>
    decreases inputs.len(),
{
    if inputs.len() == 0 {
        Seq::empty()
    } else {
        let before = matching_inputs(inputs.drop_last(), pattern);
        if wildcard_matches(encode_utf8(inputs.last()@), encode_utf8(pattern)) {
            before.push(inputs.last()@)
        } else {
            before
        }
    }
}

/// For each pattern that matches any input, the inputs that it matches. A
/// pattern that stands in `patterns` more than once has its inputs once for
/// each time.
pub open spec fn matches_by_pattern(inputs: Seq<String>, patterns: Seq<String>) -> Map<
    Seq<char>,
    Seq<Seq<char>>,
>
    decreases patterns.len(),
{
    if patterns.len() == 0 {
        Map::empty()
    } else {
        let before = matches_by_pattern(inputs, patterns.drop_last());
        let pattern = patterns.last()@;
        let found = matching_inputs(inputs, pattern);
        if found.len() == 0 {
            before
        } else if before.contains_key(pattern) {
            before.insert(pattern, before[pattern] + found)
        } else {
            before.insert(pattern, found)
        }
    }
}

/// Returns those of `inputs` that `pattern` matches.
pub fn inputs_matching(inputs: &[String], pattern: &str) -> (r: Vec<String>)
    ensures
        texts_of(r@) == matching_inputs(inputs@, pattern@),
{
    let mut found: Vec<String> = Vec::new();
    let mut i: usize = 0;
    assert(inputs@.take(0) =~= Seq::<String>::empty());
    while i < inputs.len()
        invariant
            0 <= i <= inputs@.len(),
            texts_of(found@) =~= matching_inputs(inputs@.take(i as int), pattern@),
        decreases inputs@.len() - i,
    {
        assert(inputs@.take(i + 1).drop_last() =~= inputs@.take(i as int));
        if match_wildcard(inputs[i].as_str(), pattern) {
            found.push(inputs[i].clone());
        }
        i += 1;
    }
    assert(inputs@.take(i as int) =~= inputs@);
    found
}

/// Returns a map of all matches: from each pattern that matches any of the
/// inputs to the inputs that it matches.
#[must_use]
pub fn match_wildcards_multi(inputs: &[String], patterns: &[String]) -> (r: StringHashMap<
    Vec<String>,
>)
    ensures
        r@.dom() == matches_by_pattern(inputs@, patterns@).dom(),
        forall|pattern: Seq<char>| #[trigger]
            r@.contains_key(pattern) ==> texts_of(r@[pattern]@) == matches_by_pattern(
                inputs@,
                patterns@,
            )[pattern],
{
    let mut matches: StringHashMap<Vec<String>> = StringHashMap::new();
    let mut k: usize = 0;
    assert(patterns@.take(0) =~= Seq::<String>::empty());
    while k < patterns.len()
        invariant
            0 <= k <= patterns@.len(),
            matches@.dom() =~= matches_by_pattern(inputs@, patterns@.take(k as int)).dom(),
            forall|pattern: Seq<char>| #[trigger]
                matches@.contains_key(pattern) ==> texts_of(matches@[pattern]@)
                    == matches_by_pattern(inputs@, patterns@.take(k as int))[pattern],
        decreases patterns@.len() - k,
    {
        assert(patterns@.take(k + 1).drop_last() =~= patterns@.take(k as int));
        let pattern = patterns[k].as_str();
        let found = inputs_matching(inputs, pattern);
        if found.len() > 0 {
            let mut all: Vec<String> = Vec::new();
            match matches.get(pattern) {
                Some(earlier) => {
                    append_texts(&mut all, earlier.as_slice());
                },
                None => {},
            }
            append_texts(&mut all, found.as_slice());
            matches.insert(patterns[k].clone(), all);
        }
        k += 1;
    }
    assert(patterns@.take(k as int) =~= patterns@);
    matches
}

} // verus!
