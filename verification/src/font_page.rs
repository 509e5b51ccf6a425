//! The cache of webpages. A webpage is kept under a name made from its URL,
//! in memory and in a file of that name.
//!
//! The cache in memory is shared by all who resolve sources, and each step
//! on it is taken under one lock. Who finds nothing under a name leaves a
//! placeholder there in the same step, and then fetches the webpage outside
//! the lock; who finds a placeholder waits for the other to finish. So a
//! webpage is fetched by one caller at a time.
use crate::encoding::{bytes_of, slice_text};
use crate::numbers::{decimal, decimal_text, lemma_decimal_len};
use crate::text::{chars_replaced, replace_chars, replace_text, replaced};
use vstd::hash_map::StringHashMap;
use vstd::prelude::*;
use vstd::string::*;
use vstd::utf8::*;

verus! {

/// A webpage as it is cached.
#[derive(Debug)]
pub struct FontPage {
    /// When the webpage was fetched, in minutes since the epoch.
    pub time: u64,
    /// The text of the webpage. A page without contents is a placeholder: the
    /// webpage is being fetched.
    pub contents: Option<String>,
}

/// A `FontPage` as text.
pub struct FontPageView {
    pub time: u64,
    pub contents: Option<Seq<char>>,
}

impl View for FontPage {
    type V = FontPageView;

    open spec fn view(&self) -> FontPageView {
        FontPageView {
            time: self.time,
            contents: match self.contents {
                Some(text) => Some(text@),
                None => None,
            },
        }
    }
}

/// The page that stands for a webpage that is being fetched.
pub open spec fn placeholder() -> FontPageView {
    FontPageView { time: 0, contents: None }
}

impl Default for FontPage {
    fn default() -> (r: Self)
        ensures
            r@ == placeholder(),
    {
        FontPage { time: 0, contents: None }
    }
}

impl FontPage {
    /// Returns a copy of the page.
    pub fn copy(&self) -> (r: Self)
        ensures
            r@ == self@,
    {
        FontPage {
            time: self.time,
            contents: match &self.contents {
                Some(text) => Some(text.clone()),
                None => None,
            },
        }
    }

    /// Whether the webpage has to be fetched, given the page that was read
    /// from its file: there is no text, or a fresh one is asked for, or the
    /// text is `timeout` minutes old or older. The age is counted on a clock
    /// that wraps around.
    pub open spec fn outdated(self, now: u64, timeout: u64, refresh: bool) -> bool {
        self@.contents is None || refresh || minutes_between(self.time, now) >= timeout
    }

    /// Whether the webpage has to be fetched, given the page that was read
    /// from its file.
    pub fn needs_fetch(&self, now: u64, timeout: u64, refresh: bool) -> (r: bool)
        ensures
            r == self.outdated(now, timeout, refresh),
            self@.contents is Some && !refresh && self.time <= now && now - self.time < timeout
                ==> !r,
    {
        self.contents.is_none() || refresh || now.wrapping_sub(self.time) >= timeout
    }
}

/// The minutes from `then` to `now`, on a clock that wraps around.
pub open spec fn minutes_between(then: u64, now: u64) -> int {
    if now >= then {
        now - then
    } else {
        now - then + 0x1_0000_0000_0000_0000
    }
}

/// The whole minutes in `seconds`.
pub fn minutes_of(seconds: u64) -> (r: u64)
    ensures
        r == seconds / 60,
{
    seconds / 60
}

/// What a caller finds in the cache.
#[derive(Debug)]
pub enum Lookup {
    /// The webpage is cached: here it is.
    Ready(FontPage),
    /// Another caller is fetching the webpage: wait, and look again.
    Wait,
    /// Nothing was cached. A placeholder has been left, and the caller has to
    /// fetch the webpage and then to complete or to abandon the name.
    Claimed,
}

/// The cache of webpages in memory, by the names made from their URLs.
pub struct PageCache {
    pages: StringHashMap<FontPage>,
}

impl View for PageCache {
    type V = Map<Seq<char>, FontPageView>;

    closed spec fn view(&self) -> Map<Seq<char>, FontPageView> {
        Map::new(|name: Seq<char>| self.pages@.contains_key(name), |name: Seq<char>| self.pages@[name]@)
    }
}

/// What a caller finds under `name` in a cache, and what the cache holds
/// after the look.
pub open spec fn looked_up(cache: Map<Seq<char>, FontPageView>, name: Seq<char>) -> (
    Map<Seq<char>, FontPageView>,
    LookupView,
) {
    if cache.contains_key(name) {
        if cache[name].contents is Some {
            (cache, LookupView::Ready(cache[name]))
        } else {
            (cache, LookupView::Wait)
        }
    } else {
        (cache.insert(name, placeholder()), LookupView::Claimed)
    }
}

/// A `Lookup` as text.
pub enum LookupView {
    Ready(FontPageView),
    Wait,
    Claimed,
}

impl View for Lookup {
    type V = LookupView;

    open spec fn view(&self) -> LookupView {
        match self {
            Lookup::Ready(page) => LookupView::Ready(page@),
            Lookup::Wait => LookupView::Wait,
            Lookup::Claimed => LookupView::Claimed,
        }
    }
}

impl PageCache {
    /// An empty cache.
    pub fn new() -> (r: Self)
        ensures
            r@ == Map::<Seq<char>, FontPageView>::empty(),
    {
        let r = PageCache { pages: StringHashMap::new() };
        assert(r@ =~= Map::<Seq<char>, FontPageView>::empty());
        r
    }

    /// Looks for the webpage `name`, and claims the name if nothing is under
    /// it: this is one step, to be taken under the lock.
    pub fn claim(&mut self, name: &str) -> (r: Lookup)
        ensures
            (final(self)@, r@) == looked_up(old(self)@, name@),
    {
        match self.pages.get(name) {
            Some(page) => {
                if page.contents.is_some() {
                    Lookup::Ready(page.copy())
                } else {
                    Lookup::Wait
                }
            },
            None => {
                self.pages.insert(name.to_owned(), FontPage::default());
                assert(self@ =~= old(self)@.insert(name@, placeholder()));
                Lookup::Claimed
            },
        }
    }

    /// Whether the webpage `name` is being fetched: a caller that waits for
    /// it looks again once this is no longer so.
    pub fn is_pending(&self, name: &str) -> (r: bool)
        ensures
            r == (self@.contains_key(name@) && self@[name@].contents is None),
    {
        match self.pages.get(name) {
            Some(page) => page.contents.is_none(),
            None => false,
        }
    }

    /// Puts the fetched webpage under the name that was claimed for it.
    pub fn complete(&mut self, name: &str, page: FontPage)
        ensures
            final(self)@ == old(self)@.insert(name@, page@),
    {
        self.pages.insert(name.to_owned(), page);
        assert(self@ =~= old(self)@.insert(name@, page@));
    }

    /// Gives up the name that was claimed, after a fetch that failed: the
    /// next caller may try again.
    pub fn abandon(&mut self, name: &str)
        ensures
            final(self)@ == old(self)@.remove(name@),
    {
        self.pages.remove(name);
        assert(self@ =~= old(self)@.remove(name@));
    }
}

/// A webpage that was fetched less than `timeout` minutes ago is not fetched
/// again, unless a fresh one is asked for.
pub proof fn law_fresh_page_is_kept(page: FontPage, now: u64, timeout: u64)
    requires
        page@.contents is Some,
        page.time <= now,
        now - page.time < timeout,
    ensures
        !page.outdated(now, timeout, false),
{
}

/// Who claims a name is the only one to do so until the name is completed or
/// abandoned: whoever looks next is told to wait.
pub proof fn law_one_fetch_at_a_time(cache: Map<Seq<char>, FontPageView>, name: Seq<char>)
    requires
        looked_up(cache, name).1 is Claimed,
    ensures
        looked_up(looked_up(cache, name).0, name).1 is Wait,
        looked_up(looked_up(cache, name).0, name).0 == looked_up(cache, name).0,
{
}

/// No look at a cache ever leads to a second claim of a name that is claimed
/// or cached.
pub proof fn law_no_second_claim(cache: Map<Seq<char>, FontPageView>, name: Seq<char>)
    requires
        cache.contains_key(name),
    ensures
        !(looked_up(cache, name).1 is Claimed),
        looked_up(cache, name).0 == cache,
{
}

/// Once a webpage is completed, every caller finds that same webpage.
pub proof fn law_completed_is_found(
    cache: Map<Seq<char>, FontPageView>,
    name: Seq<char>,
    page: FontPageView,
)
    requires
        page.contents is Some,
    ensures
        looked_up(cache.insert(name, page), name).1 == LookupView::Ready(page),
        looked_up(cache.insert(name, page), name).0 == cache.insert(name, page),
{
}

/// A name that is abandoned can be claimed again.
pub proof fn law_abandoned_can_be_claimed(cache: Map<Seq<char>, FontPageView>, name: Seq<char>)
    ensures
        looked_up(cache.remove(name), name).1 is Claimed,
{
}

/// What `count` callers find who look for the webpage `name` one after the
/// other, and what the cache holds after the last of them.
pub open spec fn looked_up_by_all(cache: Map<Seq<char>, FontPageView>, name: Seq<char>, count: nat) -> (
    Map<Seq<char>, FontPageView>,
    Seq<LookupView>,
)
    decreases count,
{
    if count == 0 {
        (cache, Seq::empty())
    } else {
        let before = looked_up_by_all(cache, name, (count - 1) as nat);
        (looked_up(before.0, name).0, before.1.push(looked_up(before.0, name).1))
    }
}

/// Of any number of callers who look for a webpage that is not cached, the
/// first alone is told to fetch it, and all others are told to wait.
pub proof fn law_callers_fetch_once(
    cache: Map<Seq<char>, FontPageView>,
    name: Seq<char>,
    count: nat,
)
    requires
        !cache.contains_key(name),
        count > 0,
    ensures
        looked_up_by_all(cache, name, count).0 == cache.insert(name, placeholder()),
        looked_up_by_all(cache, name, count).1.len() == count,
        looked_up_by_all(cache, name, count).1[0] is Claimed,
        forall|i: int| 0 < i < count ==> looked_up_by_all(cache, name, count).1[i] is Wait,
    decreases count,
{
    if count > 1 {
        law_callers_fetch_once(cache, name, (count - 1) as nat);
    } else {
        assert(looked_up_by_all(cache, name, 0).1.len() == 0);
    }
}

/// Once a webpage is completed, any number of callers all find that same
/// webpage, and none of them is told to fetch.
pub proof fn law_callers_find_the_same(
    cache: Map<Seq<char>, FontPageView>,
    name: Seq<char>,
    page: FontPageView,
    count: nat,
)
    requires
        page.contents is Some,
    ensures
        looked_up_by_all(cache.insert(name, page), name, count).0 == cache.insert(name, page),
        looked_up_by_all(cache.insert(name, page), name, count).1.len() == count,
        forall|i: int|
            0 <= i < count ==> looked_up_by_all(cache.insert(name, page), name, count).1[i]
                == LookupView::Ready(page),
    decreases count,
{
    if count > 0 {
        law_callers_find_the_same(cache, name, page, (count - 1) as nat);
    }
}

/// The characters that a file name made from a URL does not keep.
pub open spec fn unfriendly_marks() -> Seq<char> {
    seq!['*', '/', '\\', '<', '>', ':', '|', '?', '=', '#']
}

/// A URL made fit for a file name: without `https://`, and with `_` for each
/// of `unfriendly_marks`.
pub open spec fn friendly(url: Seq<char>) -> Seq<char> {
    chars_replaced(replaced(url, "https://"@, Seq::empty()), unfriendly_marks(), seq!['_'])
}

/// The longest that a friendly URL may be, in bytes, to be kept whole.
pub const FILENAME_MAX: usize = 75;

/// The bytes that are kept of a friendly URL that is too long.
pub const FILENAME_KEPT: usize = 67;

/// How many digits of the hash stand behind a friendly URL that was cut.
pub const HASH_DIGITS: usize = 8;

/// The least hash that has `HASH_DIGITS` digits.
pub const HASH_MIN: u64 = 10_000_000;

/// Whether the file name of `url` can be made with the hash `hash`: either the
/// friendly URL is short enough, or it can be cut behind a character and the
/// hash has digits enough.
pub open spec fn has_file_name(url: Seq<char>, hash: u64) -> bool {
    bytes_of(friendly(url)).len() <= FILENAME_MAX || (is_char_boundary(
        bytes_of(friendly(url)),
        FILENAME_KEPT as int,
    ) && hash >= HASH_MIN)
}

/// The name of the file in which the webpage of `url` is cached: the friendly
/// URL and `.toml`. A friendly URL of more than `FILENAME_MAX` bytes is cut
/// to `FILENAME_KEPT` bytes, and the first digits of `hash` are put behind.
pub open spec fn file_name(url: Seq<char>, hash: u64) -> Seq<char> {
    if bytes_of(friendly(url)).len() <= FILENAME_MAX {
        friendly(url) + ".toml"@
    } else {
        decode_utf8(bytes_of(friendly(url)).subrange(0, FILENAME_KEPT as int)) + decimal(
            hash as nat,
        ).subrange(0, HASH_DIGITS as int) + ".toml"@
    }
}

/// The hash that the hasher of the standard library gives a text.
pub uninterp spec fn std_hash(text: Seq<char>) -> u64;

/// Hashes a text with `std::hash::DefaultHasher`, made by `new`. The
/// standard library says of such hashers that they are all the same: so the
/// same text gets the same hash each time, and the hash has a name.
#[verifier::external_body]
fn hash_text(text: &str) -> (r: u64)
    ensures
        r == std_hash(text@),
{
    let mut hasher = std::hash::DefaultHasher::new();
    std::hash::Hash::hash(text, &mut hasher);
    std::hash::Hasher::finish(&hasher)
}

/// Returns the name of the file in which the webpage of `url` is cached, made
/// with the hash `hash` of the URL.
pub fn file_name_with_hash(url: &str, hash: u64) -> (r: String)
    requires
        has_file_name(url@, hash),
    ensures
        r@ == file_name(url@, hash),
{
    let marks: [char; 10] = ['*', '/', '\\', '<', '>', ':', '|', '?', '=', '#'];
    proof {
        assert(marks@ =~= unfriendly_marks());
        reveal_strlit("");
        reveal_strlit("_");
        assert(""@ =~= Seq::<char>::empty());
        assert("_"@ =~= seq!['_']);
    }
    let plain = replace_chars(replace_text(url, "https://", "").as_str(), marks.as_slice(), "_");
    let mut out: String;
    if plain.as_str().as_bytes().len() > FILENAME_MAX {
        proof {
            encode_utf8_valid_utf8(plain@);
            is_char_boundary_start_end_of_seq(bytes_of(plain@));
        }
        let kept = slice_text(plain.as_str(), 0, FILENAME_KEPT);
        proof {
            encode_utf8_decode_utf8(kept@);
            lemma_decimal_len(hash as nat);
        }
        out = kept.to_owned();
        let digits = decimal_text(hash);
        out.append(digits.as_str().substring_char(0, HASH_DIGITS));
    } else {
        out = plain;
    }
    out.append(".toml");
    out
}

/// Returns the name of the file in which the webpage of `url` is cached, or
/// `None` where the URL has no such name.
pub fn filename_friendly(url: &str) -> (r: Option<String>)
    ensures
        match r {
            Some(name) => has_file_name(url@, std_hash(url@)) && name@ == file_name(
                url@,
                std_hash(url@),
            ),
            None => !has_file_name(url@, std_hash(url@)),
        },
{
    let hash = hash_text(url);
    let marks: [char; 10] = ['*', '/', '\\', '<', '>', ':', '|', '?', '=', '#'];
    proof {
        assert(marks@ =~= unfriendly_marks());
        reveal_strlit("");
        reveal_strlit("_");
        assert(""@ =~= Seq::<char>::empty());
        assert("_"@ =~= seq!['_']);
    }
    let plain = replace_chars(replace_text(url, "https://", "").as_str(), marks.as_slice(), "_");
    if plain.as_str().as_bytes().len() <= FILENAME_MAX || (plain.as_str().is_char_boundary(
        FILENAME_KEPT,
    ) && hash >= HASH_MIN) {
        Some(file_name_with_hash(url, hash))
    } else {
        None
    }
}

} // verus!
