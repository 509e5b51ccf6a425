//! Where the download of an item comes from, and how a source that is
//! declared becomes a URL to download: a repository becomes the webpage of
//! its releases, a webpage becomes the link found on it, and a direct URL is
//! the end.
use crate::encoding::{
    bytes_of, lemma_boundary_in_prefix, lemma_bytes_of_concat, lemma_plain_byte_is_char,
    slice_text,
};
use crate::error::Error;
use crate::file_action::{holds_tag, put_tag, tag_text, tag_token, with_tag};
use crate::text::{contains_any_char, ends_with_text, has_part, replace_text, replaced};
use crate::wildcard_laws::{has_plain_ends, law_plain_ends_cut_no_char};
use crate::wildcards::{
    match_wildcard, wildcard_matches, wildcard_part, wildcard_span, wildcard_substring,
};
use vstd::prelude::*;
use vstd::string::*;
use vstd::utf8::*;

verus! {

/// Where the download of an item comes from.
#[derive(Debug)]
pub enum Source {
    /// A release of a project on GitHub.
    GitHub { tag: Option<String>, author: String, project: String },
    /// A webpage that holds a link to the file.
    Webpage { tag: Option<String>, url: String },
    /// The URL of the file itself.
    Direct { tag: Option<String>, url: String },
    /// No source: what `take` leaves behind.
    Unset,
}

/// A `Source` as texts.
pub enum SourceView {
    GitHub { tag: Option<Seq<char>>, author: Seq<char>, project: Seq<char> },
    Webpage { tag: Option<Seq<char>>, url: Seq<char> },
    Direct { tag: Option<Seq<char>>, url: Seq<char> },
    Unset,
}

/// An optional text as its characters.
pub open spec fn text_of(text: Option<String>) -> Option<Seq<char>> {
    match text {
        Some(text) => Some(text@),
        None => None,
    }
}

impl View for Source {
    type V = SourceView;

    open spec fn view(&self) -> SourceView {
        match self {
            Source::GitHub { tag, author, project } => SourceView::GitHub {
                tag: text_of(*tag),
                author: author@,
                project: project@,
            },
            Source::Webpage { tag, url } => SourceView::Webpage { tag: text_of(*tag), url: url@ },
            Source::Direct { tag, url } => SourceView::Direct { tag: text_of(*tag), url: url@ },
            Source::Unset => SourceView::Unset,
        }
    }
}

/// The tag of a source, if it has one.
pub open spec fn tag_of(source: SourceView) -> Option<Seq<char>> {
    match source {
        SourceView::GitHub { tag, .. } => tag,
        SourceView::Webpage { tag, .. } => tag,
        SourceView::Direct { tag, .. } => tag,
        SourceView::Unset => None,
    }
}

/// The text `$file`, in whose place the file of an item is put.
pub open spec fn file_token() -> Seq<char> {
    seq!['$', 'f', 'i', 'l', 'e']
}

/// The tag of a repository for which none is given.
pub open spec fn latest() -> Seq<char> {
    seq!['l', 'a', 't', 'e', 's', 't']
}

/// The pattern `*://*.*/*` as bytes.
pub open spec fn url_pattern() -> Seq<u8> {
    seq![0x2au8, 0x3au8, 0x2fu8, 0x2fu8, 0x2au8, 0x2eu8, 0x2au8, 0x2fu8, 0x2au8]
}

/// The characters that neither the author nor the project of a repository
/// may hold.
pub open spec fn unsafe_marks() -> Seq<char> {
    seq!['/', '?', '#', '&', '$', '\\']
}

/// Whether `text` holds one of `unsafe_marks`.
pub open spec fn holds_unsafe_mark(text: Seq<char>) -> bool {
    exists|i: int, j: int|
        0 <= i < text.len() && 0 <= j < unsafe_marks().len() && text[i] == unsafe_marks()[j]
}

/// The start of the URL of the releases of a repository.
pub open spec fn releases_start() -> Seq<char> {
    "https://api.github.com/repos/"@
}

/// The end of the URL of the releases of a repository.
pub open spec fn releases_end() -> Seq<char> {
    "/releases/$tag"@
}

/// The URL of the releases of a repository, with `$tag` where the tag
/// belongs.
pub open spec fn releases_url(author: Seq<char>, project: Seq<char>) -> Seq<char> {
    releases_start() + author + seq!['/'] + project + releases_end()
}

/// The tag of a source once the caller has had its say: the caller's tag where
/// there is one; else the source's own; for a repository without one,
/// `latest`.
pub open spec fn settled_tag(source: SourceView, wanted: Option<Seq<char>>) -> SourceView {
    match source {
        SourceView::GitHub { tag, author, project } => SourceView::GitHub {
            tag: if wanted is Some {
                wanted
            } else if tag is None {
                Some(latest())
            } else {
                tag
            },
            author,
            project,
        },
        SourceView::Webpage { tag, url } => SourceView::Webpage {
            tag: if wanted is Some {
                wanted
            } else {
                tag
            },
            url,
        },
        SourceView::Direct { tag, url } => SourceView::Direct {
            tag: if wanted is Some {
                wanted
            } else {
                tag
            },
            url,
        },
        SourceView::Unset => SourceView::Unset,
    }
}

/// What is wrong with a source, if anything. For a repository, the first of:
/// no author, no project, an author with an unsafe mark, a project with one.
/// For a webpage: its URL is not of the shape `*://*.*/*`, or it holds `$tag`
/// and there is no tag. For a direct URL: it does not end with `$file`.
pub open spec fn source_problem(source: SourceView) -> Option<Error> {
    match source {
        SourceView::GitHub { author, project, .. } => {
            if author.len() == 0 {
                Some(Error::MissingAuthor)
            } else if project.len() == 0 {
                Some(Error::MissingProject)
            } else if holds_unsafe_mark(author) {
                Some(Error::InvalidAuthor)
            } else if holds_unsafe_mark(project) {
                Some(Error::InvalidProject)
            } else {
                None
            }
        },
        SourceView::Webpage { tag, url } => {
            if !wildcard_matches(bytes_of(url), url_pattern()) {
                Some(Error::InvalidUrl)
            } else if tag is None && has_part(url, tag_token()) {
                Some(Error::UnresolvedTag)
            } else {
                None
            }
        },
        SourceView::Direct { url, .. } => {
            if !file_token().is_suffix_of(url) {
                Some(Error::MissingFilePlaceholder)
            } else {
                None
            }
        },
        SourceView::Unset => Some(Error::NoSource),
    }
}

/// A source that has no problem, with its placeholders filled: the tag in the
/// URL of a webpage, the file in a direct URL.
pub open spec fn filled_source(source: SourceView, file: Seq<char>) -> SourceView {
    match source {
        SourceView::Webpage { tag, url } => SourceView::Webpage { tag, url: with_tag(url, tag) },
        SourceView::Direct { tag, url } => SourceView::Direct {
            tag,
            url: replaced(url, file_token(), file),
        },
        other => other,
    }
}

/// The webpage of the releases of a repository; any other source as it is.
pub open spec fn as_webpage(source: SourceView) -> SourceView {
    match source {
        SourceView::GitHub { tag, author, project } => SourceView::Webpage {
            tag,
            url: releases_url(author, project),
        },
        other => other,
    }
}

/// The pattern by which the link to `file` is found on a webpage:
/// `https://*` and then the file.
pub open spec fn link_pattern(file: Seq<char>) -> Seq<char> {
    "https://*"@ + file
}

/// The byte `"`.
pub const QUOTE: u8 = 0x22;

/// The place of the first `"` in `page` at or behind `from`, or the length
/// of `page` where there is none.
pub open spec fn next_quote(page: Seq<u8>, from: int) -> int
    decreases page.len() - from,
{
    if from < 0 || from >= page.len() {
        page.len() as int
    } else if page[from] == QUOTE {
        from
    } else {
        next_quote(page, from + 1)
    }
}

/// The first link that `pattern` picks out of a stretch of `page` between two
/// `"`, the stretches taken in order from `from` on.
pub open spec fn first_link(page: Seq<u8>, pattern: Seq<u8>, from: int) -> Option<Seq<u8>>
    decreases page.len() - from,
{
    if from < 0 || from > page.len() {
        None
    } else {
        let end = next_quote(page, from);
        if from <= end <= page.len() {
            match wildcard_part(page.subrange(from, end), pattern, Seq::empty()) {
                Some(link) => Some(link),
                None => if end >= page.len() {
                    None
                } else {
                    first_link(page, pattern, end + 1)
                },
            }
        } else {
            None
        }
    }
}

/// The link to `file` on the webpage `page`, if it holds one.
pub open spec fn direct_link(page: Seq<char>, file: Seq<char>) -> Option<Seq<char>> {
    match first_link(bytes_of(page), bytes_of(link_pattern(file)), 0) {
        Some(link) => Some(decode_utf8(link)),
        None => None,
    }
}

/// The first part that `pattern` finds in a stretch of `page` between two
/// `"`, the stretches taken in order from `from` on, whether or not the part
/// is made of whole characters.
pub open spec fn first_found(page: Seq<u8>, pattern: Seq<u8>, from: int) -> Option<Seq<u8>>
    decreases page.len() - from,
{
    if from < 0 || from > page.len() {
        None
    } else {
        let end = next_quote(page, from);
        if from <= end <= page.len() {
            match wildcard_span(page.subrange(from, end), pattern, Seq::empty()) {
                Some((first, behind)) => Some(page.subrange(from, end).subrange(first, behind)),
                None => if end >= page.len() {
                    None
                } else {
                    first_found(page, pattern, end + 1)
                },
            }
        } else {
            None
        }
    }
}

/// `next_quote` is a place at or behind `from` that holds a `"`, or the end.
proof fn lemma_next_quote(page: Seq<u8>, from: int)
    requires
        0 <= from <= page.len(),
    ensures
        from <= next_quote(page, from) <= page.len(),
        next_quote(page, from) < page.len() ==> page[next_quote(page, from)] == QUOTE,
    decreases page.len() - from,
{
    if from < page.len() && page[from] != QUOTE {
        lemma_next_quote(page, from + 1);
    }
}

/// On a webpage, a pattern that begins and ends with a plain byte finds whole
/// characters only: no link is passed over for cutting a character.
pub proof fn law_links_are_whole(page: Seq<u8>, pattern: Seq<u8>, from: int)
    requires
        valid_utf8(page),
        has_plain_ends(pattern),
        0 <= from <= page.len(),
        is_char_boundary(page, from),
    ensures
        first_link(page, pattern, from) == first_found(page, pattern, from),
    decreases page.len() - from,
{
    let end = next_quote(page, from);
    lemma_next_quote(page, from);
    if end < page.len() {
        lemma_plain_byte_is_char(page, end);
    } else {
        is_char_boundary_start_end_of_seq(page);
    }
    let head = page.subrange(0, end);
    let stretch = page.subrange(from, end);
    lemma_boundary_in_prefix(page, from, end);
    valid_utf8_split(head, from);
    assert(head.subrange(from, end) =~= stretch);
    law_plain_ends_cut_no_char(stretch, pattern, Seq::empty());
    if end < page.len() {
        law_links_are_whole(page, pattern, end + 1);
    }
}

/// The pattern by which the link to a file is found begins and ends with a
/// plain byte, where the name of the file is empty or ends with an ASCII
/// character: so the link to such a file is never passed over.
pub proof fn law_link_to_plain_file_is_whole(page: Seq<char>, file: Seq<char>)
    requires
        file.len() == 0 || is_ascii_chars(seq![file.last()]),
    ensures
        has_plain_ends(bytes_of(link_pattern(file))),
        first_link(bytes_of(page), bytes_of(link_pattern(file)), 0) == first_found(
            bytes_of(page),
            bytes_of(link_pattern(file)),
            0,
        ),
{
    let start = "https://*"@;
    reveal_strlit("https://*");
    assert(is_ascii_chars(start));
    is_ascii_chars_encode_utf8(start);
    lemma_bytes_of_concat(start, file);
    assert(bytes_of(start)[0] == start[0] as u8);
    if file.len() > 0 {
        let front = file.drop_last();
        let last = seq![file.last()];
        assert(file =~= front + last);
        lemma_bytes_of_concat(front, last);
        is_ascii_chars_encode_utf8(last);
        assert(bytes_of(last)[0] == last[0] as u8);
        assert(bytes_of(link_pattern(file)).last() == bytes_of(last)[0]);
    } else {
        assert(start + file =~= start);
        assert(bytes_of(start)[8] == start[8] as u8);
    }
    encode_utf8_valid_utf8(page);
    is_char_boundary_start_end_of_seq(bytes_of(page));
    law_links_are_whole(bytes_of(page), bytes_of(link_pattern(file)), 0);
}

/// What a source becomes once the webpage it points to has been read: a
/// webpage becomes the direct URL of the link found on `page`; any other
/// source stays.
pub open spec fn linked_source(source: SourceView, page: Seq<char>, file: Seq<char>) -> Result<
    SourceView,
    Error,
> {
    match source {
        SourceView::Webpage { tag, .. } => match direct_link(page, file) {
            Some(url) => Ok(SourceView::Direct { tag, url }),
            None => Err(Error::LinkNotFound),
        },
        other => Ok(other),
    }
}

/// What a source becomes once the webpage it points to has been read: a
/// repository is first taken as the webpage of its releases, checked and
/// with its tag filled in; a webpage becomes the direct URL of the link found
/// on `page`; a direct URL and no source stay.
pub open spec fn resolved_source(source: SourceView, page: Seq<char>, file: Seq<char>) -> Result<
    SourceView,
    Error,
> {
    match source {
        SourceView::GitHub { .. } => {
            match source_problem(as_webpage(source)) {
                Some(error) => Err(error),
                None => linked_source(filled_source(as_webpage(source), file), page, file),
            }
        },
        other => linked_source(other, page, file),
    }
}

/// A source that is resolved is direct, or was no source; and a direct URL
/// stays as it is.
pub proof fn law_resolved_is_direct(source: SourceView, page: Seq<char>, file: Seq<char>)
    ensures
        match resolved_source(source, page, file) {
            Ok(resolved) => (resolved is Direct && tag_of(resolved) == tag_of(source)) || (source
                is Unset && resolved is Unset),
            Err(_) => !(source is Direct),
        },
        source is Direct ==> resolved_source(source, page, file) == Ok::<SourceView, Error>(source),
{
}

/// Returns a copy of an optional text.
pub fn copy_text(text: &Option<String>) -> (r: Option<String>)
    ensures
        text_of(r) == text_of(*text),
{
    match text {
        Some(text) => Some(text.clone()),
        None => None,
    }
}

/// An optional text as an optional `&str`.
pub fn borrow_text(text: &Option<String>) -> (r: Option<&str>)
    ensures
        tag_text(r) == text_of(*text),
{
    match text {
        Some(text) => Some(text.as_str()),
        None => None,
    }
}

impl Source {
    /// Checks the source and fills its placeholders: the tag in the URL of a
    /// webpage, `file` in a direct URL. A source that is refused is left as
    /// it was.
    pub fn validate(&mut self, file: &str) -> (r: Result<(), Error>)
        ensures
            match source_problem(old(self)@) {
                Some(error) => r == Err::<(), Error>(error) && final(self)@ == old(self)@,
                None => r is Ok && final(self)@ == filled_source(old(self)@, file@),
            },
    {
        match self {
            Source::GitHub { author, project, .. } => {
                let marks: [char; 6] = ['/', '?', '#', '&', '$', '\\'];
                assert(marks@ =~= unsafe_marks());
                if author.as_str().unicode_len() == 0 {
                    return Err(Error::MissingAuthor);
                }
                if project.as_str().unicode_len() == 0 {
                    return Err(Error::MissingProject);
                }
                if contains_any_char(author.as_str(), marks.as_slice()) {
                    return Err(Error::InvalidAuthor);
                }
                if contains_any_char(project.as_str(), marks.as_slice()) {
                    return Err(Error::InvalidProject);
                }
                Ok(())
            },
            Source::Webpage { tag, url } => {
                let pattern = "*://*.*/*";
                proof {
                    reveal_strlit("*://*.*/*");
                    is_ascii_spec_bytes(pattern);
                    assert(pattern.spec_bytes() =~= url_pattern());
                }
                if !match_wildcard(url.as_str(), pattern) {
                    return Err(Error::InvalidUrl);
                }
                let tag = borrow_text(tag);
                if tag.is_none() && holds_tag(url.as_str()) {
                    return Err(Error::UnresolvedTag);
                }
                *url = put_tag(url.as_str(), tag);
                Ok(())
            },
            Source::Direct { url, .. } => {
                proof {
                    reveal_strlit("$file");
                    assert("$file"@ =~= file_token());
                }
                if !ends_with_text(url.as_str(), "$file") {
                    return Err(Error::MissingFilePlaceholder);
                }
                *url = replace_text(url.as_str(), "$file", file);
                Ok(())
            },
            Source::Unset => Err(Error::NoSource),
        }
    }

    /// Settles the tag of the source: the caller's tag where there is one;
    /// else the source's own; for a repository without one, `latest`.
    pub fn validate_tag(&mut self, override_version: Option<&str>)
        ensures
            final(self)@ == settled_tag(old(self)@, tag_text(override_version)),
    {
        match self {
            Source::GitHub { tag, .. } => {
                match override_version {
                    Some(version) => {
                        *tag = Some(version.to_owned());
                    },
                    None => {
                        if tag.is_none() {
                            proof {
                                reveal_strlit("latest");
                                assert("latest"@ =~= latest());
                            }
                            *tag = Some("latest".to_owned());
                        }
                    },
                }
            },
            Source::Webpage { tag, .. } => {
                match override_version {
                    Some(version) => {
                        *tag = Some(version.to_owned());
                    },
                    None => {},
                }
            },
            Source::Direct { tag, .. } => {
                match override_version {
                    Some(version) => {
                        *tag = Some(version.to_owned());
                    },
                    None => {},
                }
            },
            Source::Unset => {},
        }
    }

    /// Turns a repository into the webpage of its releases, checked and with
    /// its tag filled in; any other source stays as it is. Returns the URL of
    /// the webpage that has to be read next, if the source is now a webpage.
    pub fn webpage_to_read(&mut self, file: &str) -> (r: Result<Option<String>, Error>)
        ensures
            match old(self)@ {
                SourceView::GitHub { .. } => match source_problem(as_webpage(old(self)@)) {
                    Some(error) => r == Err::<Option<String>, Error>(error) && final(self)@
                        == old(self)@,
                    None => final(self)@ == filled_source(as_webpage(old(self)@), file@) && (
                    r matches Ok(Some(url)) && final(self)@ matches SourceView::Webpage {
                        url: page,
                        ..
                    } && url@ == page),
                },
                SourceView::Webpage { url: page, .. } => final(self)@ == old(self)@ && (
                r matches Ok(Some(url)) && url@ == page),
                _ => final(self)@ == old(self)@ && r matches Ok(None),
            },
    {
        match self {
            Source::GitHub { tag, author, project } => {
                let mut url = "https://api.github.com/repos/".to_owned();
                url.append(author.as_str());
                proof {
                    reveal_strlit("/");
                    assert("/"@ =~= seq!['/']);
                }
                url.append("/");
                url.append(project.as_str());
                url.append("/releases/$tag");
                let mut webpage = Source::Webpage { tag: copy_text(tag), url };
                assert(webpage@ == as_webpage(old(self)@));
                match webpage.validate(file) {
                    Err(error) => {
                        return Err(error);
                    },
                    Ok(()) => {},
                }
                *self = webpage;
            },
            _ => {},
        }
        match self {
            Source::Webpage { url, .. } => Ok(Some(url.clone())),
            _ => Ok(None),
        }
    }

    /// Resolves the source with the text of the webpage that it points to: a
    /// repository is taken as the webpage of its releases, and a webpage
    /// becomes the direct URL of the link to `file` found in `page`. A direct
    /// URL stays as it is. A source that cannot be resolved is left as it
    /// was.
    pub fn into_direct_url(&mut self, page: &str, file: &str) -> (r: Result<(), Error>)
        ensures
            match resolved_source(old(self)@, page@, file@) {
                Ok(source) => r is Ok && final(self)@ == source,
                Err(error) => r == Err::<(), Error>(error) && final(self)@ == old(self)@,
            },
    {
        let mut next = match self {
            Source::GitHub { tag, author, project } => Source::GitHub {
                tag: copy_text(tag),
                author: author.clone(),
                project: project.clone(),
            },
            Source::Webpage { tag, url } => Source::Webpage { tag: copy_text(tag), url: url.clone() },
            _ => {
                return Ok(());
            },
        };
        assert(next@ == old(self)@);
        match next.webpage_to_read(file) {
            Err(error) => {
                return Err(error);
            },
            Ok(_) => {},
        }
        match next {
            Source::Webpage { tag, .. } => {
                match Self::find_direct_link(page, file) {
                    Ok(url) => {
                        *self = Source::Direct { tag, url };
                        Ok(())
                    },
                    Err(error) => Err(error),
                }
            },
            _ => Ok(()),
        }
    }

    /// Returns the link to `file` found in the text of a webpage: the first
    /// part between two `"` in which `https://*` followed by the file is
    /// found.
    pub fn find_direct_link(font_page_contents: &str, file: &str) -> (r: Result<String, Error>)
        ensures
            match direct_link(font_page_contents@, file@) {
                Some(link) => r matches Ok(url) && url@ == link,
                None => r matches Err(error) && error == Error::LinkNotFound,
            },
    {
        let mut pattern = "https://*".to_owned();
        pattern.append(file);
        let page = font_page_contents.as_bytes();
        let ghost wanted = bytes_of(link_pattern(file@));
        proof {
            encode_utf8_valid_utf8(font_page_contents@);
            is_char_boundary_start_end_of_seq(page@);
        }
        let mut from: usize = 0;
        loop
            invariant
                0 <= from <= page@.len(),
                page@ == font_page_contents.spec_bytes(),
                valid_utf8(page@),
                is_char_boundary(page@, from as int),
                is_char_boundary(page@, page@.len() as int),
                wanted == bytes_of(pattern@),
                wanted == bytes_of(link_pattern(file@)),
                first_link(page@, wanted, 0) == first_link(page@, wanted, from as int),
            decreases page@.len() - from,
        {
            let mut end: usize = from;
            while end < page.len() && page[end] != QUOTE
                invariant
                    from <= end <= page@.len(),
                    next_quote(page@, from as int) == next_quote(page@, end as int),
                decreases page@.len() - end,
            {
                end += 1;
            }
            proof {
                if end < page@.len() {
                    lemma_plain_byte_is_char(page@, end as int);
                }
            }
            let stretch = slice_text(font_page_contents, from, end);
            let nothing: [u8; 0] = [];
            assert(nothing@ =~= Seq::<u8>::empty());
            assert(next_quote(page@, from as int) == end);
            match wildcard_substring(stretch, pattern.as_str(), nothing.as_slice()) {
                Some(link) => {
                    let url = link.to_owned();
                    proof {
                        encode_utf8_decode_utf8(url@);
                    }
                    return Ok(url);
                },
                None => {},
            }
            if end >= page.len() {
                return Err(Error::LinkNotFound);
            }
            from = end + 1;
        }
    }

    /// The URL of the download, once the source is direct.
    pub fn ref_direct_url(&self) -> (r: Result<&str, Error>)
        ensures
            match self@ {
                SourceView::Direct { url, .. } => r matches Ok(text) && text@ == url,
                _ => r matches Err(error) && error == Error::NotDirect,
            },
    {
        match self {
            Source::Direct { url, .. } => Ok(url.as_str()),
            _ => Err(Error::NotDirect),
        }
    }

    /// The URL of the webpage, while the source is a webpage.
    pub fn ref_webpage_url(&self) -> (r: Result<&str, Error>)
        ensures
            match self@ {
                SourceView::Webpage { url, .. } => r matches Ok(text) && text@ == url,
                _ => r matches Err(error) && error == Error::NotWebpage,
            },
    {
        match self {
            Source::Webpage { url, .. } => Ok(url.as_str()),
            _ => Err(Error::NotWebpage),
        }
    }

    /// The tag of the source, if it has one.
    pub fn ref_tag(&self) -> (r: Result<Option<&str>, Error>)
        ensures
            match self@ {
                SourceView::GitHub { tag, .. } => r matches Ok(text) && tag_text(text) == tag,
                SourceView::Webpage { tag, .. } => r matches Ok(text) && tag_text(text) == tag,
                SourceView::Direct { tag, .. } => r matches Ok(text) && tag_text(text) == tag,
                SourceView::Unset => r matches Err(error) && error == Error::NoSource,
            },
    {
        match self {
            Source::GitHub { tag, .. } => Ok(borrow_text(tag)),
            Source::Webpage { tag, .. } => Ok(borrow_text(tag)),
            Source::Direct { tag, .. } => Ok(borrow_text(tag)),
            Source::Unset => Err(Error::NoSource),
        }
    }

    /// Takes the source out and leaves no source behind.
    pub fn take(&mut self) -> (r: Self)
        ensures
            r@ == old(self)@,
            final(self)@ == SourceView::Unset,
    {
        let mut output = Source::Unset;
        std::mem::swap(self, &mut output);
        output
    }
}

} // verus!
