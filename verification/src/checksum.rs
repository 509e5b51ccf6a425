//! The check of a download against a checksum: the digest of the download,
//! written in hexadecimal, has to stand somewhere in the text that was
//! obtained as checksum.
use crate::error::Error;
use crate::file_action::{file_problem, tag_text, with_tag, FileAction};
use crate::source::{direct_link, Source};
use crate::text::{contains_text, has_part, stands_at};
use vstd::prelude::*;
use vstd::string::*;

verus! {

/// The checksum of a download, by the algorithm of its digest.
///
/// `file` is first the name of the file that holds the checksum, if it is
/// given, and later the text in which the digest is looked for.
#[derive(Debug)]
pub enum Checksum {
    SHA224 { file: Option<String> },
    SHA256 { file: Option<String> },
    SHA384 { file: Option<String> },
    SHA512 { file: Option<String> },
}

/// The algorithms of digests.
#[derive(Debug, Clone, Copy, PartialEq, Eq, Structural)]
pub enum Algorithm {
    Sha224,
    Sha256,
    Sha384,
    Sha512,
}

/// A `Checksum` as text.
pub struct ChecksumView {
    pub algorithm: Algorithm,
    pub file: Option<Seq<char>>,
}

impl View for Checksum {
    type V = ChecksumView;

    open spec fn view(&self) -> ChecksumView {
        match self {
            Checksum::SHA224 { file } => ChecksumView {
                algorithm: Algorithm::Sha224,
                file: crate::source::text_of(*file),
            },
            Checksum::SHA256 { file } => ChecksumView {
                algorithm: Algorithm::Sha256,
                file: crate::source::text_of(*file),
            },
            Checksum::SHA384 { file } => ChecksumView {
                algorithm: Algorithm::Sha384,
                file: crate::source::text_of(*file),
            },
            Checksum::SHA512 { file } => ChecksumView {
                algorithm: Algorithm::Sha512,
                file: crate::source::text_of(*file),
            },
        }
    }
}

/// The SHA-224 digest of `data`.
pub uninterp spec fn sha224_of(data: Seq<u8>) -> Seq<u8>;

/// The SHA-256 digest of `data`.
pub uninterp spec fn sha256_of(data: Seq<u8>) -> Seq<u8>;

/// The SHA-384 digest of `data`.
pub uninterp spec fn sha384_of(data: Seq<u8>) -> Seq<u8>;

/// The SHA-512 digest of `data`.
pub uninterp spec fn sha512_of(data: Seq<u8>) -> Seq<u8>;

/// The digest of `data` by `algorithm`.
pub open spec fn digest_of(algorithm: Algorithm, data: Seq<u8>) -> Seq<u8> {
    match algorithm {
        Algorithm::Sha224 => sha224_of(data),
        Algorithm::Sha256 => sha256_of(data),
        Algorithm::Sha384 => sha384_of(data),
        Algorithm::Sha512 => sha512_of(data),
    }
}

/// How many bytes a digest by `algorithm` has.
pub open spec fn digest_len(algorithm: Algorithm) -> nat {
    match algorithm {
        Algorithm::Sha224 => 28,
        Algorithm::Sha256 => 32,
        Algorithm::Sha384 => 48,
        Algorithm::Sha512 => 64,
    }
}

/// Computes the SHA-224 digest of `data` with `sha2::Sha224`, through
/// `Digest::digest`. The result is a function of the data alone, and is
/// named; its 28 bytes are the size that the type states.
#[verifier::external_body]
fn sha224(data: &[u8]) -> (r: Vec<u8>)
    ensures
        r@ == sha224_of(data@),
        r@.len() == 28,
{
    <sha2::Sha224 as sha2::Digest>::digest(data).to_vec()
}

/// Computes the SHA-256 digest of `data` with `sha2::Sha256`, through
/// `Digest::digest`. The result is a function of the data alone, and is
/// named; its 32 bytes are the size that the type states.
#[verifier::external_body]
fn sha256(data: &[u8]) -> (r: Vec<u8>)
    ensures
        r@ == sha256_of(data@),
        r@.len() == 32,
{
    <sha2::Sha256 as sha2::Digest>::digest(data).to_vec()
}

/// Computes the SHA-384 digest of `data` with `sha2::Sha384`, through
/// `Digest::digest`. The result is a function of the data alone, and is
/// named; its 48 bytes are the size that the type states.
#[verifier::external_body]
fn sha384(data: &[u8]) -> (r: Vec<u8>)
    ensures
        r@ == sha384_of(data@),
        r@.len() == 48,
{
    <sha2::Sha384 as sha2::Digest>::digest(data).to_vec()
}

/// Computes the SHA-512 digest of `data` with `sha2::Sha512`, through
/// `Digest::digest`. The result is a function of the data alone, and is
/// named; its 64 bytes are the size that the type states.
#[verifier::external_body]
fn sha512(data: &[u8]) -> (r: Vec<u8>)
    ensures
        r@ == sha512_of(data@),
        r@.len() == 64,
{
    <sha2::Sha512 as sha2::Digest>::digest(data).to_vec()
}

/// Returns the digest of `data` by `algorithm`.
pub fn digest(algorithm: Algorithm, data: &[u8]) -> (r: Vec<u8>)
    ensures
        r@ == digest_of(algorithm, data@),
        r@.len() == digest_len(algorithm),
{
    match algorithm {
        Algorithm::Sha224 => sha224(data),
        Algorithm::Sha256 => sha256(data),
        Algorithm::Sha384 => sha384(data),
        Algorithm::Sha512 => sha512(data),
    }
}

/// The hexadecimal digit for a number below 16.
pub open spec fn hex_digit(value: int) -> char {
    if value == 0 {
        '0'
    } else if value == 1 {
        '1'
    } else if value == 2 {
        '2'
    } else if value == 3 {
        '3'
    } else if value == 4 {
        '4'
    } else if value == 5 {
        '5'
    } else if value == 6 {
        '6'
    } else if value == 7 {
        '7'
    } else if value == 8 {
        '8'
    } else if value == 9 {
        '9'
    } else if value == 10 {
        'a'
    } else if value == 11 {
        'b'
    } else if value == 12 {
        'c'
    } else if value == 13 {
        'd'
    } else if value == 14 {
        'e'
    } else {
        'f'
    }
}

/// `bytes` in hexadecimal: two digits for each byte, the letters small.
pub open spec fn hex_of(bytes: Seq<u8>) -> Seq<char> {
    Seq::new(
        2 * bytes.len(),
        |i: int|
            if i % 2 == 0 {
                hex_digit(bytes[i / 2] as int / 16)
            } else {
                hex_digit(bytes[i / 2] as int % 16)
            },
    )
}

/// Returns the hexadecimal digit for `value`.
fn hex_digit_text(value: u8) -> (r: &'static str)
    requires
        value < 16,
    ensures
        r@ == seq![hex_digit(value as int)],
{
    proof {
        reveal_strlit("0");
        reveal_strlit("1");
        reveal_strlit("2");
        reveal_strlit("3");
        reveal_strlit("4");
        reveal_strlit("5");
        reveal_strlit("6");
        reveal_strlit("7");
        reveal_strlit("8");
        reveal_strlit("9");
        reveal_strlit("a");
        reveal_strlit("b");
        reveal_strlit("c");
        reveal_strlit("d");
        reveal_strlit("e");
        reveal_strlit("f");
    }
    let r = if value == 0 {
        "0"
    } else if value == 1 {
        "1"
    } else if value == 2 {
        "2"
    } else if value == 3 {
        "3"
    } else if value == 4 {
        "4"
    } else if value == 5 {
        "5"
    } else if value == 6 {
        "6"
    } else if value == 7 {
        "7"
    } else if value == 8 {
        "8"
    } else if value == 9 {
        "9"
    } else if value == 10 {
        "a"
    } else if value == 11 {
        "b"
    } else if value == 12 {
        "c"
    } else if value == 13 {
        "d"
    } else if value == 14 {
        "e"
    } else {
        "f"
    };
    assert(r@ =~= seq![hex_digit(value as int)]);
    r
}

/// Returns `bytes` in hexadecimal.
pub fn hex_text(bytes: &[u8]) -> (r: String)
    ensures
        r@ == hex_of(bytes@),
{
    let mut out = String::new();
    let mut i: usize = 0;
    while i < bytes.len()
        invariant
            0 <= i <= bytes@.len(),
            out@ =~= hex_of(bytes@.take(i as int)),
        decreases bytes@.len() - i,
    {
        let byte = bytes[i];
        out.append(hex_digit_text(byte / 16));
        out.append(hex_digit_text(byte % 16));
        assert(out@ =~= hex_of(bytes@.take(i + 1))) by {
            assert(out@.len() == 2 * (i + 1));
            assert forall|k: int| 0 <= k < 2 * (i + 1) implies out@[k] == hex_of(
                bytes@.take(i + 1),
            )[k] by {
                if k < 2 * i {
                    assert(out@[k] == hex_of(bytes@.take(i as int))[k]);
                    assert(bytes@.take(i as int)[k / 2] == bytes@.take(i + 1)[k / 2]);
                } else {
                    assert(k / 2 == i);
                }
            }
        }
        i += 1;
    }
    assert(bytes@.take(i as int) =~= bytes@);
    out
}

/// Whether the check of `data` against the checksum text `text` passes: the
/// digest of the data, in hexadecimal, stands somewhere in the text.
pub open spec fn checksum_passes(algorithm: Algorithm, data: Seq<u8>, text: Seq<char>) -> bool {
    has_part(text, hex_of(digest_of(algorithm, data)))
}

/// What there is to fetch for a checksum, if anything, and the checksum with
/// what is known so far.
pub open spec fn checksum_step(
    checksum: ChecksumView,
    font_page: Option<Seq<char>>,
    tag: Option<Seq<char>>,
) -> Result<(ChecksumView, Option<Seq<char>>), Error> {
    match checksum.file {
        None => Ok((ChecksumView { algorithm: checksum.algorithm, file: font_page }, None)),
        Some(file) => match file_problem(file, tag) {
            Some(error) => Err(error),
            None => match font_page {
                None => Err(Error::NoPage),
                Some(page) => match direct_link(page, with_tag(file, tag)) {
                    Some(link) => Ok(
                        (
                            ChecksumView {
                                algorithm: checksum.algorithm,
                                file: Some(with_tag(file, tag)),
                            },
                            Some(link),
                        ),
                    ),
                    None => Err(Error::LinkNotFound),
                },
            },
        },
    }
}

impl Checksum {
    /// The algorithm of the digest.
    pub fn algorithm(&self) -> (r: Algorithm)
        ensures
            r == self@.algorithm,
    {
        match self {
            Checksum::SHA224 { .. } => Algorithm::Sha224,
            Checksum::SHA256 { .. } => Algorithm::Sha256,
            Checksum::SHA384 { .. } => Algorithm::Sha384,
            Checksum::SHA512 { .. } => Algorithm::Sha512,
        }
    }

    /// Puts `text` in the place of what the checksum holds as its file.
    pub fn set_text(&mut self, text: Option<String>)
        ensures
            final(self)@ == (ChecksumView {
                algorithm: old(self)@.algorithm,
                file: crate::source::text_of(text),
            }),
    {
        match self {
            Checksum::SHA224 { file } => {
                *file = text;
            },
            Checksum::SHA256 { file } => {
                *file = text;
            },
            Checksum::SHA384 { file } => {
                *file = text;
            },
            Checksum::SHA512 { file } => {
                *file = text;
            },
        }
    }

    /// What the checksum holds as its file.
    pub fn text(&self) -> (r: Option<&str>)
        ensures
            tag_text(r) == self@.file,
    {
        match self {
            Checksum::SHA224 { file } => crate::source::borrow_text(file),
            Checksum::SHA256 { file } => crate::source::borrow_text(file),
            Checksum::SHA384 { file } => crate::source::borrow_text(file),
            Checksum::SHA512 { file } => crate::source::borrow_text(file),
        }
    }

    /// Finds out where the checksum text comes from. Without a file of its
    /// own the checksum is looked for in the webpage of the item itself, and
    /// nothing has to be fetched. Else the file is checked, the tag is put in
    /// it, and the link to it is looked for in the webpage: that link is
    /// returned, and its text has to be fetched and set. A checksum that is
    /// refused is left as it was.
    pub fn obtain(&mut self, font_page: Option<String>, tag: Option<&str>) -> (r: Result<
        Option<String>,
        Error,
    >)
        ensures
            match checksum_step(old(self)@, crate::source::text_of(font_page), tag_text(tag)) {
                Ok((checksum, link)) => final(self)@ == checksum && r is Ok
                    && crate::source::text_of(r->Ok_0) == link,
                Err(error) => r == Err::<Option<String>, Error>(error) && final(self)@ == old(self)@,
            },
    {
        let mut file = match self.text() {
            None => {
                self.set_text(font_page);
                return Ok(None);
            },
            Some(file) => file.to_owned(),
        };
        match FileAction::validate_file(&mut file, tag) {
            Err(error) => {
                return Err(error);
            },
            Ok(()) => {},
        }
        let page = match font_page {
            None => {
                return Err(Error::NoPage);
            },
            Some(page) => page,
        };
        match Source::find_direct_link(page.as_str(), file.as_str()) {
            Ok(link) => {
                self.set_text(Some(file));
                Ok(Some(link))
            },
            Err(error) => Err(error),
        }
    }

    /// Computes the digest of `data` and looks for it, in hexadecimal, in the
    /// checksum text. The check passes if the text holds it anywhere.
    pub fn check(&self, data: &[u8]) -> (r: Result<(), Error>)
        ensures
            match self@.file {
                Some(text) => if checksum_passes(self@.algorithm, data@, text) {
                    r is Ok
                } else {
                    r == Err::<(), Error>(Error::ChecksumMismatch)
                },
                None => r == Err::<(), Error>(Error::NoChecksum),
            },
    {
        match self.text() {
            Some(text) => Self::check_digest(digest(self.algorithm(), data).as_slice(), text),
            None => Err(Error::NoChecksum),
        }
    }

    /// Looks for `digest`, in hexadecimal, in the checksum text `text`.
    pub fn check_digest(digest: &[u8], text: &str) -> (r: Result<(), Error>)
        ensures
            has_part(text@, hex_of(digest@)) ==> r is Ok,
            !has_part(text@, hex_of(digest@)) ==> r == Err::<(), Error>(Error::ChecksumMismatch),
    {
        if contains_text(text, hex_text(digest).as_str()) {
            Ok(())
        } else {
            Err(Error::ChecksumMismatch)
        }
    }
}

/// Two runs of bytes with the same hexadecimal text are the same.
pub proof fn lemma_hex_tells_apart(a: Seq<u8>, b: Seq<u8>)
    requires
        hex_of(a) == hex_of(b),
    ensures
        a == b,
{
    assert(a.len() == b.len()) by {
        assert(hex_of(a).len() == 2 * a.len());
        assert(hex_of(b).len() == 2 * b.len());
    }
    assert forall|i: int| 0 <= i < a.len() implies a[i] == b[i] by {
        let even = 2 * i;
        let odd = 2 * i + 1;
        assert(even / 2 == i && even % 2 == 0);
        assert(odd / 2 == i && odd % 2 == 1);
        let x = a[i] as int;
        let y = b[i] as int;
        assert(hex_of(a)[even] == hex_digit(x / 16));
        assert(hex_of(b)[even] == hex_digit(y / 16));
        assert(hex_of(a)[odd] == hex_digit(x % 16));
        assert(hex_of(b)[odd] == hex_digit(y % 16));
        assert(0 <= x / 16 < 16 && 0 <= y / 16 < 16);
        assert(x / 16 == y / 16);
        assert(x % 16 == y % 16);
    }
    assert(a =~= b);
}

/// Against a checksum text that is just the digest of some data, a download
/// with any other digest of that length fails.
pub proof fn law_other_digest_fails(expected: Seq<u8>, found: Seq<u8>)
    requires
        expected.len() == found.len(),
        expected != found,
    ensures
        !has_part(hex_of(expected), hex_of(found)),
{
    if has_part(hex_of(expected), hex_of(found)) {
        let at = choose|at: int| stands_at(hex_of(expected), at, hex_of(found));
        assert(at == 0);
        assert(hex_of(expected).subrange(0, hex_of(found).len() as int) =~= hex_of(expected));
        lemma_hex_tells_apart(expected, found);
    }
}

/// Against a checksum text that is just the digest of the expected data, a
/// download passes if and only if it has that digest.
pub proof fn law_check_compares_digests(algorithm: Algorithm, expected: Seq<u8>, data: Seq<u8>)
    requires
        digest_of(algorithm, expected).len() == digest_of(algorithm, data).len(),
    ensures
        checksum_passes(algorithm, data, hex_of(digest_of(algorithm, expected))) <==> digest_of(
            algorithm,
            data,
        ) == digest_of(algorithm, expected),
{
    let wanted = digest_of(algorithm, expected);
    let found = digest_of(algorithm, data);
    if wanted != found {
        law_other_digest_fails(wanted, found);
    } else {
        assert(stands_at(hex_of(wanted), 0, hex_of(found))) by {
            assert(hex_of(wanted).subrange(0, hex_of(found).len() as int) =~= hex_of(found));
        }
    }
}

} // verus!
