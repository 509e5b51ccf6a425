//! What is done with a download: an archive is extracted, or a single file is
//! kept as it is.
use crate::encoding::bytes_of;
use crate::error::Error;
use crate::text::{
    after_last, before_last, contains_text, each_replaced, has_part, join_texts, joined,
    last_place_of, lemma_last_place_of, replace_in_each, replace_text, replaced, same_text,
    text_after_last, text_before_last, texts_of,
};
use crate::wildcards::{match_wildcard, wildcard_matches};
use vstd::prelude::*;
use vstd::string::*;

verus! {

/// The kinds of archive, told by the extension of the file.
#[derive(Debug, Clone, Copy, PartialEq, Eq, Structural)]
pub enum FileType {
    Zip,
    Tar,
    TarGz,
    /// Known, and not supported: no file has this kind.
    TarXz,
    Unsupported,
}

impl Default for FileType {
    fn default() -> (r: Self)
        ensures
            r == FileType::Unsupported,
    {
        FileType::Unsupported
    }
}

/// What is done with the download of an item.
#[derive(Debug)]
pub enum FileAction {
    /// The download is an archive. Those of its files are kept that one of
    /// `includes` matches and none of `excludes` does.
    Extract {
        file: String,
        includes: Vec<String>,
        excludes: Option<Vec<String>>,
        keep_folders: Option<bool>,
        file_type: FileType,
    },
    /// The download is the one file to install.
    SingleFile { file: String },
    /// No action: what `take` leaves behind.
    Unset,
}

/// A `FileAction` as texts.
pub enum FileActionView {
    Extract {
        file: Seq<char>,
        includes: Seq<Seq<char>>,
        excludes: Option<Seq<Seq<char>>>,
        keep_folders: Option<bool>,
        file_type: FileType,
    },
    SingleFile { file: Seq<char> },
    Unset,
}

impl View for FileAction {
    type V = FileActionView;

    open spec fn view(&self) -> FileActionView {
        match self {
            FileAction::Extract { file, includes, excludes, keep_folders, file_type } =>
                FileActionView::Extract {
                    file: file@,
                    includes: texts_of(includes@),
                    excludes: match excludes {
                        Some(list) => Some(texts_of(list@)),
                        None => None,
                    },
                    keep_folders: *keep_folders,
                    file_type: *file_type,
                },
            FileAction::SingleFile { file } => FileActionView::SingleFile { file: file@ },
            FileAction::Unset => FileActionView::Unset,
        }
    }
}

/// The text `$tag`, in whose place the tag of an item is put.
pub open spec fn tag_token() -> Seq<char> {
    seq!['$', 't', 'a', 'g']
}

/// The tag as a text, if there is one.
pub open spec fn tag_text(tag: Option<&str>) -> Option<Seq<char>> {
    match tag {
        Some(tag) => Some(tag@),
        None => None,
    }
}

/// `text` with the tag put in the place of each `$tag`, if there is a tag.
pub open spec fn with_tag(text: Seq<char>, tag: Option<Seq<char>>) -> Seq<char> {
    match tag {
        Some(tag) => replaced(text, tag_token(), tag),
        None => text,
    }
}

/// Each of `list` with the tag put in the place of each `$tag`, if there is a
/// tag.
pub open spec fn each_with_tag(list: Seq<Seq<char>>, tag: Option<Seq<char>>) -> Seq<Seq<char>> {
    match tag {
        Some(tag) => each_replaced(list, tag_token(), tag),
        None => list,
    }
}

/// The pattern `*.*` as bytes.
pub open spec fn any_dot_any() -> Seq<u8> {
    seq![0x2au8, 0x2eu8, 0x2au8]
}

/// Whether the pattern `*.*` matches `file`.
pub open spec fn has_extension(file: Seq<char>) -> bool {
    wildcard_matches(bytes_of(file), any_dot_any())
}

/// A file has an extension if and only if it holds a `.`.
pub proof fn law_extension_needs_dot(file: Seq<char>)
    ensures
        has_extension(file) <==> bytes_of(file).contains(0x2eu8),
{
    crate::wildcard_laws::law_star_byte_star(bytes_of(file), 0x2eu8);
    assert(any_dot_any() =~= seq![crate::wildcards::STAR, 0x2eu8, crate::wildcards::STAR]);
}

/// What is wrong with the file of an action, if anything; the first of: it
/// has no extension, it ends with `*`, it is shorter than two bytes, it holds
/// `$tag` and there is no tag.
pub open spec fn file_problem(file: Seq<char>, tag: Option<Seq<char>>) -> Option<Error> {
    if !has_extension(file) {
        Some(Error::MissingExtension)
    } else if file.len() > 0 && file.last() == '*' {
        Some(Error::TrailingWildcard)
    } else if bytes_of(file).len() < 2 {
        Some(Error::InvalidFile)
    } else if tag is None && has_part(file, tag_token()) {
        Some(Error::UnresolvedTag)
    } else {
        None
    }
}

/// The kind of archive that the name `file` stands for: what is behind its
/// last `.` says it, and `gz` only behind `.tar`.
pub open spec fn file_type_of(file: Seq<char>) -> FileType {
    let extension = after_last(file, '.');
    if extension == seq!['z', 'i', 'p'] {
        FileType::Zip
    } else if extension == seq!['t', 'a', 'r'] {
        FileType::Tar
    } else if extension == seq!['g', 'z'] && last_place_of(file, '.') >= 0 && after_last(
        before_last(file, '.'),
        '.',
    ) == seq!['t', 'a', 'r'] {
        FileType::TarGz
    } else {
        FileType::Unsupported
    }
}

/// What is wrong with an action, if anything; the first of: it extracts and
/// includes nothing, its patterns hold `$tag` and there is no tag, its file has
/// a problem, it extracts and its file is no archive of a supported kind.
pub open spec fn action_problem(action: FileActionView, tag: Option<Seq<char>>) -> Option<Error> {
    match action {
        FileActionView::Extract { file, includes, excludes, .. } => {
            if includes.len() == 0 {
                Some(Error::EmptyInclude)
            } else if tag is None && (has_part(joined(includes), tag_token()) || (excludes is Some
                && has_part(joined(excludes->0), tag_token()))) {
                Some(Error::UnresolvedTag)
            } else if file_problem(file, tag) is Some {
                file_problem(file, tag)
            } else if file_type_of(with_tag(file, tag)) == FileType::Unsupported {
                Some(Error::UnsupportedExtension)
            } else {
                None
            }
        },
        FileActionView::SingleFile { file } => file_problem(file, tag),
        FileActionView::Unset => Some(Error::NoAction),
    }
}

/// An action with the tag put in the place of each `$tag`, and the kind of
/// its archive set.
pub open spec fn resolved_action(action: FileActionView, tag: Option<Seq<char>>) -> FileActionView {
    match action {
        FileActionView::Extract { file, includes, excludes, keep_folders, .. } =>
            FileActionView::Extract {
                file: with_tag(file, tag),
                includes: each_with_tag(includes, tag),
                excludes: match excludes {
                    Some(list) => Some(each_with_tag(list, tag)),
                    None => None,
                },
                keep_folders,
                file_type: file_type_of(with_tag(file, tag)),
            },
        FileActionView::SingleFile { file } => FileActionView::SingleFile {
            file: with_tag(file, tag),
        },
        FileActionView::Unset => FileActionView::Unset,
    }
}

/// Returns `text` with the tag put in the place of each `$tag`, if there is a
/// tag.
pub fn put_tag(text: &str, tag: Option<&str>) -> (r: String)
    ensures
        r@ == with_tag(text@, tag_text(tag)),
{
    proof {
        reveal_strlit("$tag");
        assert("$tag"@ =~= tag_token());
    }
    match tag {
        Some(tag) => replace_text(text, "$tag", tag),
        None => text.to_owned(),
    }
}

/// Whether `text` holds `$tag`.
pub fn holds_tag(text: &str) -> (r: bool)
    ensures
        r == has_part(text@, tag_token()),
{
    proof {
        reveal_strlit("$tag");
        assert("$tag"@ =~= tag_token());
    }
    contains_text(text, "$tag")
}

impl FileAction {
    /// Checks the action and puts the tag in the place of each `$tag` in its
    /// file and its patterns. An action that is refused is left as it was.
    pub fn validate(&mut self, tag: Option<&str>) -> (r: Result<(), Error>)
        ensures
            match action_problem(old(self)@, tag_text(tag)) {
                Some(error) => r == Err::<(), Error>(error) && final(self)@ == old(self)@,
                None => r is Ok && final(self)@ == resolved_action(old(self)@, tag_text(tag)),
            },
    {
        match self {
            FileAction::Extract { file, includes, excludes, file_type, .. } => {
                if includes.len() == 0 {
                    return Err(Error::EmptyInclude);
                }
                if tag.is_none() {
                    if holds_tag(join_texts(includes.as_slice()).as_str()) {
                        return Err(Error::UnresolvedTag);
                    }
                    match excludes {
                        Some(list) => {
                            if holds_tag(join_texts(list.as_slice()).as_str()) {
                                return Err(Error::UnresolvedTag);
                            }
                        },
                        None => {},
                    }
                }
                let mut new_file = file.clone();
                match Self::validate_file(&mut new_file, tag) {
                    Err(error) => {
                        return Err(error);
                    },
                    Ok(()) => {},
                }
                let new_type = Self::get_file_type(new_file.as_str());
                if new_type == FileType::Unsupported {
                    return Err(Error::UnsupportedExtension);
                }
                match tag {
                    Some(tag) => {
                        proof {
                            reveal_strlit("$tag");
                            assert("$tag"@ =~= tag_token());
                        }
                        *includes = replace_in_each(includes.as_slice(), "$tag", tag);
                        match excludes {
                            Some(list) => {
                                *list = replace_in_each(list.as_slice(), "$tag", tag);
                            },
                            None => {},
                        }
                    },
                    None => {},
                }
                *file = new_file;
                *file_type = new_type;
                Ok(())
            },
            FileAction::SingleFile { file } => Self::validate_file(file, tag),
            FileAction::Unset => Err(Error::NoAction),
        }
    }

    /// Checks the file of an action and puts the tag in the place of each
    /// `$tag` in it. A file that is refused is left as it was.
    pub fn validate_file(file: &mut String, tag: Option<&str>) -> (r: Result<(), Error>)
        ensures
            match file_problem(old(file)@, tag_text(tag)) {
                Some(error) => r == Err::<(), Error>(error) && final(file)@ == old(file)@,
                None => r is Ok && final(file)@ == with_tag(old(file)@, tag_text(tag)),
            },
    {
        let pattern = "*.*";
        proof {
            reveal_strlit("*.*");
            is_ascii_spec_bytes(pattern);
            assert(pattern.spec_bytes() =~= any_dot_any());
            reveal_strlit("*");
        }
        if !match_wildcard(file.as_str(), pattern) {
            return Err(Error::MissingExtension);
        }
        if crate::text::ends_with_text(file.as_str(), "*") {
            assert(file@.last() == '*') by {
                assert("*"@ =~= seq!['*']);
                assert(file@.subrange(file@.len() - 1, file@.len() as int)[0] == '*');
            }
            return Err(Error::TrailingWildcard);
        }
        assert(!(file@.len() > 0 && file@.last() == '*')) by {
            if file@.len() > 0 && file@.last() == '*' {
                assert("*"@ =~= seq!['*']);
                assert(file@.subrange(file@.len() - 1, file@.len() as int) =~= seq!['*']);
            }
        }
        if file.as_str().as_bytes().len() < 2 {
            return Err(Error::InvalidFile);
        }
        match tag {
            Some(_) => {
                *file = put_tag(file.as_str(), tag);
            },
            None => {
                if holds_tag(file.as_str()) {
                    return Err(Error::UnresolvedTag);
                }
            },
        }
        Ok(())
    }

    /// The kind of archive that the name `file` stands for.
    pub fn get_file_type(file: &str) -> (r: FileType)
        ensures
            r == file_type_of(file@),
    {
        proof {
            reveal_strlit("zip");
            reveal_strlit("tar");
            reveal_strlit("gz");
            assert("zip"@ =~= seq!['z', 'i', 'p']);
            assert("tar"@ =~= seq!['t', 'a', 'r']);
            assert("gz"@ =~= seq!['g', 'z']);
            lemma_last_place_of(file@, '.');
        }
        let extension = text_after_last(file, '.');
        if same_text(extension, "zip") {
            FileType::Zip
        } else if same_text(extension, "tar") {
            FileType::Tar
        } else if same_text(extension, "gz") {
            if extension.unicode_len() == file.unicode_len() {
                assert(last_place_of(file@, '.') < 0);
                return FileType::Unsupported;
            }
            let inner = text_after_last(text_before_last(file, '.'), '.');
            if same_text(inner, "tar") {
                FileType::TarGz
            } else {
                FileType::Unsupported
            }
        } else {
            FileType::Unsupported
        }
    }

    /// The file of the action.
    pub fn ref_file(&self) -> (r: Result<&str, Error>)
        ensures
            match self@ {
                FileActionView::Extract { file, .. } => r matches Ok(text) && text@ == file,
                FileActionView::SingleFile { file } => r matches Ok(text) && text@ == file,
                FileActionView::Unset => r matches Err(error) && error == Error::NoAction,
            },
    {
        match self {
            FileAction::Extract { file, .. } => Ok(file.as_str()),
            FileAction::SingleFile { file } => Ok(file.as_str()),
            FileAction::Unset => Err(Error::NoAction),
        }
    }

    /// Takes the action out and leaves no action behind.
    pub fn take(&mut self) -> (r: Self)
        ensures
            r@ == old(self)@,
            final(self)@ == FileActionView::Unset,
    {
        let mut output = FileAction::Unset;
        std::mem::swap(self, &mut output);
        output
    }
}

} // verus!
