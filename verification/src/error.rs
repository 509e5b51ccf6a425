//! The errors of the library, and the classes they fall into.
use vstd::prelude::*;

verus! {

/// The classes of errors. An error of the class `Concurrency` ends the whole
/// run; one of any other class ends the work on one item only.
#[derive(Debug, Clone, Copy, PartialEq, Eq, Structural)]
pub enum ErrorClass {
    /// A descriptor is malformed.
    Validation,
    /// A source could not be resolved to a download.
    Resolution,
    /// The transport failed.
    Network,
    /// A download does not have the expected checksum.
    Integrity,
    /// The file system failed while staging, installing or removing.
    Io,
    /// Another run holds the lock.
    Concurrency,
    /// The command line is malformed.
    Usage,
}

/// What can go wrong.
#[derive(Debug, Clone, Copy, PartialEq, Eq, Structural)]
pub enum Error {
    /// The name of an item is empty, or leaves the directory it belongs in.
    InvalidName,
    /// An action that extracts includes nothing.
    EmptyInclude,
    /// A text holds `$tag`, and there is no tag to put in its place.
    UnresolvedTag,
    /// The file of an action has no extension.
    MissingExtension,
    /// The file of an action ends with `*`.
    TrailingWildcard,
    /// The file of an action is too short to be a file name.
    InvalidFile,
    /// The file of an action that extracts is no archive of a known kind.
    UnsupportedExtension,
    /// A descriptor has no action.
    NoAction,
    /// A descriptor has no source.
    NoSource,
    /// A repository is given without its author.
    MissingAuthor,
    /// A repository is given without its project.
    MissingProject,
    /// The author of a repository holds a character that a URL would not
    /// keep.
    InvalidAuthor,
    /// The project of a repository holds a character that a URL would not
    /// keep.
    InvalidProject,
    /// The URL of a webpage is malformed.
    InvalidUrl,
    /// A direct URL does not end with `$file`.
    MissingFilePlaceholder,
    /// A webpage holds no link to the file.
    LinkNotFound,
    /// A source that is not yet direct was asked for its direct URL.
    NotDirect,
    /// A source that is no webpage was asked for the URL of its webpage.
    NotWebpage,
    /// The transport failed.
    Transport,
    /// No data was downloaded for an item that is to be staged.
    NoData,
    /// The digest of a download is not in the checksum text.
    ChecksumMismatch,
    /// There is no checksum text to look for the digest in.
    NoChecksum,
    /// A checksum in a file of its own needs the webpage of the item, and
    /// there is none.
    NoPage,
    /// The file system refused an operation.
    FileSystem,
    /// A download is no archive that can be read.
    BadArchive,
    /// Another run holds the lock.
    Locked,
    /// The first word of the command line names no action.
    UnrecognizedAction,
    /// An argument of the command line is not known.
    UnknownArgument,
    /// An argument of the command line lacks its value.
    MissingValue,
    /// The value of an argument of the command line is no number.
    InvalidNumber,
}

/// The class of each error.
pub open spec fn class_of(error: Error) -> ErrorClass {
    match error {
        Error::InvalidName
        | Error::EmptyInclude
        | Error::UnresolvedTag
        | Error::MissingExtension
        | Error::TrailingWildcard
        | Error::InvalidFile
        | Error::UnsupportedExtension
        | Error::NoAction
        | Error::NoSource
        | Error::MissingAuthor
        | Error::MissingProject
        | Error::InvalidAuthor
        | Error::InvalidProject
        | Error::MissingFilePlaceholder => ErrorClass::Validation,
        Error::InvalidUrl
        | Error::LinkNotFound
        | Error::NotDirect
        | Error::NotWebpage
        | Error::NoPage =>
            ErrorClass::Resolution,
        Error::Transport => ErrorClass::Network,
        Error::ChecksumMismatch | Error::NoChecksum => ErrorClass::Integrity,
        Error::NoData | Error::FileSystem | Error::BadArchive => ErrorClass::Io,
        Error::Locked => ErrorClass::Concurrency,
        Error::UnrecognizedAction
        | Error::UnknownArgument
        | Error::MissingValue
        | Error::InvalidNumber => ErrorClass::Usage,
    }
}

impl Error {
    /// The class of the error.
    pub fn class(&self) -> (r: ErrorClass)
        ensures
            r == class_of(*self),
    {
        match self {
            Error::InvalidName
            | Error::EmptyInclude
            | Error::UnresolvedTag
            | Error::MissingExtension
            | Error::TrailingWildcard
            | Error::InvalidFile
            | Error::UnsupportedExtension
            | Error::NoAction
            | Error::NoSource
            | Error::MissingAuthor
            | Error::MissingProject
            | Error::InvalidAuthor
            | Error::InvalidProject
            | Error::MissingFilePlaceholder => ErrorClass::Validation,
            Error::InvalidUrl
        | Error::LinkNotFound
        | Error::NotDirect
        | Error::NotWebpage
        | Error::NoPage =>
                ErrorClass::Resolution,
            Error::Transport => ErrorClass::Network,
            Error::ChecksumMismatch | Error::NoChecksum => ErrorClass::Integrity,
            Error::NoData | Error::FileSystem | Error::BadArchive => ErrorClass::Io,
            Error::Locked => ErrorClass::Concurrency,
            Error::UnrecognizedAction
            | Error::UnknownArgument
            | Error::MissingValue
            | Error::InvalidNumber => ErrorClass::Usage,
        }
    }

    /// Whether the error ends the whole run, and not only the work on one
    /// item.
    pub fn ends_run(&self) -> (r: bool)
        ensures
            r == (class_of(*self) == ErrorClass::Concurrency),
    {
        match self {
            Error::Locked => true,
            _ => false,
        }
    }
}

/// How the work on one item of a batch ended.
#[derive(Debug, Clone, Copy, PartialEq, Eq, Structural)]
pub enum Outcome {
    /// The item is done.
    Done,
    /// There was nothing to do for the item. This is no failure.
    Idle,
    /// The work on the item failed. The other items are worked on all the
    /// same.
    Failed(Error),
}

/// Whether one of the items of a batch failed.
pub open spec fn any_failed(outcomes: Seq<Outcome>) -> bool {
    exists|i: int| 0 <= i < outcomes.len() && (#[trigger] outcomes[i]) is Failed
}

/// Whether a batch has failed: it has if and only if one of its items has.
pub fn batch_failed(outcomes: &[Outcome]) -> (r: bool)
    ensures
        r == any_failed(outcomes@),
{
    let mut i: usize = 0;
    while i < outcomes.len()
        invariant
            0 <= i <= outcomes@.len(),
            forall|j: int| 0 <= j < i ==> !((#[trigger] outcomes@[j]) is Failed),
        decreases outcomes@.len() - i,
    {
        match outcomes[i] {
            Outcome::Failed(_) => {
                return true;
            },
            _ => {},
        }
        i += 1;
    }
    false
}

} // verus!
