//! Staging: what of a download is to be written to the staging directory of
//! an item, and under which paths. An archive is read entry by entry; folders
//! are kept on request, and of the files those that the patterns select.
use crate::encoding::bytes_of;
use crate::error::Error;
use crate::file_action::{FileAction, FileActionView, FileType};
use crate::text::{after_last, text_after_last, texts_of};
use crate::wildcards::{any_wildcard_matches, match_any_wildcard, patterns_as_bytes};
use vstd::prelude::*;
use vstd::string::*;

verus! {

/// A file that is to be written to the staging directory.
#[derive(Debug)]
pub struct StagedFile {
    /// The path of the file below the staging directory.
    pub path: String,
    /// What the file holds.
    pub contents: Vec<u8>,
}

/// A `StagedFile` as text and bytes.
pub struct StagedFileView {
    pub path: Seq<char>,
    pub contents: Seq<u8>,
}

impl View for StagedFile {
    type V = StagedFileView;

    open spec fn view(&self) -> StagedFileView {
        StagedFileView { path: self.path@, contents: self.contents@ }
    }
}

impl StagedFile {
    /// Returns the path that the file is written to, in the staging directory
    /// `staging_path` of the item.
    pub fn target(&self, staging_path: &str) -> (r: String)
        ensures
            r@ == staging_path@ + self.path@,
    {
        let mut out = staging_path.to_owned();
        out.append(self.path.as_str());
        out
    }
}

/// What is to be written to the staging directory of an item: first the
/// folders, then the files, each in the order given.
#[derive(Debug)]
pub struct Staging {
    /// The folders to make, as paths below the staging directory.
    pub folders: Vec<String>,
    /// The files to write.
    pub files: Vec<StagedFile>,
}

/// A `Staging` as text and bytes.
pub struct StagingView {
    pub folders: Seq<Seq<char>>,
    pub files: Seq<StagedFileView>,
}

impl View for Staging {
    type V = StagingView;

    open spec fn view(&self) -> StagingView {
        StagingView { folders: texts_of(self.folders@), files: staged_files(self.files@) }
    }
}

/// The files of a staging, as text and bytes.
pub open spec fn staged_files(files: Seq<StagedFile>) -> Seq<StagedFileView> {
    Seq::new(files.len(), |i: int| files[i]@)
}

/// The error of `zip`.
#[verifier::external_type_specification]
#[verifier::external_body]
pub struct ExZipError(zip::result::ZipError);

/// The error of reading and writing.
#[verifier::external_type_specification]
#[verifier::external_body]
pub struct ExIoError(std::io::Error);

/// The names of the entries of the zip archive `data`, in the order of the
/// archive; `None` where `data` is no zip archive that can be read.
pub uninterp spec fn zip_names_of(data: Seq<u8>) -> Option<Seq<Seq<char>>>;

/// What the entry `name` of the zip archive `data` holds; `None` where it
/// cannot be read.
pub uninterp spec fn zip_bytes_of(data: Seq<u8>, name: Seq<char>) -> Option<Seq<u8>>;

/// The paths of the entries of the tar archive `data`, in the order of the
/// archive; `None` where `data` is no tar archive that can be read.
pub uninterp spec fn tar_names_of(data: Seq<u8>) -> Option<Seq<Seq<char>>>;

/// What the entry at `index` of the tar archive `data` holds; `None` where it
/// cannot be read.
pub uninterp spec fn tar_bytes_of(data: Seq<u8>, index: nat) -> Option<Seq<u8>>;

/// What the gzip data `data` holds; `None` where it cannot be read.
pub uninterp spec fn gunzip_of(data: Seq<u8>) -> Option<Seq<u8>>;

/// Lists the entries of a zip archive in memory, with `zip::ZipArchive::new`
/// and `file_names`. What is listed depends on the bytes alone, and is
/// named; nothing else is claimed of it.
#[verifier::external_body]
fn zip_names(data: &[u8]) -> (r: Result<Vec<String>, zip::result::ZipError>)
    ensures
        zip_names_of(data@) == match r {
            Ok(names) => Some(texts_of(names@)),
            Err(_) => None,
        },
{
    let archive = zip::ZipArchive::new(std::io::Cursor::new(data))?;
    Ok(archive.file_names().map(|name| name.to_owned()).collect())
}

/// Reads one entry of a zip archive in memory, with `zip::ZipArchive::new`,
/// `by_name` and `read_to_end`. What is read depends on the bytes and the
/// name alone, and is named; nothing else is claimed of it.
#[verifier::external_body]
fn zip_bytes(data: &[u8], name: &str) -> (r: Result<Vec<u8>, zip::result::ZipError>)
    ensures
        zip_bytes_of(data@, name@) == match r {
            Ok(contents) => Some(contents@),
            Err(_) => None,
        },
{
    let mut archive = zip::ZipArchive::new(std::io::Cursor::new(data))?;
    let mut file = archive.by_name(name)?;
    let mut contents = Vec::new();
    std::io::Read::read_to_end(&mut file, &mut contents)?;
    Ok(contents)
}

/// Lists the entries of a tar archive in memory, with `tar::Archive::new`,
/// `entries` and, for each entry, `path`. A path that is no text is an error.
/// What is listed depends on the bytes alone, and is named; nothing else is
/// claimed of it.
#[verifier::external_body]
fn tar_names(data: &[u8]) -> (r: Result<Vec<String>, std::io::Error>)
    ensures
        tar_names_of(data@) == match r {
            Ok(names) => Some(texts_of(names@)),
            Err(_) => None,
        },
{
    let mut archive = tar::Archive::new(std::io::Cursor::new(data));
    let entries = archive.entries()?;
    entries.map(
        |entry|
            match entry?.path()?.to_str() {
                Some(path) => Ok(path.to_owned()),
                None => Err(std::io::Error::from(std::io::ErrorKind::InvalidData)),
            },
    ).collect()
}

/// Reads the entry at `index` of a tar archive in memory, with
/// `tar::Archive::new`, `entries` and `read_to_end`. An index behind the last
/// entry is an error. What is read depends on the bytes and the index alone,
/// and is named; nothing else is claimed of it.
#[verifier::external_body]
fn tar_bytes(data: &[u8], index: usize) -> (r: Result<Vec<u8>, std::io::Error>)
    ensures
        tar_bytes_of(data@, index as nat) == match r {
            Ok(contents) => Some(contents@),
            Err(_) => None,
        },
{
    let mut archive = tar::Archive::new(std::io::Cursor::new(data));
    let mut entry = match archive.entries()?.nth(index) {
        Some(entry) => entry?,
        None => return Err(std::io::Error::from(std::io::ErrorKind::NotFound)),
    };
    let mut contents = Vec::new();
    std::io::Read::read_to_end(&mut entry, &mut contents)?;
    Ok(contents)
}

/// Unpacks gzip data in memory, with `flate2::read::GzDecoder::new` and
/// `read_to_end`. What is unpacked depends on the bytes alone, and is named;
/// nothing else is claimed of it.
#[verifier::external_body]
fn gunzip(data: &[u8]) -> (r: Result<Vec<u8>, std::io::Error>)
    ensures
        gunzip_of(data@) == match r {
            Ok(contents) => Some(contents@),
            Err(_) => None,
        },
{
    let mut decoder = flate2::read::GzDecoder::new(data);
    let mut contents = Vec::new();
    std::io::Read::read_to_end(&mut decoder, &mut contents)?;
    Ok(contents)
}

/// Whether an entry is a folder and no file: its name is empty or ends with
/// `/`.
pub open spec fn is_folder(name: Seq<char>) -> bool {
    name.len() == 0 || name.last() == '/'
}

/// The bytes of each of `texts`.
pub open spec fn each_as_bytes(texts: Seq<Seq<char>>) -> Seq<Seq<u8>> {
    Seq::new(texts.len(), |k: int| bytes_of(texts[k]))
}

/// Whether the patterns select the file `name`: one of `includes` matches it,
/// and none of `excludes`.
pub open spec fn is_selected(
    name: Seq<char>,
    includes: Seq<Seq<char>>,
    excludes: Seq<Seq<char>>,
) -> bool {
    any_wildcard_matches(bytes_of(name), each_as_bytes(includes)) && !any_wildcard_matches(
        bytes_of(name),
        each_as_bytes(excludes),
    )
}

/// The path under which the entry `name` is staged: its name, or without
/// folders what stands behind the last `/` of the name.
pub open spec fn placed(name: Seq<char>, keep_folders: bool) -> Seq<char> {
    if keep_folders {
        name
    } else {
        after_last(name, '/')
    }
}

/// The folders to make for the entries `names`: with folders kept, every
/// entry that is a folder, whether or not a file in it is selected; else
/// none.
pub open spec fn folders_of(names: Seq<Seq<char>>, keep_folders: bool) -> Seq<Seq<char>>
    decreases names.len(),
{
    if names.len() == 0 {
        Seq::empty()
    } else {
        let before = folders_of(names.drop_last(), keep_folders);
        if keep_folders && is_folder(names.last()) {
            before.push(names.last())
        } else {
            before
        }
    }
}

/// The places among `names` of the files that the patterns select, in order.
pub open spec fn picks_of(
    names: Seq<Seq<char>>,
    includes: Seq<Seq<char>>,
    excludes: Seq<Seq<char>>,
) -> Seq<int>
    decreases names.len(),
{
    if names.len() == 0 {
        Seq::empty()
    } else {
        let before = picks_of(names.drop_last(), includes, excludes);
        if !is_folder(names.last()) && is_selected(names.last(), includes, excludes) {
            before.push(names.len() - 1)
        } else {
            before
        }
    }
}

/// Every pick is a place among the names, of a file that is selected.
pub proof fn lemma_picks(
    names: Seq<Seq<char>>,
    includes: Seq<Seq<char>>,
    excludes: Seq<Seq<char>>,
    k: int,
)
    requires
        0 <= k < picks_of(names, includes, excludes).len(),
    ensures
        0 <= picks_of(names, includes, excludes)[k] < names.len(),
        !is_folder(names[picks_of(names, includes, excludes)[k]]),
        is_selected(names[picks_of(names, includes, excludes)[k]], includes, excludes),
    decreases names.len(),
{
    if names.len() > 0 {
        let before = picks_of(names.drop_last(), includes, excludes);
        if k < before.len() {
            lemma_picks(names.drop_last(), includes, excludes, k);
        }
    }
}

/// A file is picked if and only if it is no folder and the patterns select
/// it.
pub proof fn law_picked_iff_selected(
    names: Seq<Seq<char>>,
    includes: Seq<Seq<char>>,
    excludes: Seq<Seq<char>>,
    place: int,
)
    requires
        0 <= place < names.len(),
    ensures
        picks_of(names, includes, excludes).contains(place) <==> (!is_folder(names[place])
            && is_selected(names[place], includes, excludes)),
    decreases names.len(),
{
    let picks = picks_of(names, includes, excludes);
    let before = picks_of(names.drop_last(), includes, excludes);
    if place < names.len() - 1 {
        law_picked_iff_selected(names.drop_last(), includes, excludes, place);
        if before.contains(place) {
            let k = choose|k: int| 0 <= k < before.len() && before[k] == place;
            assert(picks[k] == place);
        }
        if picks.contains(place) {
            let k = choose|k: int| 0 <= k < picks.len() && picks[k] == place;
            if k < before.len() {
                assert(before[k] == place);
            }
        }
    } else {
        if picks.contains(place) {
            let k = choose|k: int| 0 <= k < picks.len() && picks[k] == place;
            if k < before.len() {
                lemma_picks(names.drop_last(), includes, excludes, k);
            }
        }
        if !is_folder(names[place]) && is_selected(names[place], includes, excludes) {
            assert(picks[before.len() as int] == place);
        }
    }
}

/// With folders kept, a folder is made for every entry that is a folder, and
/// for nothing else; without, no folder is made.
pub proof fn law_folders_are_kept(names: Seq<Seq<char>>, keep_folders: bool, name: Seq<char>)
    ensures
        folders_of(names, keep_folders).contains(name) <==> (keep_folders && is_folder(name)
            && names.contains(name)),
    decreases names.len(),
{
    if names.len() > 0 {
        let front = names.drop_last();
        let before = folders_of(front, keep_folders);
        let all = folders_of(names, keep_folders);
        law_folders_are_kept(front, keep_folders, name);
        if all.contains(name) {
            let k = choose|k: int| 0 <= k < all.len() && all[k] == name;
            if k < before.len() {
                assert(before[k] == name);
                let j = choose|j: int| 0 <= j < front.len() && front[j] == name;
                assert(names[j] == name);
            } else {
                assert(names[names.len() - 1] == name);
            }
        }
        if keep_folders && is_folder(name) && names.contains(name) {
            let j = choose|j: int| 0 <= j < names.len() && names[j] == name;
            if j < front.len() {
                assert(front[j] == name);
                let k = choose|k: int| 0 <= k < before.len() && before[k] == name;
                assert(all[k] == name);
            } else {
                assert(all[before.len() as int] == name);
            }
        }
    }
}

/// Whether the entry `name` is a folder and no file.
pub fn names_folder(name: &str) -> (r: bool)
    ensures
        r == is_folder(name@),
{
    proof {
        reveal_strlit("/");
        assert("/"@ =~= seq!['/']);
    }
    if name.unicode_len() == 0 {
        return true;
    }
    let r = crate::text::ends_with_text(name, "/");
    assert(r == (name@.last() == '/')) by {
        assert(name@.subrange(name@.len() - 1, name@.len() as int)[0] == name@.last());
        if name@.last() == '/' {
            assert(name@.subrange(name@.len() - 1, name@.len() as int) =~= seq!['/']);
        }
    }
    r
}

/// Decides what of the entries `names` of an archive is staged: the folders
/// to make, and the places of the files to write.
pub fn plan_staging(
    names: &[String],
    includes: &[String],
    excludes: &[String],
    keep_folders: bool,
) -> (r: (Vec<String>, Vec<usize>))
    ensures
        texts_of(r.0@) == folders_of(texts_of(names@), keep_folders),
        r.1@.len() == picks_of(texts_of(names@), texts_of(includes@), texts_of(excludes@)).len(),
        forall|k: int|
            0 <= k < r.1@.len() ==> (#[trigger] r.1@[k]) == picks_of(
                texts_of(names@),
                texts_of(includes@),
                texts_of(excludes@),
            )[k] && r.1@[k] < names@.len(),
{
    let ghost all = texts_of(names@);
    let ghost wanted = texts_of(includes@);
    let ghost unwanted = texts_of(excludes@);
    let mut folders: Vec<String> = Vec::new();
    let mut picks: Vec<usize> = Vec::new();
    let mut i: usize = 0;
    assert(all.take(0) =~= Seq::<Seq<char>>::empty());
    assert(patterns_as_bytes(includes@) =~= each_as_bytes(wanted));
    assert(patterns_as_bytes(excludes@) =~= each_as_bytes(unwanted));
    while i < names.len()
        invariant
            0 <= i <= names@.len(),
            all == texts_of(names@),
            wanted == texts_of(includes@),
            unwanted == texts_of(excludes@),
            patterns_as_bytes(includes@) == each_as_bytes(wanted),
            patterns_as_bytes(excludes@) == each_as_bytes(unwanted),
            texts_of(folders@) =~= folders_of(all.take(i as int), keep_folders),
            picks@.len() == picks_of(all.take(i as int), wanted, unwanted).len(),
            forall|k: int|
                0 <= k < picks@.len() ==> (#[trigger] picks@[k]) == picks_of(
                    all.take(i as int),
                    wanted,
                    unwanted,
                )[k] && picks@[k] < i,
        decreases names@.len() - i,
    {
        assert(all.take(i + 1).drop_last() =~= all.take(i as int));
        assert(all.take(i + 1).last() == names@[i as int]@);
        let name = names[i].as_str();
        if names_folder(name) {
            if keep_folders {
                folders.push(names[i].clone());
            }
        } else if match_any_wildcard(name, includes) && !match_any_wildcard(name, excludes) {
            picks.push(i);
        }
        i += 1;
    }
    assert(all.take(i as int) =~= all);
    (folders, picks)
}

/// Returns the path under which the entry `name` is staged.
pub fn place_entry(name: &str, keep_folders: bool) -> (r: String)
    ensures
        r@ == placed(name@, keep_folders),
{
    if keep_folders {
        name.to_owned()
    } else {
        text_after_last(name, '/').to_owned()
    }
}

/// What is staged of an archive with the entries `names`, whose entry at a
/// place holds what `contents` gives for that place.
pub open spec fn staged_of(
    names: Seq<Seq<char>>,
    contents: spec_fn(int) -> Seq<u8>,
    includes: Seq<Seq<char>>,
    excludes: Seq<Seq<char>>,
    keep_folders: bool,
) -> StagingView {
    StagingView {
        folders: folders_of(names, keep_folders),
        files: Seq::new(
            picks_of(names, includes, excludes).len(),
            |k: int|
                StagedFileView {
                    path: placed(names[picks_of(names, includes, excludes)[k]], keep_folders),
                    contents: contents(picks_of(names, includes, excludes)[k]),
                },
        ),
    }
}

/// Whether every file that is picked from the zip archive `data` can be read.
pub open spec fn zip_is_readable(
    data: Seq<u8>,
    names: Seq<Seq<char>>,
    includes: Seq<Seq<char>>,
    excludes: Seq<Seq<char>>,
) -> bool {
    forall|k: int|
        0 <= k < picks_of(names, includes, excludes).len() ==> zip_bytes_of(
            data,
            #[trigger] names[picks_of(names, includes, excludes)[k]],
        ) is Some
}

/// Whether every file that is picked from the tar archive `data` can be read.
pub open spec fn tar_is_readable(
    data: Seq<u8>,
    names: Seq<Seq<char>>,
    includes: Seq<Seq<char>>,
    excludes: Seq<Seq<char>>,
) -> bool {
    forall|k: int|
        0 <= k < picks_of(names, includes, excludes).len() ==> (#[trigger] tar_bytes_of(
            data,
            picks_of(names, includes, excludes)[k] as nat,
        )) is Some
}

/// What is staged of the zip archive `data`; `None` where the archive cannot
/// be listed, or a file that is picked cannot be read.
pub open spec fn zip_staging(
    data: Seq<u8>,
    includes: Seq<Seq<char>>,
    excludes: Seq<Seq<char>>,
    keep_folders: bool,
) -> Option<StagingView> {
    match zip_names_of(data) {
        Some(names) => if zip_is_readable(data, names, includes, excludes) {
            Some(
                staged_of(
                    names,
                    |place: int| zip_bytes_of(data, names[place])->0,
                    includes,
                    excludes,
                    keep_folders,
                ),
            )
        } else {
            None
        },
        None => None,
    }
}

/// What is staged of the tar archive `data`; `None` where the archive cannot
/// be listed, or a file that is picked cannot be read.
pub open spec fn tar_staging(
    data: Seq<u8>,
    includes: Seq<Seq<char>>,
    excludes: Seq<Seq<char>>,
    keep_folders: bool,
) -> Option<StagingView> {
    match tar_names_of(data) {
        Some(names) => if tar_is_readable(data, names, includes, excludes) {
            Some(
                staged_of(
                    names,
                    |place: int| tar_bytes_of(data, place as nat)->0,
                    includes,
                    excludes,
                    keep_folders,
                ),
            )
        } else {
            None
        },
        None => None,
    }
}

/// What is staged of the tar archive that the gzip data `data` holds; `None`
/// where the data cannot be unpacked or the archive cannot be staged.
pub open spec fn tar_gz_staging(
    data: Seq<u8>,
    includes: Seq<Seq<char>>,
    excludes: Seq<Seq<char>>,
    keep_folders: bool,
) -> Option<StagingView> {
    match gunzip_of(data) {
        Some(unpacked) => tar_staging(unpacked, includes, excludes, keep_folders),
        None => None,
    }
}

/// What is staged of the one file `data` that came from `url`: the file,
/// under the name that stands behind the last `/` of the URL.
pub open spec fn single_staging(url: Seq<char>, data: Seq<u8>) -> StagingView {
    StagingView {
        folders: Seq::empty(),
        files: seq![StagedFileView { path: after_last(url, '/'), contents: data }],
    }
}

/// What is staged of the download `data` from `url` under `action`: an
/// archive by its kind, a single file as it is. An archive that cannot be
/// read, an archive of a kind that is not supported, and the absence of an
/// action are errors.
pub open spec fn staging_of(action: FileActionView, url: Seq<char>, data: Seq<u8>) -> Result<
    StagingView,
    Error,
> {
    match action {
        FileActionView::Extract { includes, excludes, keep_folders, file_type, .. } => {
            let unwanted = match excludes {
                Some(list) => list,
                None => Seq::empty(),
            };
            let keep = match keep_folders {
                Some(keep) => keep,
                None => false,
            };
            let staged = match file_type {
                FileType::Zip => zip_staging(data, includes, unwanted, keep),
                FileType::Tar => tar_staging(data, includes, unwanted, keep),
                FileType::TarGz => tar_gz_staging(data, includes, unwanted, keep),
                _ => None,
            };
            match file_type {
                FileType::TarXz | FileType::Unsupported => Err(Error::UnsupportedExtension),
                _ => match staged {
                    Some(staging) => Ok(staging),
                    None => Err(Error::BadArchive),
                },
            }
        },
        FileActionView::SingleFile { .. } => Ok(single_staging(url, data)),
        FileActionView::Unset => Err(Error::NoAction),
    }
}

/// Stages a download that is the one file to install: the file gets the name
/// that stands behind the last `/` of the URL it came from.
pub fn stage_single(url: &str, data: Vec<u8>) -> (r: Staging)
    ensures
        r@ == single_staging(url@, data@),
{
    let mut files: Vec<StagedFile> = Vec::new();
    files.push(StagedFile { path: text_after_last(url, '/').to_owned(), contents: data });
    assert(staged_files(files@) =~= seq![
        StagedFileView { path: after_last(url@, '/'), contents: data@ },
    ]);
    let folders: Vec<String> = Vec::new();
    assert(texts_of(folders@) =~= Seq::<Seq<char>>::empty());
    Staging { folders, files }
}

impl Staging {
    /// Returns the paths of the staged files, in order: the files of the
    /// item.
    pub fn paths(&self) -> (r: Vec<String>)
        ensures
            r@.len() == self.files@.len(),
            forall|i: int| 0 <= i < r@.len() ==> r@[i]@ == self.files@[i].path@,
    {
        let mut out: Vec<String> = Vec::new();
        let mut i: usize = 0;
        while i < self.files.len()
            invariant
                0 <= i <= self.files@.len(),
                out@.len() == i,
                forall|j: int| 0 <= j < i ==> out@[j]@ == self.files@[j].path@,
            decreases self.files@.len() - i,
        {
            out.push(self.files[i].path.clone());
            i += 1;
        }
        out
    }
}

impl FileAction {
    /// Stages a zip archive: lists its entries, and reads the files that the
    /// patterns select. An archive that cannot be listed, or a selected file that
    /// cannot be read, fails the whole staging.
    #[verifier::loop_isolation(false)]
    pub fn extract_zip(data: &[u8], includes: &[String], excludes: &[String], keep_folders: bool) -> (r:
        Result<Staging, Error>)
        ensures
            match zip_staging(data@, texts_of(includes@), texts_of(excludes@), keep_folders) {
                Some(staged) => r matches Ok(staging) && staging@ == staged,
                None => r matches Err(error) && error == Error::BadArchive,
            },
    {
        let names = match zip_names(data) {
            Ok(names) => names,
            Err(_) => {
                return Err(Error::BadArchive);
            },
        };
        let (folders, picks) = plan_staging(names.as_slice(), includes, excludes, keep_folders);
        let ghost all = texts_of(names@);
        let ghost wanted = texts_of(includes@);
        let ghost unwanted = texts_of(excludes@);
        let ghost chosen = picks_of(all, wanted, unwanted);
        let mut files: Vec<StagedFile> = Vec::new();
        let mut k: usize = 0;
        while k < picks.len()
            invariant
                0 <= k <= picks@.len(),
                all == texts_of(names@),
                chosen == picks_of(all, wanted, unwanted),
                picks@.len() == chosen.len(),
                forall|j: int|
                    0 <= j < picks@.len() ==> (#[trigger] picks@[j]) == chosen[j] && picks@[j]
                        < names@.len(),
                files@.len() == k,
                forall|j: int|
                    0 <= j < k ==> zip_bytes_of(data@, #[trigger] all[chosen[j]]) is Some && files@[j]@
                        == (StagedFileView {
                        path: placed(all[chosen[j]], keep_folders),
                        contents: zip_bytes_of(data@, all[chosen[j]])->0,
                    }),
            decreases picks@.len() - k,
        {
            let place = picks[k];
            let name = names[place].as_str();
            assert(name@ == all[chosen[k as int]]);
            match zip_bytes(data, name) {
                Ok(contents) => {
                    files.push(StagedFile { path: place_entry(name, keep_folders), contents });
                },
                Err(_) => {
                    assert(!zip_is_readable(data@, all, wanted, unwanted));
                    return Err(Error::BadArchive);
                },
            }
            k += 1;
        }
        assert(staged_files(files@) =~= staged_of(
            all,
            |place: int| zip_bytes_of(data@, all[place])->0,
            wanted,
            unwanted,
            keep_folders,
        ).files);
        Ok(Staging { folders, files })
    }

    /// Stages a tar archive: lists its entries, and reads the files that the
    /// patterns select. An archive that cannot be listed, or a selected file that
    /// cannot be read, fails the whole staging.
    #[verifier::loop_isolation(false)]
    pub fn extract_tar(data: &[u8], includes: &[String], excludes: &[String], keep_folders: bool) -> (r:
        Result<Staging, Error>)
        ensures
            match tar_staging(data@, texts_of(includes@), texts_of(excludes@), keep_folders) {
                Some(staged) => r matches Ok(staging) && staging@ == staged,
                None => r matches Err(error) && error == Error::BadArchive,
            },
    {
        let names = match tar_names(data) {
            Ok(names) => names,
            Err(_) => {
                return Err(Error::BadArchive);
            },
        };
        let (folders, picks) = plan_staging(names.as_slice(), includes, excludes, keep_folders);
        let ghost all = texts_of(names@);
        let ghost wanted = texts_of(includes@);
        let ghost unwanted = texts_of(excludes@);
        let ghost chosen = picks_of(all, wanted, unwanted);
        let mut files: Vec<StagedFile> = Vec::new();
        let mut k: usize = 0;
        while k < picks.len()
            invariant
                0 <= k <= picks@.len(),
                all == texts_of(names@),
                chosen == picks_of(all, wanted, unwanted),
                picks@.len() == chosen.len(),
                forall|j: int|
                    0 <= j < picks@.len() ==> (#[trigger] picks@[j]) == chosen[j] && picks@[j]
                        < names@.len(),
                files@.len() == k,
                forall|j: int|
                    0 <= j < k ==> (#[trigger] tar_bytes_of(data@, chosen[j] as nat)) is Some
                        && files@[j]@ == (StagedFileView {
                        path: placed(all[chosen[j]], keep_folders),
                        contents: tar_bytes_of(data@, chosen[j] as nat)->0,
                    }),
            decreases picks@.len() - k,
        {
            let place = picks[k];
            let name = names[place].as_str();
            assert(name@ == all[chosen[k as int]]);
            match tar_bytes(data, place) {
                Ok(contents) => {
                    files.push(StagedFile { path: place_entry(name, keep_folders), contents });
                },
                Err(_) => {
                    assert(tar_bytes_of(data@, chosen[k as int] as nat) is None);
                    assert(!tar_is_readable(data@, all, wanted, unwanted));
                    return Err(Error::BadArchive);
                },
            }
            k += 1;
        }
        assert(staged_files(files@) =~= staged_of(
            all,
            |place: int| tar_bytes_of(data@, place as nat)->0,
            wanted,
            unwanted,
            keep_folders,
        ).files);
        Ok(Staging { folders, files })
    }

    /// Stages a tar archive that is packed with gzip: unpacks it, and stages the
    /// tar archive that it holds.
    pub fn extract_tar_gz(data: &[u8], includes: &[String], excludes: &[String], keep_folders: bool) -> (r:
        Result<Staging, Error>)
        ensures
            match tar_gz_staging(data@, texts_of(includes@), texts_of(excludes@), keep_folders) {
                Some(staged) => r matches Ok(staging) && staging@ == staged,
                None => r matches Err(error) && error == Error::BadArchive,
            },
    {
        match gunzip(data) {
            Ok(unpacked) => Self::extract_tar(unpacked.as_slice(), includes, excludes, keep_folders),
            Err(_) => Err(Error::BadArchive),
        }
    }

    /// Refuses a tar archive that is packed with xz: this kind of archive is
    /// known, and not supported.
    pub fn extract_tar_xz(data: &[u8], includes: &[String], excludes: &[String], keep_folders: bool) -> (r:
        Result<Staging, Error>)
        ensures
            r matches Err(error) && error == Error::UnsupportedExtension,
    {
        Err(Error::UnsupportedExtension)
    }

    /// Stages the download `data` of an item according to the action. `url` is
    /// the URL that the download came from. What comes back is to be written
    /// to the staging directory of the item, the folders first.
    ///
    /// An archive is staged by its kind; an archive of a kind that is not
    /// supported is refused, and so is the absence of an action.
    pub fn stage_install(&self, url: &str, data: Vec<u8>) -> (r: Result<Staging, Error>)
        ensures
            match staging_of(self@, url@, data@) {
                Ok(staged) => r matches Ok(staging) && staging@ == staged,
                Err(error) => r matches Err(found) && found == error,
            },
    {
        match self {
            FileAction::Extract { includes, excludes, keep_folders, file_type, .. } => {
                let nothing: Vec<String> = Vec::new();
                assert(texts_of(nothing@) =~= Seq::<Seq<char>>::empty());
                let unwanted: &[String] = match excludes {
                    Some(list) => list.as_slice(),
                    None => nothing.as_slice(),
                };
                let keep = match keep_folders {
                    Some(keep) => *keep,
                    None => false,
                };
                match file_type {
                    FileType::Zip => Self::extract_zip(
                        data.as_slice(),
                        includes.as_slice(),
                        unwanted,
                        keep,
                    ),
                    FileType::Tar => Self::extract_tar(
                        data.as_slice(),
                        includes.as_slice(),
                        unwanted,
                        keep,
                    ),
                    FileType::TarGz => Self::extract_tar_gz(
                        data.as_slice(),
                        includes.as_slice(),
                        unwanted,
                        keep,
                    ),
                    FileType::TarXz => Self::extract_tar_xz(
                        data.as_slice(),
                        includes.as_slice(),
                        unwanted,
                        keep,
                    ),
                    FileType::Unsupported => Err(Error::UnsupportedExtension),
                }
            },
            FileAction::SingleFile { .. } => Ok(stage_single(url, data)),
            FileAction::Unset => Err(Error::NoAction),
        }
    }
}

} // verus!
