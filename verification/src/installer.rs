//! An item on its way from its descriptor to the directory it is installed
//! in: checked, downloaded, verified, staged, and installed in the place of
//! what was installed before.
use crate::checksum::Checksum;
use crate::encoding::bytes_of;
use crate::error::Error;
use crate::file_action::{
    action_problem, resolved_action, tag_text, FileAction, FileActionView,
};
use crate::installed::{
    law_no_strays_among_same, strays, InstalledFont, InstalledFontView, InstalledFonts,
};
use crate::ordered::{ascending, insert_ordered};
use crate::source::{filled_source, settled_tag, source_problem, tag_of, Source, SourceView};
use crate::stage::{staging_of, Staging};
use crate::text::{
    after_first, before_first, before_last, contains_text, has_part, split_at_first,
    text_before_last, texts_of,
};
use crate::wildcards::{match_wildcard, wildcard_matches};
use vstd::prelude::*;
use vstd::string::*;

verus! {

/// An item and what is known of it so far.
#[derive(Debug)]
pub struct Installer {
    /// The name of the item: the name of the directory it is installed in.
    pub name: String,
    /// Where the download comes from.
    pub source: Source,
    /// What is done with the download.
    pub action: FileAction,
    /// The checksum of the download, if it has one.
    pub check: Option<Checksum>,
    /// The name of the descriptor: the name under which the item is
    /// recorded.
    pub installer_name: String,
    /// The download, once it is there.
    pub data: Option<Vec<u8>>,
    /// The size of the download in bytes, as far as it is known.
    pub data_size: u64,
    /// The files of the item, once it is staged.
    pub files: Vec<String>,
    /// The text of the webpage that the source was resolved with.
    pub font_page: Option<String>,
}

/// Whether `name` is made of `.` and `/` alone. The empty name is.
pub open spec fn only_dots_and_slashes(name: Seq<char>) -> bool {
    forall|i: int| 0 <= i < name.len() ==> name[i] == '.' || name[i] == '/'
}

/// The text `..`.
pub open spec fn two_dots() -> Seq<char> {
    seq!['.', '.']
}

/// Whether an item may have the name `name`: it names something, and does not
/// lead out of the directory it is put in.
pub open spec fn name_is_valid(name: Seq<char>) -> bool {
    !only_dots_and_slashes(name) && !has_part(name, two_dots())
}

/// The file of an action, if it has one.
pub open spec fn file_of(action: FileActionView) -> Seq<char> {
    match action {
        FileActionView::Extract { file, .. } => file,
        FileActionView::SingleFile { file } => file,
        FileActionView::Unset => Seq::empty(),
    }
}

/// What is wrong with a descriptor, if anything; the first of: its name is
/// invalid, it has no source, its action has a problem, its source has one.
/// The action is checked with the tag that the source has once the caller's
/// tag is settled.
pub open spec fn descriptor_problem(
    name: Seq<char>,
    source: SourceView,
    action: FileActionView,
    wanted: Option<Seq<char>>,
) -> Option<Error> {
    let settled = settled_tag(source, wanted);
    if !name_is_valid(name) {
        Some(Error::InvalidName)
    } else if settled is Unset {
        Some(Error::NoSource)
    } else if action_problem(action, tag_of(settled)) is Some {
        action_problem(action, tag_of(settled))
    } else {
        source_problem(settled)
    }
}

/// The directory that the staged files of the item `name` are written to.
pub open spec fn staging_path_of(staging_dir: Seq<char>, name: Seq<char>) -> Seq<char> {
    staging_dir + name + seq!['/']
}

/// The directory that the item is installed in: the one it is recorded in,
/// if it is recorded; else the directory `name` below `install_dir`.
pub open spec fn target_dir_of(
    installed: Map<Seq<char>, InstalledFontView>,
    installer_name: Seq<char>,
    install_dir: Seq<char>,
    name: Seq<char>,
) -> Seq<char> {
    if installed.contains_key(installer_name) {
        installed[installer_name].dir
    } else {
        install_dir + seq!['/'] + name + seq!['/']
    }
}

/// The files that the item had before, if it is recorded.
pub open spec fn old_files_of(
    installed: Map<Seq<char>, InstalledFontView>,
    installer_name: Seq<char>,
) -> Option<Seq<Seq<char>>> {
    if installed.contains_key(installer_name) {
        Some(installed[installer_name].files)
    } else {
        None
    }
}

/// What the records hold once an item with the files `files` from `url` is
/// installed, and the files to delete: those that the item had and has no
/// longer.
pub open spec fn finalized(
    installed: Map<Seq<char>, InstalledFontView>,
    installer_name: Seq<char>,
    url: Seq<char>,
    install_dir: Seq<char>,
    name: Seq<char>,
    files: Seq<Seq<char>>,
) -> (Map<Seq<char>, InstalledFontView>, Seq<Seq<char>>) {
    (
        installed.insert(
            installer_name,
            InstalledFontView {
                url,
                dir: target_dir_of(installed, installer_name, install_dir, name),
                files,
            },
        ),
        match old_files_of(installed, installer_name) {
            Some(old_files) => strays(old_files, files),
            None => Seq::empty(),
        },
    )
}

/// To install an item a second time with the same files changes nothing: the
/// records stay as the first time left them, and no file is deleted.
pub proof fn law_install_twice(
    installed: Map<Seq<char>, InstalledFontView>,
    installer_name: Seq<char>,
    url: Seq<char>,
    install_dir: Seq<char>,
    name: Seq<char>,
    files: Seq<Seq<char>>,
)
    ensures
        ({
            let once = finalized(installed, installer_name, url, install_dir, name, files);
            let twice = finalized(once.0, installer_name, url, install_dir, name, files);
            twice.0 == once.0 && twice.1.len() == 0
        }),
{
    let once = finalized(installed, installer_name, url, install_dir, name, files);
    let twice = finalized(once.0, installer_name, url, install_dir, name, files);
    law_no_strays_among_same(files, files.len() as int);
    assert(files.take(files.len() as int) =~= files);
    assert(twice.0 =~= once.0);
}

/// One file to move from the staging directory to the directory of the item.
#[derive(Debug)]
pub struct Move {
    /// Where the file is staged.
    pub from: String,
    /// Where the file belongs.
    pub to: String,
    /// The directory that has to be there for the file to be moved.
    pub parent: String,
}

/// What there is to do to install a staged item.
#[derive(Debug)]
pub struct InstallPlan {
    /// The directory that the item is installed in.
    pub target_dir: String,
    /// The files that the item had before, if it was installed.
    pub old_files: Option<Vec<String>>,
    /// The files to move, in order.
    pub moves: Vec<Move>,
}

/// Whether `name` is made of `.` and `/` alone.
fn is_only_dots_and_slashes(name: &str) -> (r: bool)
    ensures
        r == only_dots_and_slashes(name@),
{
    let chars = crate::text::chars_of(name);
    let mut i: usize = 0;
    while i < chars.len()
        invariant
            0 <= i <= chars@.len(),
            chars@ == name@,
            forall|j: int| 0 <= j < i ==> chars@[j] == '.' || chars@[j] == '/',
        decreases chars@.len() - i,
    {
        if chars[i] != '.' && chars[i] != '/' {
            return false;
        }
        i += 1;
    }
    true
}

/// Returns the directory that the staged files of the item `name` are
/// written to.
pub fn staging_path(staging_dir: &str, name: &str) -> (r: String)
    ensures
        r@ == staging_path_of(staging_dir@, name@),
{
    proof {
        reveal_strlit("/");
        assert("/"@ =~= seq!['/']);
    }
    let mut out = staging_dir.to_owned();
    out.append(name);
    out.append("/");
    out
}

impl Installer {
    /// Checks that an item may have the name `name`.
    pub fn validate_name(name: &str) -> (r: Result<(), Error>)
        ensures
            r == if name_is_valid(name@) {
                Ok::<(), Error>(())
            } else {
                Err::<(), Error>(Error::InvalidName)
            },
    {
        proof {
            reveal_strlit("..");
            assert(".."@ =~= two_dots());
        }
        if is_only_dots_and_slashes(name) || contains_text(name, "..") {
            Err(Error::InvalidName)
        } else {
            Ok(())
        }
    }

    /// Makes an item from the parts of its descriptor: checks the name,
    /// settles the tag, and checks action and source and fills their
    /// placeholders. The source is not yet resolved.
    pub fn parse(
        name: String,
        source: Source,
        action: FileAction,
        check: Option<Checksum>,
        installer_name: &str,
        override_version: Option<&str>,
    ) -> (r: Result<Self, Error>)
        ensures
            match descriptor_problem(name@, source@, action@, tag_text(override_version)) {
                Some(error) => r matches Err(found) && found == error,
                None => r matches Ok(installer) && ({
                    let settled = settled_tag(source@, tag_text(override_version));
                    let resolved = resolved_action(action@, tag_of(settled));
                    &&& installer.name@ == name@
                    &&& installer.installer_name@ == installer_name@
                    &&& installer.action@ == resolved
                    &&& installer.source@ == filled_source(settled, file_of(resolved))
                    &&& installer.check == check
                    &&& installer.data is None
                    &&& installer.data_size == 0
                    &&& installer.files@.len() == 0
                    &&& installer.font_page is None
                }),
            },
    {
        let mut source = source;
        let mut action = action;
        match Self::validate_name(name.as_str()) {
            Err(error) => {
                return Err(error);
            },
            Ok(()) => {},
        }
        source.validate_tag(override_version);
        let tag = match source.ref_tag() {
            Ok(tag) => tag,
            Err(error) => {
                return Err(error);
            },
        };
        match action.validate(tag) {
            Err(error) => {
                return Err(error);
            },
            Ok(()) => {},
        }
        let file = match action.ref_file() {
            Ok(file) => file.to_owned(),
            Err(error) => {
                return Err(error);
            },
        };
        match source.validate(file.as_str()) {
            Err(error) => {
                return Err(error);
            },
            Ok(()) => {},
        }
        Ok(
            Installer {
                name,
                source,
                action,
                check,
                installer_name: installer_name.to_owned(),
                data: None,
                data_size: 0,
                files: Vec::new(),
                font_page: None,
            },
        )
    }

    /// Begins a download: nothing is there yet, and the size is the one that
    /// was announced, or 0 where none was.
    pub fn begin_download(&mut self, announced: Option<u64>)
        ensures
            final(self).data matches Some(data) && data@.len() == 0,
            final(self).data_size == match announced {
                Some(size) => size,
                None => 0,
            },
            final(self).name == old(self).name,
            final(self).source == old(self).source,
            final(self).action == old(self).action,
            final(self).check == old(self).check,
            final(self).installer_name == old(self).installer_name,
            final(self).files == old(self).files,
            final(self).font_page == old(self).font_page,
    {
        self.data = Some(Vec::new());
        self.data_size = match announced {
            Some(size) => size,
            None => 0,
        };
    }

    /// Takes in the next piece of the download, and returns the progress: how
    /// many bytes are there, and how many are expected in all. Where more
    /// bytes are there than were expected, as many are expected as are
    /// there.
    pub fn receive(&mut self, chunk: &[u8]) -> (r: (u64, u64))
        ensures
            final(self).data matches Some(data) && data@ == match old(self).data {
                Some(before) => before@ + chunk@,
                None => chunk@,
            } && r.0 == data@.len(),
            r.1 == final(self).data_size,
            final(self).data_size == if old(self).data_size >= r.0 {
                old(self).data_size
            } else {
                r.0
            },
            r.0 <= r.1,
            final(self).name == old(self).name,
            final(self).source == old(self).source,
            final(self).action == old(self).action,
            final(self).check == old(self).check,
            final(self).installer_name == old(self).installer_name,
            final(self).files == old(self).files,
            final(self).font_page == old(self).font_page,
    {
        let mut data: Vec<u8> = match self.data.take() {
            Some(data) => data,
            None => Vec::new(),
        };
        let ghost before = data@;
        let mut i: usize = 0;
        while i < chunk.len()
            invariant
                0 <= i <= chunk@.len(),
                data@ == before + chunk@.take(i as int),
            decreases chunk@.len() - i,
        {
            data.push(chunk[i]);
            assert(chunk@.take(i + 1) =~= chunk@.take(i as int).push(chunk@[i as int]));
            i += 1;
        }
        assert(chunk@.take(i as int) =~= chunk@);
        let there: u64 = data.len() as u64;
        if there > self.data_size {
            self.data_size = there;
        }
        self.data = Some(data);
        (there, self.data_size)
    }

    /// Verifies the download against the checksum of the item, if it has
    /// one.
    pub fn verify_download(&self) -> (r: Result<(), Error>)
        ensures
            match (self.data, self.check) {
                (None, _) => r == Err::<(), Error>(Error::NoData),
                (Some(_), None) => r is Ok,
                (Some(data), Some(check)) => match check@.file {
                    Some(text) => if crate::checksum::checksum_passes(
                        check@.algorithm,
                        data@,
                        text,
                    ) {
                        r is Ok
                    } else {
                        r == Err::<(), Error>(Error::ChecksumMismatch)
                    },
                    None => r == Err::<(), Error>(Error::NoChecksum),
                },
            },
    {
        let data = match &self.data {
            Some(data) => data,
            None => {
                return Err(Error::NoData);
            },
        };
        match &self.check {
            Some(check) => check.check(data.as_slice()),
            None => Ok(()),
        }
    }

    /// Stages the download: decides what is to be written to the staging
    /// directory of the item, and notes the files of the item. The download
    /// is used up. A single file needs the source to be direct, for its name.
    pub fn prepare_install(&mut self) -> (r: Result<Staging, Error>)
        ensures
            final(self).data is None,
            final(self).name == old(self).name,
            final(self).source == old(self).source,
            final(self).action == old(self).action,
            final(self).check == old(self).check,
            final(self).installer_name == old(self).installer_name,
            final(self).data_size == old(self).data_size,
            final(self).font_page == old(self).font_page,
            match old(self).data {
                None => r matches Err(error) && error == Error::NoData && final(self).files
                    == old(self).files,
                Some(data) => {
                    let url = match old(self).source@ {
                        SourceView::Direct { url, .. } => url,
                        _ => Seq::empty(),
                    };
                    if old(self).action@ is SingleFile && !(old(self).source@ is Direct) {
                        r matches Err(error) && error == Error::NotDirect && final(self).files
                            == old(self).files
                    } else {
                        match staging_of(old(self).action@, url, data@) {
                            Ok(staged) => r matches Ok(staging) && staging@ == staged
                                && final(self).files@.len() == staged.files.len() && forall|i: int|
                                0 <= i < staged.files.len() ==> (#[trigger] final(self).files@[i])@
                                    == staged.files[i].path,
                            Err(error) => r matches Err(found) && found == error && final(self).files == old(self).files,
                        }
                    }
                },
            },
    {
        let data = match self.data.take() {
            Some(data) => data,
            None => {
                return Err(Error::NoData);
            },
        };
        let nothing = "";
        proof {
            reveal_strlit("");
            assert(nothing@ =~= Seq::<char>::empty());
        }
        let url: &str = match self.source.ref_direct_url() {
            Ok(url) => url,
            Err(error) => {
                match &self.action {
                    FileAction::SingleFile { .. } => {
                        return Err(error);
                    },
                    _ => nothing,
                }
            },
        };
        match self.action.stage_install(url, data) {
            Ok(staging) => {
                self.files = staging.paths();
                Ok(staging)
            },
            Err(error) => Err(error),
        }
    }

    /// Plans the installation of the staged item: the directory it goes to,
    /// the files it had before, and for each of its files where it is staged,
    /// where it belongs, and the directory that has to be there first.
    pub fn plan_install(&self, installed: &InstalledFonts, install_dir: &str, staging_dir: &str) -> (r:
        InstallPlan)
        ensures
            r.target_dir@ == target_dir_of(
                installed@,
                self.installer_name@,
                install_dir@,
                self.name@,
            ),
            match r.old_files {
                Some(files) => old_files_of(installed@, self.installer_name@) == Some(
                    texts_of(files@),
                ),
                None => old_files_of(installed@, self.installer_name@) is None,
            },
            r.moves@.len() == self.files@.len(),
            forall|i: int|
                0 <= i < self.files@.len() ==> {
                    let planned = #[trigger] r.moves@[i];
                    &&& planned.from@ == staging_path_of(staging_dir@, self.name@)
                        + self.files@[i]@
                    &&& planned.to@ == r.target_dir@ + seq!['/'] + self.files@[i]@
                    &&& planned.parent@ == before_last(planned.to@, '/')
                },
    {
        proof {
            reveal_strlit("/");
            assert("/"@ =~= seq!['/']);
        }
        let (target_dir, old_files) = match installed.get(self.installer_name.as_str()) {
            Some(font) => (font.dir.clone(), Some(crate::installed::copy_texts(font.files.as_slice()))),
            None => {
                let mut dir = install_dir.to_owned();
                dir.append("/");
                dir.append(self.name.as_str());
                dir.append("/");
                (dir, None)
            },
        };
        let staged_in = staging_path(staging_dir, self.name.as_str());
        let mut moves: Vec<Move> = Vec::new();
        let mut i: usize = 0;
        while i < self.files.len()
            invariant
                0 <= i <= self.files@.len(),
                moves@.len() == i,
                staged_in@ == staging_path_of(staging_dir@, self.name@),
                "/"@ == seq!['/'],
                forall|j: int|
                    0 <= j < i ==> {
                        let planned = #[trigger] moves@[j];
                        &&& planned.from@ == staged_in@ + self.files@[j]@
                        &&& planned.to@ == target_dir@ + seq!['/'] + self.files@[j]@
                        &&& planned.parent@ == before_last(planned.to@, '/')
                    },
            decreases self.files@.len() - i,
        {
            let file = self.files[i].as_str();
            let mut from = staged_in.clone();
            from.append(file);
            let mut to = target_dir.clone();
            to.append("/");
            to.append(file);
            let parent = text_before_last(to.as_str(), '/').to_owned();
            moves.push(Move { from, to, parent });
            i += 1;
        }
        InstallPlan { target_dir, old_files, moves }
    }

    /// Records the item as installed, once its files have been moved, and
    /// returns the files to delete: those that the item had before and has no
    /// longer. Where a file could not be moved, or the source is not direct,
    /// nothing is recorded. The records count as changed unless the item was
    /// recorded just so already.
    pub fn finalize_install(
        &self,
        installed: &mut InstalledFonts,
        plan: &InstallPlan,
        errors: bool,
    ) -> (r: Result<Vec<String>, Error>)
        ensures
            if errors {
                r matches Err(error) && error == Error::FileSystem && final(installed)@ == old(installed)@ && final(installed).changed() == old(installed).changed()
            } else {
                match self.source@ {
                    SourceView::Direct { url, .. } => {
                        let record = InstalledFontView {
                            url,
                            dir: plan.target_dir@,
                            files: texts_of(self.files@),
                        };
                        &&& r matches Ok(deleted) && texts_of(deleted@) == match plan.old_files {
                            Some(old_files) => strays(texts_of(old_files@), texts_of(self.files@)),
                            None => Seq::empty(),
                        }
                        &&& final(installed)@ == old(installed)@.insert(
                            self.installer_name@,
                            record,
                        )
                        &&& final(installed).changed() == (old(installed).changed() || !(old(installed)@.contains_key(self.installer_name@) && old(installed)@[self.installer_name@] == record))
                    },
                    _ => r matches Err(error) && error == Error::NotDirect && final(installed)@
                        == old(installed)@ && final(installed).changed() == old(installed).changed(),
                }
            },
    {
        if errors {
            return Err(Error::FileSystem);
        }
        let url = match self.source.ref_direct_url() {
            Ok(url) => url.to_owned(),
            Err(error) => {
                return Err(error);
            },
        };
        installed.update_entry(
            self.installer_name.as_str(),
            InstalledFont {
                url,
                dir: plan.target_dir.clone(),
                files: crate::installed::copy_texts(self.files.as_slice()),
            },
        );
        Ok(installed.cleanup(self.installer_name.as_str(), &plan.old_files))
    }

    /// Whether there is something to install: the item is not installed, or it
    /// was installed from another URL, or its directory is gone.
    /// `directory_exists` says whether the directory that the item is recorded
    /// in is there.
    pub fn has_updates(&self, installed: &InstalledFonts, directory_exists: bool) -> (r: Result<
        bool,
        Error,
    >)
        ensures
            if !installed@.contains_key(self.installer_name@) {
                r == Ok::<bool, Error>(true)
            } else {
                match self.source@ {
                    SourceView::Direct { url, .. } => r == Ok::<bool, Error>(
                        url != installed@[self.installer_name@].url || !directory_exists,
                    ),
                    _ => r == Err::<bool, Error>(Error::NotDirect),
                }
            },
    {
        match installed.get(self.installer_name.as_str()) {
            None => Ok(true),
            Some(font) => match self.source.ref_direct_url() {
                Ok(url) => Ok(!crate::text::same_text(url, font.url.as_str()) || !directory_exists),
                Err(error) => Err(error),
            },
        }
    }
}

/// The pattern of a filter: the filter itself, or what stands in front of its
/// first `:` where filters carry tags.
pub open spec fn pattern_of(filter: Seq<char>, tagged: bool) -> Seq<char> {
    if tagged {
        before_first(filter, ':')
    } else {
        filter
    }
}

/// What a filter makes of a name that it matches: the name itself, or where
/// filters carry tags and the filter has one, the name, `:` and the tag.
pub open spec fn named_by(name: Seq<char>, filter: Seq<char>, tagged: bool) -> Seq<char> {
    if tagged && after_first(filter, ':') is Some {
        name + seq![':'] + after_first(filter, ':')->0
    } else {
        name
    }
}

/// Whether the filter matches the name.
pub open spec fn filter_matches(name: Seq<char>, filter: Seq<char>, tagged: bool) -> bool {
    wildcard_matches(bytes_of(name), bytes_of(pattern_of(filter, tagged)))
}

/// Whether `text` is what one of `filters` makes of one of `names`.
pub open spec fn is_filtered(
    text: Seq<char>,
    names: Seq<Seq<char>>,
    filters: Seq<Seq<char>>,
    tagged: bool,
) -> bool {
    exists|i: int, j: int|
        0 <= i < filters.len() && 0 <= j < names.len() && filter_matches(
            #[trigger] names[j],
            #[trigger] filters[i],
            tagged,
        ) && text == named_by(names[j], filters[i], tagged)
}

/// Whether the filter matches none of `names`.
pub open spec fn matches_none(names: Seq<Seq<char>>, filter: Seq<char>, tagged: bool) -> bool {
    forall|j: int| 0 <= j < names.len() ==> !filter_matches(#[trigger] names[j], filter, tagged)
}

/// Those of `filters` that match none of `names`, in their order.
pub open spec fn idle_filters(names: Seq<Seq<char>>, filters: Seq<Seq<char>>, tagged: bool) -> Seq<
    Seq<char>,
>
    decreases filters.len(),
{
    if filters.len() == 0 {
        Seq::empty()
    } else {
        let before = idle_filters(names, filters.drop_last(), tagged);
        if matches_none(names, filters.last(), tagged) {
            before.push(filters.last())
        } else {
            before
        }
    }
}

/// What the filters select of the names, in order and each once, and the
/// filters that select nothing.
#[verifier::loop_isolation(false)]
pub fn select_names(names: &[String], filters: &[String], tagged: bool) -> (r: (
    Vec<String>,
    Vec<String>,
))
    ensures
        ascending(texts_of(r.0@)),
        forall|text: Seq<char>|
            #![trigger texts_of(r.0@).contains(text)]
            texts_of(r.0@).contains(text) <==> is_filtered(
                text,
                texts_of(names@),
                texts_of(filters@),
                tagged,
            ),
        texts_of(r.1@) == idle_filters(texts_of(names@), texts_of(filters@), tagged),
{
    let ghost all = texts_of(names@);
    let ghost asked = texts_of(filters@);
    let mut selected: Vec<String> = Vec::new();
    let mut idle: Vec<String> = Vec::new();
    let mut i: usize = 0;
    assert(asked.take(0) =~= Seq::<Seq<char>>::empty());
    proof {
        reveal_strlit(":");
        assert(":"@ =~= seq![':']);
    }
    while i < filters.len()
        invariant
            0 <= i <= filters@.len(),
            ascending(texts_of(selected@)),
            forall|text: Seq<char>|
                #![trigger texts_of(selected@).contains(text)]
                texts_of(selected@).contains(text) <==> is_filtered(
                    text,
                    all,
                    asked.take(i as int),
                    tagged,
                ),
            texts_of(idle@) =~= idle_filters(all, asked.take(i as int), tagged),
        decreases filters@.len() - i,
    {
        let filter = filters[i].as_str();
        assert(asked[i as int] == filter@);
        let (pattern, tag): (&str, Option<&str>) = if tagged {
            split_at_first(filter, ':')
        } else {
            (filter, None)
        };
        assert(pattern@ == pattern_of(filter@, tagged));
        let ghost before = texts_of(selected@);
        let mut found = false;
        let mut j: usize = 0;
        while j < names.len()
            invariant
                0 <= j <= names@.len(),
                0 <= i < filters@.len(),
                ascending(texts_of(selected@)),
                found <==> exists|k: int| 0 <= k < j && filter_matches(#[trigger] all[k], filter@, tagged),
                forall|text: Seq<char>|
                    #![trigger texts_of(selected@).contains(text)]
                    texts_of(selected@).contains(text) <==> (before.contains(text) || exists|k: int|
                        0 <= k < j && filter_matches(#[trigger] all[k], filter@, tagged) && text
                            == named_by(all[k], filter@, tagged)),
            decreases names@.len() - j,
        {
            let name = names[j].as_str();
            assert(all[j as int] == name@);
            if match_wildcard(name, pattern) {
                let mut text = name.to_owned();
                match tag {
                    Some(tag) => {
                        text.append(":");
                        text.append(tag);
                    },
                    None => {},
                }
                assert(text@ == named_by(name@, filter@, tagged));
                let ghost earlier = texts_of(selected@);
                let ghost added = text@;
                insert_ordered(&mut selected, text);
                found = true;
                assert forall|other: Seq<char>|
                    #![trigger texts_of(selected@).contains(other)]
                    texts_of(selected@).contains(other) <==> (before.contains(other) || exists|
                        k: int,
                    |
                        0 <= k < j + 1 && filter_matches(#[trigger] all[k], filter@, tagged)
                            && other == named_by(all[k], filter@, tagged)) by {
                    assert(texts_of(selected@).contains(other) <==> (other == added
                        || earlier.contains(other)));
                    if other == added {
                        assert(filter_matches(all[j as int], filter@, tagged));
                    }
                    if earlier.contains(other) && !before.contains(other) {
                        let k = choose|k: int|
                            0 <= k < j && filter_matches(#[trigger] all[k], filter@, tagged)
                                && other == named_by(all[k], filter@, tagged);
                        assert(0 <= k < j + 1);
                    }
                }
                assert(filter_matches(all[j as int], filter@, tagged));
            } else {
                assert forall|other: Seq<char>|
                    #![trigger texts_of(selected@).contains(other)]
                    texts_of(selected@).contains(other) <==> (before.contains(other) || exists|
                        k: int,
                    |
                        0 <= k < j + 1 && filter_matches(#[trigger] all[k], filter@, tagged)
                            && other == named_by(all[k], filter@, tagged)) by {
                    if texts_of(selected@).contains(other) && !before.contains(other) {
                        let k = choose|k: int|
                            0 <= k < j && filter_matches(#[trigger] all[k], filter@, tagged)
                                && other == named_by(all[k], filter@, tagged);
                        assert(0 <= k < j + 1);
                    }
                }
            }
            j += 1;
        }
        assert(asked.take(i + 1).drop_last() =~= asked.take(i as int));
        assert(asked.take(i + 1).last() == filter@);
        if !found {
            idle.push(filters[i].clone());
            assert(matches_none(all, filter@, tagged));
        } else {
            assert(!matches_none(all, filter@, tagged));
        }
        proof {
            assert forall|text: Seq<char>|
                #![trigger texts_of(selected@).contains(text)]
                texts_of(selected@).contains(text) <==> is_filtered(
                    text,
                    all,
                    asked.take(i + 1),
                    tagged,
                ) by {
                let next = asked.take(i + 1);
                let prev = asked.take(i as int);
                if before.contains(text) {
                    assert(is_filtered(text, all, prev, tagged));
                    let (a, b) = choose|a: int, b: int|
                        0 <= a < prev.len() && 0 <= b < all.len() && filter_matches(
                            #[trigger] all[b],
                            #[trigger] prev[a],
                            tagged,
                        ) && text == named_by(all[b], prev[a], tagged);
                    assert(next[a] == prev[a]);
                    assert(filter_matches(all[b], next[a], tagged));
                }
                if exists|k: int|
                    0 <= k < names@.len() && filter_matches(#[trigger] all[k], filter@, tagged)
                        && text == named_by(all[k], filter@, tagged) {
                    let k = choose|k: int|
                        0 <= k < names@.len() && filter_matches(#[trigger] all[k], filter@, tagged)
                            && text == named_by(all[k], filter@, tagged);
                    assert(next[i as int] == filter@);
                    assert(filter_matches(all[k], next[i as int], tagged));
                }
                if is_filtered(text, all, next, tagged) {
                    let (a, b) = choose|a: int, b: int|
                        0 <= a < next.len() && 0 <= b < all.len() && filter_matches(
                            #[trigger] all[b],
                            #[trigger] next[a],
                            tagged,
                        ) && text == named_by(all[b], next[a], tagged);
                    if a < i {
                        assert(prev[a] == next[a]);
                        assert(filter_matches(all[b], prev[a], tagged));
                        assert(is_filtered(text, all, prev, tagged));
                    } else {
                        assert(next[a] == filter@);
                    }
                }
            }
        }
        i += 1;
    }
    assert(asked.take(i as int) =~= asked);
    (selected, idle)
}

impl Installer {
    /// Returns, in order and each once, what the filters select of the
    /// descriptors `available`, and the filters that select nothing. A filter
    /// is a pattern, and may carry a tag behind a `:`; what it selects carries
    /// the same tag.
    pub fn filter_installers(available: &[String], filters: &[String]) -> (r: (
        Vec<String>,
        Vec<String>,
    ))
        ensures
            ascending(texts_of(r.0@)),
            forall|text: Seq<char>|
                #![trigger texts_of(r.0@).contains(text)]
                texts_of(r.0@).contains(text) <==> is_filtered(
                    text,
                    texts_of(available@),
                    texts_of(filters@),
                    true,
                ),
            texts_of(r.1@) == idle_filters(texts_of(available@), texts_of(filters@), true),
    {
        select_names(available, filters, true)
    }

    /// Returns, in order and each once, the installed items that the filters
    /// select, and the filters that select nothing. A filter is a pattern.
    #[must_use]
    pub fn filter_installed(filters: &[String], installed_fonts: &InstalledFonts) -> (r: (
        Vec<String>,
        Vec<String>,
    ))
        ensures
            ascending(texts_of(r.0@)),
            forall|text: Seq<char>|
                #![trigger texts_of(r.0@).contains(text)]
                texts_of(r.0@).contains(text) <==> is_filtered(
                    text,
                    installed_fonts.names(),
                    texts_of(filters@),
                    false,
                ),
            texts_of(r.1@) == idle_filters(installed_fonts.names(), texts_of(filters@), false),
    {
        let names = installed_fonts.get_names();
        select_names(names.as_slice(), filters, false)
    }
}

} // verus!
