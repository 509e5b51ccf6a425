//! The record of what is installed: for each item its name, where its files
//! came from, the directory they are in and the files themselves.
use crate::encoding::{bytes_of, lemma_same_bytes_same_text};
use crate::error::Error;
use crate::ordered::{
    ascending, comes_first, insert_ordered, lemma_ascending_no_twice, lemma_before_goes_on,
    lemma_not_before_itself, lemma_one_comes_first, text_before,
};
use crate::text::{replace_text, replaced, same_text, texts_of};
use vstd::prelude::*;
use vstd::string::*;

verus! {

/// What is recorded of one installed item.
#[derive(Debug)]
pub struct InstalledFont {
    /// The URL that the files were downloaded from.
    pub url: String,
    /// The directory that the files are in.
    pub dir: String,
    /// The files, as paths below `dir`.
    pub files: Vec<String>,
}

/// An `InstalledFont` as texts.
pub struct InstalledFontView {
    pub url: Seq<char>,
    pub dir: Seq<char>,
    pub files: Seq<Seq<char>>,
}

impl View for InstalledFont {
    type V = InstalledFontView;

    open spec fn view(&self) -> InstalledFontView {
        InstalledFontView { url: self.url@, dir: self.dir@, files: texts_of(self.files@) }
    }
}

/// Returns copies of `list`.
pub fn copy_texts(list: &[String]) -> (r: Vec<String>)
    ensures
        texts_of(r@) == texts_of(list@),
{
    let mut out: Vec<String> = Vec::new();
    crate::text::append_texts(&mut out, list);
    assert(texts_of(Seq::<String>::empty()) + texts_of(list@) =~= texts_of(list@));
    out
}

impl InstalledFont {
    /// Whether two records say the same.
    pub fn same_as(&self, other: &InstalledFont) -> (r: bool)
        ensures
            r == (self@ == other@),
    {
        same_text(self.url.as_str(), other.url.as_str()) && same_text(
            self.dir.as_str(),
            other.dir.as_str(),
        ) && crate::text::same_texts(self.files.as_slice(), other.files.as_slice())
    }

    /// Returns a copy of the record.
    pub fn copy(&self) -> (r: Self)
        ensures
            r@ == self@,
    {
        InstalledFont {
            url: self.url.clone(),
            dir: self.dir.clone(),
            files: copy_texts(self.files.as_slice()),
        }
    }
}

/// The records of all installed items, by the name of the item and in the
/// order of the names.
pub struct InstalledFonts {
    entries: Vec<Entry>,
    changed: bool,
}

/// An installed item: its name and what is recorded of it.
struct Entry {
    name: String,
    font: InstalledFont,
}

/// The names of `entries`.
spec fn entry_names(entries: Seq<Entry>) -> Seq<Seq<char>> {
    Seq::new(entries.len(), |i: int| entries[i].name@)
}

/// The records of `entries`.
spec fn entry_fonts(entries: Seq<Entry>) -> Seq<InstalledFontView> {
    Seq::new(entries.len(), |i: int| entries[i].font@)
}

impl View for InstalledFonts {
    type V = Map<Seq<char>, InstalledFontView>;

    /// The record of each installed item, by its name.
    open spec fn view(&self) -> Map<Seq<char>, InstalledFontView> {
        Map::new(
            |name: Seq<char>| self.names().contains(name),
            |name: Seq<char>| self.fonts()[self.names().index_of(name)],
        )
    }
}

impl InstalledFonts {
    /// The names of the installed items, in order.
    pub closed spec fn names(&self) -> Seq<Seq<char>> {
        entry_names(self.entries@)
    }

    /// The records of the installed items, in the order of their names.
    pub closed spec fn fonts(&self) -> Seq<InstalledFontView> {
        entry_fonts(self.entries@)
    }

    /// Whether the records have changed since they were read.
    pub closed spec fn changed(&self) -> bool {
        self.changed
    }

    /// Each name has its record, and the names are in order, none twice.
    pub open spec fn wf(&self) -> bool {
        self.names().len() == self.fonts().len() && ascending(self.names())
    }

    #[verifier::type_invariant]
    spec fn in_order(&self) -> bool {
        self.wf()
    }

    /// In well-formed records, the record of the name at a place is the
    /// record at that place.
    pub proof fn lemma_record_at(&self, place: int)
        requires
            self.wf(),
            0 <= place < self.names().len(),
        ensures
            self@.contains_key(self.names()[place]),
            self@[self.names()[place]] == self.fonts()[place],
    {
        let name = self.names()[place];
        let found = self.names().index_of(name);
        lemma_ascending_no_twice(self.names(), place, found);
    }

    /// No records, unchanged.
    pub fn new() -> (r: Self)
        ensures
            r.wf(),
            r@ == Map::<Seq<char>, InstalledFontView>::empty(),
            !r.changed(),
    {
        let r = InstalledFonts { entries: Vec::new(), changed: false };
        assert(r@ =~= Map::<Seq<char>, InstalledFontView>::empty());
        r
    }

    /// The place of `name` among the names, or the place where it belongs.
    fn locate(&self, name: &str) -> (r: (usize, bool))
        ensures
            self.wf(),
            r.0 <= self.names().len(),
            self.names().len() == self.entries@.len(),
            r.1 == self.names().contains(name@),
            r.1 ==> r.0 < self.names().len() && self.names()[r.0 as int] == name@,
            forall|i: int| 0 <= i < r.0 ==> text_before(#[trigger] self.names()[i], name@),
            !r.1 && r.0 < self.names().len() ==> text_before(name@, self.names()[r.0 as int]),
    {
        proof {
            use_type_invariant(self);
        }
        let mut at: usize = 0;
        while at < self.entries.len() && comes_first(self.entries[at].name.as_str(), name)
            invariant
                0 <= at <= self.entries@.len(),
                forall|i: int| 0 <= i < at ==> text_before(#[trigger] self.names()[i], name@),
            decreases self.entries@.len() - at,
        {
            assert(self.names()[at as int] == self.entries@[at as int].name@);
            at += 1;
        }
        let mut found = false;
        if at < self.entries.len() {
            assert(self.names()[at as int] == self.entries@[at as int].name@);
            found = same_text(self.entries[at].name.as_str(), name);
        }
        proof {
            lemma_not_before_itself(bytes_of(name@));
            if !found {
                if at < self.names().len() {
                    lemma_one_comes_first(bytes_of(name@), bytes_of(self.names()[at as int]));
                    if bytes_of(name@) == bytes_of(self.names()[at as int]) {
                        lemma_same_bytes_same_text(name@, self.names()[at as int]);
                    }
                }
                if self.names().contains(name@) {
                    let k = choose|k: int| 0 <= k < self.names().len() && self.names()[k] == name@;
                    if k > at {
                        assert(text_before(self.names()[at as int], self.names()[k]));
                        lemma_before_goes_on(
                            bytes_of(name@),
                            bytes_of(self.names()[at as int]),
                            bytes_of(name@),
                        );
                    } else if k < at {
                        assert(text_before(self.names()[k], name@));
                    }
                }
            }
        }
        (at, found)
    }

    /// Returns the names of all installed items, in order.
    #[must_use]
    pub fn get_names(&self) -> (r: Vec<String>)
        ensures
            self.wf(),
            texts_of(r@) == self.names(),
    {
        proof {
            use_type_invariant(self);
        }
        let mut out: Vec<String> = Vec::new();
        let mut i: usize = 0;
        while i < self.entries.len()
            invariant
                0 <= i <= self.entries@.len(),
                out@.len() == i,
                forall|j: int| 0 <= j < i ==> out@[j]@ == self.entries@[j].name@,
            decreases self.entries@.len() - i,
        {
            out.push(self.entries[i].name.clone());
            i += 1;
        }
        assert(texts_of(out@) =~= self.names());
        out
    }

    /// Returns the record of the item `name`, if it is installed.
    pub fn get(&self, name: &str) -> (r: Option<&InstalledFont>)
        ensures
            self.wf(),
            match r {
                Some(font) => self@.contains_key(name@) && font@ == self@[name@],
                None => !self@.contains_key(name@),
            },
    {
        let (at, found) = self.locate(name);
        if found {
            proof {
                self.lemma_record_at(at as int);
            }
            Some(&self.entries[at].font)
        } else {
            None
        }
    }

    /// Whether the records have changed since they were read, so that they
    /// have to be written.
    pub fn is_changed(&self) -> (r: bool)
        ensures
            r == self.changed(),
    {
        self.changed
    }

    /// Adds the record of the item `name`, in the place of the one it had, if
    /// it had one. The records count as changed unless the item had that very
    /// record already.
    pub fn update_entry(&mut self, name: &str, data: InstalledFont)
        ensures
            final(self).wf(),
            final(self)@ == old(self)@.insert(name@, data@),
            final(self).changed() == (old(self).changed() || !(old(self)@.contains_key(name@)
                && old(self)@[name@] == data@)),
    {
        let (at, found) = self.locate(name);
        let ghost names = self.names();
        let ghost fonts = self.fonts();
        proof {
            if found {
                self.lemma_record_at(at as int);
            }
        }
        if found && self.entries[at].font.same_as(&data) {
            assert(self@ =~= old(self)@.insert(name@, data@));
            return ;
        }
        let entry = Entry { name: name.to_owned(), font: data };
        let mut entries: Vec<Entry> = Vec::new();
        std::mem::swap(&mut entries, &mut self.entries);
        if found {
            entries[at] = entry;
            assert(entry_fonts(entries@) =~= fonts.update(at as int, data@));
            assert(entry_names(entries@) =~= names);
        } else {
            entries.insert(at, entry);
            assert(entry_names(entries@) =~= names.insert(at as int, name@));
            assert(entry_fonts(entries@) =~= fonts.insert(at as int, data@));
            assert forall|i: int, j: int| 0 <= i < j < entry_names(entries@).len() implies text_before(
                entry_names(entries@)[i],
                entry_names(entries@)[j],
            ) by {
                if j < at {
                    assert(text_before(names[i], names[j]));
                } else if j == at {
                    assert(text_before(names[i], name@));
                } else if i == at {
                    if j - 1 > at {
                        assert(text_before(names[at as int], names[j - 1]));
                        lemma_before_goes_on(
                            bytes_of(name@),
                            bytes_of(names[at as int]),
                            bytes_of(names[j - 1]),
                        );
                    }
                } else if i < at {
                    assert(text_before(names[i], names[j - 1]));
                } else {
                    assert(text_before(names[i - 1], names[j - 1]));
                }
            }
        }
        self.entries = entries;
        self.changed = true;
        proof {
            let ghost after = *self;
            let ghost before = *old(self);
            assert forall|key: Seq<char>| #[trigger]
                after@.contains_key(key) <==> before@.insert(name@, data@).contains_key(key) by {
                if after.names().contains(key) {
                    let k = choose|k: int| 0 <= k < after.names().len() && after.names()[k] == key;
                    if !found {
                        if k < at {
                            assert(names[k] == key);
                        } else if k > at {
                            assert(names[k - 1] == key);
                        }
                    }
                }
                if names.contains(key) {
                    let k = choose|k: int| 0 <= k < names.len() && names[k] == key;
                    if found || k < at {
                        assert(after.names()[k] == key);
                    } else {
                        assert(after.names()[k + 1] == key);
                    }
                }
                if key == name@ {
                    assert(after.names()[at as int] == key);
                }
            }
            assert forall|key: Seq<char>| #[trigger]
                after@.contains_key(key) implies after@[key] == before@.insert(
                name@,
                data@,
            )[key] by {
                let k = choose|k: int| 0 <= k < after.names().len() && after.names()[k] == key;
                after.lemma_record_at(k);
                if key != name@ {
                    if found {
                        before.lemma_record_at(k);
                    } else if k < at {
                        before.lemma_record_at(k);
                    } else {
                        before.lemma_record_at(k - 1);
                    }
                } else {
                    lemma_ascending_no_twice(after.names(), k, at as int);
                }
            }
            assert(after@ =~= before@.insert(name@, data@));
        }
    }

    /// Removes the record of the item `name`, if it has one. The records
    /// count as changed where it had one.
    pub fn remove_entry(&mut self, name: &str)
        ensures
            final(self).wf(),
            final(self)@ == old(self)@.remove(name@),
            final(self).changed() == (old(self).changed() || old(self)@.contains_key(name@)),
    {
        let (at, found) = self.locate(name);
        let ghost names = self.names();
        let ghost fonts = self.fonts();
        if found {
            let mut entries: Vec<Entry> = Vec::new();
            std::mem::swap(&mut entries, &mut self.entries);
            let _ = entries.remove(at);
            assert(entry_names(entries@) =~= names.remove(at as int));
            assert(entry_fonts(entries@) =~= fonts.remove(at as int));
            assert forall|i: int, j: int| 0 <= i < j < entry_names(entries@).len() implies text_before(
                entry_names(entries@)[i],
                entry_names(entries@)[j],
            ) by {
                let a = if i < at {
                    i
                } else {
                    i + 1
                };
                let b = if j < at {
                    j
                } else {
                    j + 1
                };
                assert(text_before(names[a], names[b]));
            }
            self.entries = entries;
            self.changed = true;
        }
        proof {
            let ghost after = *self;
            let ghost before = *old(self);
            assert forall|key: Seq<char>| #[trigger]
                after@.contains_key(key) <==> before@.remove(name@).contains_key(key) by {
                if after.names().contains(key) {
                    let k = choose|k: int| 0 <= k < after.names().len() && after.names()[k] == key;
                    if found {
                        if k < at {
                            assert(names[k] == key);
                            if key == name@ {
                                lemma_ascending_no_twice(names, k, at as int);
                            }
                        } else {
                            assert(names[k + 1] == key);
                            if key == name@ {
                                lemma_ascending_no_twice(names, k + 1, at as int);
                            }
                        }
                    }
                }
                if names.contains(key) && key != name@ {
                    let k = choose|k: int| 0 <= k < names.len() && names[k] == key;
                    if !found || k < at {
                        assert(after.names()[k] == key);
                    } else {
                        assert(after.names()[k - 1] == key);
                    }
                }
            }
            assert forall|key: Seq<char>| #[trigger]
                after@.contains_key(key) implies after@[key] == before@.remove(name@)[key] by {
                let k = choose|k: int| 0 <= k < after.names().len() && after.names()[k] == key;
                after.lemma_record_at(k);
                if !found || k < at {
                    before.lemma_record_at(k);
                } else {
                    before.lemma_record_at(k + 1);
                }
            }
            assert(after@ =~= before@.remove(name@));
        }
    }
}

/// Those of `old_files` that are not among `new_files`, in their order: the
/// files that an item no longer has.
pub open spec fn strays(old_files: Seq<Seq<char>>, new_files: Seq<Seq<char>>) -> Seq<Seq<char>>
    decreases old_files.len(),
{
    if old_files.len() == 0 {
        Seq::empty()
    } else {
        let before = strays(old_files.drop_last(), new_files);
        if new_files.contains(old_files.last()) {
            before
        } else {
            before.push(old_files.last())
        }
    }
}

/// A file is a stray if and only if the item had it and has it no longer.
pub proof fn law_strays_are_old_not_new(
    old_files: Seq<Seq<char>>,
    new_files: Seq<Seq<char>>,
    file: Seq<char>,
)
    ensures
        strays(old_files, new_files).contains(file) <==> (old_files.contains(file)
            && !new_files.contains(file)),
    decreases old_files.len(),
{
    if old_files.len() > 0 {
        let front = old_files.drop_last();
        let before = strays(front, new_files);
        let all = strays(old_files, new_files);
        law_strays_are_old_not_new(front, new_files, file);
        if all.contains(file) {
            let k = choose|k: int| 0 <= k < all.len() && all[k] == file;
            if k < before.len() {
                assert(before[k] == file);
                let j = choose|j: int| 0 <= j < front.len() && front[j] == file;
                assert(old_files[j] == file);
            } else {
                assert(old_files[old_files.len() - 1] == file);
            }
        }
        if old_files.contains(file) && !new_files.contains(file) {
            let j = choose|j: int| 0 <= j < old_files.len() && old_files[j] == file;
            if j < front.len() {
                assert(front[j] == file);
                let k = choose|k: int| 0 <= k < before.len() && before[k] == file;
                assert(all[k] == file);
            } else {
                assert(all[before.len() as int] == file);
            }
        }
    }
}

/// Where the item has the files that it had, nothing is a stray.
pub proof fn law_no_strays_among_same(files: Seq<Seq<char>>, upto: int)
    requires
        0 <= upto <= files.len(),
    ensures
        strays(files.take(upto), files).len() == 0,
    decreases upto,
{
    if upto > 0 {
        law_no_strays_among_same(files, upto - 1);
        assert(files.take(upto).drop_last() =~= files.take(upto - 1));
        assert(files[upto - 1] == files.take(upto).last());
    }
}

/// Whether `list` holds `text`.
pub fn holds_text(list: &[String], text: &str) -> (r: bool)
    ensures
        r == texts_of(list@).contains(text@),
{
    let mut i: usize = 0;
    while i < list.len()
        invariant
            0 <= i <= list@.len(),
            forall|j: int| 0 <= j < i ==> texts_of(list@)[j] != text@,
        decreases list@.len() - i,
    {
        if same_text(list[i].as_str(), text) {
            assert(texts_of(list@)[i as int] == text@);
            return true;
        }
        i += 1;
    }
    false
}

/// Returns the files that an item no longer has: those of `old_files` that
/// are not among `new_files`. These are the files to delete.
pub fn stray_files(old_files: &[String], new_files: &[String]) -> (r: Vec<String>)
    ensures
        texts_of(r@) == strays(texts_of(old_files@), texts_of(new_files@)),
{
    let ghost had = texts_of(old_files@);
    let ghost has = texts_of(new_files@);
    let mut out: Vec<String> = Vec::new();
    let mut i: usize = 0;
    assert(had.take(0) =~= Seq::<Seq<char>>::empty());
    while i < old_files.len()
        invariant
            0 <= i <= old_files@.len(),
            had == texts_of(old_files@),
            has == texts_of(new_files@),
            texts_of(out@) =~= strays(had.take(i as int), has),
        decreases old_files@.len() - i,
    {
        assert(had.take(i + 1).drop_last() =~= had.take(i as int));
        assert(had.take(i + 1).last() == old_files@[i as int]@);
        if !holds_text(new_files, old_files[i].as_str()) {
            out.push(old_files[i].clone());
        }
        i += 1;
    }
    assert(had.take(i as int) =~= had);
    out
}

impl InstalledFonts {
    /// Returns the files to delete once the item `font` has been recorded
    /// anew: those of `old_files` that the item no longer has. Nothing is to
    /// delete for an item that was not installed before, or is not recorded.
    pub fn cleanup(&self, font: &str, old_files: &Option<Vec<String>>) -> (r: Vec<String>)
        ensures
            texts_of(r@) == match old_files {
                Some(old_files) => if self@.contains_key(font@) {
                    strays(texts_of(old_files@), self@[font@].files)
                } else {
                    Seq::empty()
                },
                None => Seq::empty(),
            },
    {
        let none: Vec<String> = Vec::new();
        assert(texts_of(none@) =~= Seq::<Seq<char>>::empty());
        match (self.get(font), old_files) {
            (Some(installed), Some(old_files)) => stray_files(
                old_files.as_slice(),
                installed.files.as_slice(),
            ),
            _ => none,
        }
    }
}

/// Whether `dir` is a directory above `file`: `file` begins with `dir`, and a
/// `/` follows.
pub open spec fn is_above(dir: Seq<char>, file: Seq<char>) -> bool {
    dir.len() < file.len() && file[dir.len() as int] == '/' && file.take(dir.len() as int) == dir
}

/// Whether `dir` is a directory above one of `files`.
pub open spec fn is_above_any(dir: Seq<char>, files: Seq<Seq<char>>) -> bool {
    exists|i: int| 0 <= i < files.len() && is_above(dir, #[trigger] files[i])
}

/// Returns the directories to look at once `files` have been deleted from the
/// directory of an item: every directory above one of the files, and the
/// directory of the item itself, which is the empty path. A directory comes
/// before the directories above it: the list is in falling order.
pub fn directories_of(files: &[String]) -> (r: Vec<String>)
    ensures
        ascending(texts_of(r@).reverse()),
        forall|dir: Seq<char>|
            texts_of(r@).contains(dir) <==> (dir.len() == 0 || is_above_any(
                dir,
                texts_of(files@),
            )),
{
    let ghost all = texts_of(files@);
    let mut rising: Vec<String> = Vec::new();
    insert_ordered(&mut rising, String::new());
    let mut i: usize = 0;
    assert forall|dir: Seq<char>|
        texts_of(rising@).contains(dir) <==> (dir.len() == 0 || is_above_any(
            dir,
            all.take(0),
        )) by {
        if dir.len() == 0 {
            assert(dir =~= Seq::<char>::empty());
        }
    }
    while i < files.len()
        invariant
            0 <= i <= files@.len(),
            all == texts_of(files@),
            ascending(texts_of(rising@)),
            forall|dir: Seq<char>|
                #![trigger texts_of(rising@).contains(dir)]
                texts_of(rising@).contains(dir) <==> (dir.len() == 0 || is_above_any(
                    dir,
                    all.take(i as int),
                )),
        decreases files@.len() - i,
    {
        let file = files[i].as_str();
        let chars = crate::text::chars_of(file);
        let ghost before = texts_of(rising@);
        let mut k: usize = 0;
        while k < chars.len()
            invariant
                0 <= k <= chars@.len(),
                0 <= i < files@.len(),
                chars@ == file@,
                file@ == all[i as int],
                all == texts_of(files@),
                ascending(texts_of(rising@)),
                forall|dir: Seq<char>|
                    #![trigger texts_of(rising@).contains(dir)]
                    #![trigger before.contains(dir)]
                    #![trigger is_above(dir, file@)]
                    texts_of(rising@).contains(dir) <==> (before.contains(dir) || (dir.len() < k
                        && is_above(dir, file@))),
            decreases chars@.len() - k,
        {
            if chars[k] == '/' {
                let dir = file.substring_char(0, k).to_owned();
                assert(file@.subrange(0, k as int) =~= file@.take(k as int));
                let ghost earlier = texts_of(rising@);
                let ghost added = dir@;
                insert_ordered(&mut rising, dir);
                assert forall|other: Seq<char>|
                    texts_of(rising@).contains(other) <==> (before.contains(other) || (other.len()
                        < k + 1 && is_above(other, file@))) by {
                    assert(texts_of(rising@).contains(other) <==> (other == added
                        || earlier.contains(other)));
                    assert(earlier.contains(other) <==> (before.contains(other) || (other.len() < k
                        && is_above(other, file@))));
                    assert(is_above(added, file@));
                    if other.len() == k && is_above(other, file@) {
                        assert(other == file@.take(k as int));
                    }
                }
            } else {
                let ghost earlier = texts_of(rising@);
                assert forall|other: Seq<char>|
                    earlier.contains(other) <==> (before.contains(other) || (other.len() < k + 1
                        && is_above(other, file@))) by {
                    assert(earlier.contains(other) <==> (before.contains(other) || (other.len() < k
                        && is_above(other, file@))));
                }
            }
            k += 1;
        }
        proof {
            assert forall|dir: Seq<char>|
                texts_of(rising@).contains(dir) <==> (dir.len() == 0 || is_above_any(
                    dir,
                    all.take(i + 1),
                )) by {
                if is_above_any(dir, all.take(i + 1)) {
                    let j = choose|j: int|
                        0 <= j < all.take(i + 1).len() && is_above(
                            dir,
                            #[trigger] all.take(i + 1)[j],
                        );
                    if j < i {
                        assert(is_above(dir, all.take(i as int)[j]));
                    }
                }
                if is_above_any(dir, all.take(i as int)) {
                    let j = choose|j: int|
                        0 <= j < all.take(i as int).len() && is_above(
                            dir,
                            #[trigger] all.take(i as int)[j],
                        );
                    assert(is_above(dir, all.take(i + 1)[j]));
                }
                if is_above(dir, file@) {
                    assert(is_above(dir, all.take(i + 1)[i as int]));
                }
            }
        }
        i += 1;
    }
    assert(all.take(i as int) =~= all);
    let ghost sorted = texts_of(rising@);
    assert forall|dir: Seq<char>| #![trigger sorted.contains(dir)]
        sorted.contains(dir) <==> (dir.len() == 0 || is_above_any(dir, texts_of(files@))) by {}
    let mut falling: Vec<String> = Vec::new();
    let mut j: usize = rising.len();
    while j > 0
        invariant
            0 <= j <= rising@.len(),
            sorted == texts_of(rising@),
            ascending(sorted),
            forall|dir: Seq<char>|
                #![trigger sorted.contains(dir)]
                sorted.contains(dir) <==> (dir.len() == 0 || is_above_any(dir, texts_of(files@))),
            falling@.len() == rising@.len() - j,
            forall|k: int|
                0 <= k < falling@.len() ==> falling@[k]@ == rising@[rising@.len() - 1 - k]@,
        decreases j,
    {
        j -= 1;
        falling.push(rising[j].clone());
    }
    assert(texts_of(falling@).reverse() =~= sorted);
    assert forall|dir: Seq<char>|
        texts_of(falling@).contains(dir) <==> (dir.len() == 0 || is_above_any(
            dir,
            texts_of(files@),
        )) by {
        assert(sorted.contains(dir) <==> (dir.len() == 0 || is_above_any(dir, texts_of(files@))));
        if texts_of(falling@).contains(dir) {
            let k = choose|k: int| 0 <= k < falling@.len() && texts_of(falling@)[k] == dir;
            assert(sorted[sorted.len() - 1 - k] == dir);
        }
        if sorted.contains(dir) {
            let k = choose|k: int| 0 <= k < sorted.len() && sorted[k] == dir;
            assert(texts_of(falling@)[sorted.len() - 1 - k] == dir);
        }
    }
    falling
}

/// In a list in falling order no directory comes before a directory below
/// it: so each directory is looked at after all that it holds.
pub proof fn law_inner_directories_first(list: Seq<Seq<char>>, i: int, j: int)
    requires
        ascending(list.reverse()),
        0 <= i < j < list.len(),
    ensures
        !is_above(list[i], list[j]),
{
    let rising = list.reverse();
    let a = list.len() - 1 - j;
    let b = list.len() - 1 - i;
    assert(rising[a] == list[j] && rising[b] == list[i]);
    assert(text_before(rising[a], rising[b]));
    if is_above(list[i], list[j]) {
        let dir = list[i];
        let file = list[j];
        assert(file =~= dir + file.skip(dir.len() as int));
        crate::encoding::lemma_bytes_of_concat(dir, file.skip(dir.len() as int));
        crate::ordered::lemma_start_not_behind(bytes_of(dir), bytes_of(file));
    }
}

/// Returns the path of the file `file` of an item in the directory `dir`.
pub fn file_in(dir: &str, file: &str) -> (r: String)
    ensures
        r@ == dir@ + "/"@ + file@,
{
    let mut out = dir.to_owned();
    out.append("/");
    out.append(file);
    out
}

/// Returns the path of the directory `subdir` of an item, one of those that
/// `directories_of` gives, in the directory `dir` of the item.
pub fn directory_in(dir: &str, subdir: &str) -> (r: String)
    ensures
        r@ == dir@ + subdir@,
{
    let mut out = dir.to_owned();
    out.append(subdir);
    out
}

/// How an attempt to remove the files of an item ended.
#[derive(Debug, Clone, Copy, PartialEq, Eq, Structural)]
pub enum Removal {
    /// The directory of the item was not there.
    DirectoryMissing,
    /// The files were removed.
    Removed,
    /// Some file could not be removed.
    Failed,
}

impl InstalledFonts {
    /// Takes an item out of the records once its files have been dealt with.
    /// An item that is not installed has nothing to take out. Otherwise the
    /// record goes, unless the removal of the files failed; the directory of
    /// the item is returned.
    pub fn uninstall(&mut self, font: &str, removal: Removal) -> (r: Result<Option<String>, Error>)
        ensures
            final(self).wf(),
            if !old(self)@.contains_key(font@) {
                r matches Ok(None) && final(self)@ == old(self)@ && final(self).changed() == old(self).changed()
            } else if removal == Removal::Failed {
                r matches Err(error) && error == Error::FileSystem && final(self)@ == old(self)@
                    && final(self).changed() == old(self).changed()
            } else {
                r matches Ok(Some(dir)) && dir@ == old(self)@[font@].dir && final(self)@ == old(self)@.remove(font@) && final(self).changed()
            },
    {
        let dir = match self.get(font) {
            Some(installed) => installed.dir.clone(),
            None => {
                return Ok(None);
            },
        };
        match removal {
            Removal::Failed => Err(Error::FileSystem),
            _ => {
                self.remove_entry(font);
                Ok(Some(dir))
            },
        }
    }
}

/// The name of the directory `dir`, for messages: what stands between the
/// last two `/` of it.
pub fn dir_name(dir: &str) -> (r: String)
    ensures
        r@ == if crate::text::last_place_of(dir@, '/') < 0 {
            "(unknown)"@
        } else {
            crate::text::after_last(crate::text::before_last(dir@, '/'), '/')
        },
{
    let chars = crate::text::chars_of(dir);
    match crate::text::find_last(chars.as_slice(), '/') {
        Some(_) => crate::text::text_after_last(crate::text::text_before_last(dir, '/'), '/').to_owned(),
        None => "(unknown)".to_owned(),
    }
}

/// The records that a list of names and records stands for: each record under
/// its name, a later one in the place of an earlier one of the same name.
pub open spec fn records_of(records: Seq<(String, InstalledFont)>) -> Map<
    Seq<char>,
    InstalledFontView,
>
    decreases records.len(),
{
    if records.len() == 0 {
        Map::empty()
    } else {
        records_of(records.drop_last()).insert(records.last().0@, records.last().1@)
    }
}

/// The text of the records as it is written: the text that was made of them,
/// with each list of files laid out one file to a line.
pub open spec fn laid_out(text: Seq<char>) -> Seq<char> {
    replaced(
        replaced(replaced(text, "[\""@, "[\n\t\""@), "\", \""@, "\",\n\t\""@),
        "\"]"@,
        "\"\n]"@,
    )
}

impl InstalledFonts {
    /// Makes the records from what was read of them. They count as
    /// unchanged.
    pub fn read(records: &[(String, InstalledFont)]) -> (r: Self)
        ensures
            r.wf(),
            r@ == records_of(records@),
            !r.changed(),
    {
        let mut installed = InstalledFonts::new();
        let mut i: usize = 0;
        assert(records@.take(0) =~= Seq::<(String, InstalledFont)>::empty());
        while i < records.len()
            invariant
                0 <= i <= records@.len(),
                installed.wf(),
                installed@ == records_of(records@.take(i as int)),
            decreases records@.len() - i,
        {
            assert(records@.take(i + 1).drop_last() =~= records@.take(i as int));
            installed.update_entry(records[i].0.as_str(), records[i].1.copy());
            i += 1;
        }
        assert(records@.take(i as int) =~= records@);
        installed.changed = false;
        installed
    }

    /// Returns the text to write of the records, given the text that was made
    /// of them; nothing where the records have not changed since they were
    /// read.
    pub fn write(&self, text: &str) -> (r: Option<String>)
        ensures
            match r {
                Some(written) => self.changed() && written@ == laid_out(text@),
                None => !self.changed(),
            },
    {
        if !self.changed {
            return None;
        }
        let first = replace_text(text, "[\"", "[\n\t\"");
        let second = replace_text(first.as_str(), "\", \"", "\",\n\t\"");
        Some(replace_text(second.as_str(), "\"]", "\"\n]"))
    }
}

} // verus!
