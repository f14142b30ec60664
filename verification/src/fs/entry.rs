//! A scanned directory entry.

use compact_str::CompactString;
use vstd::prelude::*;

use crate::compact::compact_chars;
use crate::path::{shown_name, FilePath};
use crate::text::{chars_of, same_text};

verus! {

/// A single scanned directory entry.
#[derive(Debug, PartialEq, Eq)]
pub struct FileEntry {
    pub name: CompactString,
    pub path: FilePath,
    pub is_dir: bool,
    pub size: u64,
    pub is_hidden: bool,
}

/// What a [`FileEntry`] says.
pub struct EntryView {
    pub name: Seq<char>,
    pub path: Seq<u8>,
    pub is_dir: bool,
    pub size: u64,
    pub is_hidden: bool,
}

impl View for FileEntry {
    type V = EntryView;

    open spec fn view(&self) -> EntryView {
        EntryView {
            name: compact_chars(self.name),
            path: self.path@,
            is_dir: self.is_dir,
            size: self.size,
            is_hidden: self.is_hidden,
        }
    }
}

/// What each entry of a listing says.
pub open spec fn entry_views(list: Seq<FileEntry>) -> Seq<EntryView> {
    list.map_values(|e: FileEntry| e@)
}

/// Whether a shown name marks a hidden entry: it begins with a dot.
pub open spec fn is_dotted(name: Seq<char>) -> bool {
    name.len() > 0 && name[0] == '.'
}

/// Whether `name` begins with a dot.
pub fn dotted(name: &str) -> (r: bool)
    ensures
        r == is_dotted(name@),
{
    let chars = chars_of(name);
    chars.len() > 0 && chars[0] == '.'
}

impl FileEntry {
    /// An entry is named after the last part of its path; a path without one, such as the root,
    /// is shown whole.
    pub fn new(path: FilePath, is_dir: bool, size: u64) -> (r: FileEntry)
        ensures
            r@ == (EntryView {
                name: shown_name(path@),
                path: path@,
                is_dir,
                size,
                is_hidden: is_dotted(shown_name(path@)),
            }),
    {
        let name = path.shown_name();
        let is_hidden: bool = dotted(name.as_str());
        FileEntry { name, path, is_dir, size, is_hidden }
    }
}

impl Clone for FileEntry {
    fn clone(&self) -> (r: FileEntry)
        ensures
            r@ == self@,
    {
        FileEntry {
            name: self.name.clone(),
            path: self.path.clone(),
            is_dir: self.is_dir,
            size: self.size,
            is_hidden: self.is_hidden,
        }
    }
}

/// The position of the first entry with a name.
pub open spec fn name_position(list: Seq<EntryView>, name: Seq<char>) -> Option<int>
    decreases list.len(),
{
    if list.len() == 0 {
        None
    } else {
        match name_position(list.drop_last(), name) {
            Some(i) => Some(i),
            None => if list.last().name == name {
                Some(list.len() - 1)
            } else {
                None
            },
        }
    }
}

/// The first entry of `entries` with the given name.
pub fn index_of_name(entries: &Vec<FileEntry>, name: &str) -> (r: Option<usize>)
    ensures
        r is Some == name_position(entry_views(entries@), name@) is Some,
        r matches Some(i) ==> i < entries.len() && i as int == name_position(
            entry_views(entries@),
            name@,
        )->0,
{
    let mut i: usize = 0;
    let ghost all = entry_views(entries@);
    while i < entries.len()
        invariant
            i <= entries.len(),
            all == entry_views(entries@),
            name_position(all.take(i as int), name@) is None,
        decreases entries.len() - i,
    {
        assert(all.take(i + 1).drop_last() == all.take(i as int));
        if same_text(entries[i].name.as_str(), name) {
            proof {
                lemma_position_of_prefix(all, name@, i + 1);
            }
            return Some(i);
        }
        i += 1;
    }
    assert(all.take(i as int) == all);
    None
}

proof fn lemma_position_of_prefix(list: Seq<EntryView>, name: Seq<char>, n: int)
    requires
        0 <= n <= list.len(),
        name_position(list.take(n), name) is Some,
    ensures
        name_position(list, name) == name_position(list.take(n), name),
    decreases list.len() - n,
{
    if n < list.len() {
        assert(list.take(n + 1).drop_last() == list.take(n));
        lemma_position_of_prefix(list, name, n + 1);
    } else {
        assert(list.take(n) == list);
    }
}

/// The position found for a name is that of the first entry with the name, and there is one
/// exactly when some entry has it.
pub proof fn name_position_is_the_first(list: Seq<EntryView>, name: Seq<char>)
    ensures
        name_position(list, name) matches Some(i) ==> 0 <= i < list.len() && list[i].name == name
            && forall|j: int| 0 <= j < i ==> list[j].name != name,
        name_position(list, name) is None ==> forall|j: int|
            0 <= j < list.len() ==> list[j].name != name,
    decreases list.len(),
{
    if list.len() > 0 {
        name_position_is_the_first(list.drop_last(), name);
        let front = list.drop_last();
        assert forall|j: int| 0 <= j < front.len() implies list[j] == front[j] by {}
    }
}

/// A listing with the same entries.
pub fn cloned_entries(list: &Vec<FileEntry>) -> (r: Vec<FileEntry>)
    ensures
        entry_views(r@) == entry_views(list@),
{
    let mut r: Vec<FileEntry> = Vec::new();
    let mut i: usize = 0;
    while i < list.len()
        invariant
            i <= list.len(),
            r.len() == i,
            forall|j: int| 0 <= j < i ==> (#[trigger] r@[j])@ == list@[j]@,
        decreases list.len() - i,
    {
        r.push(list[i].clone());
        i += 1;
    }
    assert(entry_views(r@) == entry_views(list@));
    r
}

} // verus!
