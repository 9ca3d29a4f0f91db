//! A directory as it was found on disk, and the configuration files in it.
//!
//! The library does not read the disk. The caller hands it a snapshot: the
//! entries below the path at which a scan starts, each with its kind, and
//! with its own entries or its lines where those were read.

use vstd::prelude::*;
use crate::text::ends_with;

verus! {

/// What an entry of a directory is.
#[derive(Clone, Copy, Debug, PartialEq, Eq, Structural)]
pub enum EntryKind {
    /// A regular file.
    File,
    /// A symbolic link, whatever it points to.
    Symlink,
    /// A directory.
    Directory,
    /// Anything else, and an entry whose kind could not be told.
    Other,
}

/// One entry of a directory, as it was found on disk.
pub struct DirEntry {
    /// The path of the entry: the path of its directory and its name.
    pub path: String,
    /// The name of the entry, where it is valid Unicode.
    pub name: Option<String>,
    /// What the entry is.
    pub kind: EntryKind,
    /// Of a directory: its entries, where they were read.
    pub entries: Option<Vec<DirEntry>>,
    /// Of a file or a link: its lines, where they were read.
    pub lines: Option<Vec<String>>,
}

/// What was found at the path at which the scan of a dialect starts.
pub enum PathScan {
    /// Nothing, or something that is no directory.
    Missing,
    /// A directory whose entries could not be read.
    Unreadable,
    /// A directory with these entries.
    Directory(Vec<DirEntry>),
}

/// One of the endings ends the name.
pub open spec fn has_extension(name: Seq<char>, extensions: Seq<Seq<char>>) -> bool {
    exists|i: int| 0 <= i < extensions.len() && (#[trigger] extensions[i]).is_suffix_of(name)
}

/// The entry is a configuration file: a regular file or a symbolic link
/// whose name is valid Unicode and ends with one of the endings.
pub open spec fn is_vhost_file(entry: DirEntry, extensions: Seq<Seq<char>>) -> bool {
    &&& entry.kind == EntryKind::File || entry.kind == EntryKind::Symlink
    &&& entry.name matches Some(name) && has_extension(name@, extensions)
}

/// The configuration files among the entries, in the order in which a walk
/// meets them. With `recursive`, the walk goes into every directory whose
/// entries were read, to any depth; without it, directories are passed over.
pub open spec fn vhost_files(entries: Seq<DirEntry>, extensions: Seq<Seq<char>>, recursive: bool) -> Seq<
    DirEntry,
>
    decreases entries, 1int,
{
    if entries.len() == 0 {
        Seq::empty()
    } else {
        vhost_files(entries.drop_last(), extensions, recursive) + vhost_files_at(
            entries.last(),
            extensions,
            recursive,
        )
    }
}

/// The configuration files that one entry stands for: those below it where
/// it is a directory, and itself where it is a configuration file.
pub open spec fn vhost_files_at(entry: DirEntry, extensions: Seq<Seq<char>>, recursive: bool) -> Seq<
    DirEntry,
>
    decreases entry, 0int,
{
    let below = if recursive && entry.kind == EntryKind::Directory {
        match entry.entries {
            Some(children) => vhost_files(children@, extensions, recursive),
            None => Seq::empty(),
        }
    } else {
        Seq::empty()
    };
    if is_vhost_file(entry, extensions) {
        below.push(entry)
    } else {
        below
    }
}

/// The test that an entry passes where it is a configuration file.
pub open spec fn vhost_file_test(extensions: Seq<Seq<char>>) -> spec_fn(DirEntry) -> bool {
    |entry: DirEntry| is_vhost_file(entry, extensions)
}

/// Without `recursive`, the configuration files that are listed are those
/// among the entries themselves, and none from below them.
pub proof fn lemma_flat_listing(entries: Seq<DirEntry>, extensions: Seq<Seq<char>>)
    ensures
        vhost_files(entries, extensions, false) == entries.filter(vhost_file_test(extensions)),
    decreases entries.len(),
{
    reveal(Seq::filter);
    if entries.len() > 0 {
        lemma_flat_listing(entries.drop_last(), extensions);
        let before = vhost_files(entries.drop_last(), extensions, false);
        if is_vhost_file(entries.last(), extensions) {
            assert(vhost_files_at(entries.last(), extensions, false) =~= seq![entries.last()]);
            assert(before + seq![entries.last()] =~= before.push(entries.last()));
        } else {
            assert(vhost_files_at(entries.last(), extensions, false) =~= Seq::<
                DirEntry,
            >::empty());
            assert(before + Seq::<DirEntry>::empty() =~= before);
        }
    }
}

/// What one of the entries stands for is part of what all of them stand for.
pub proof fn lemma_listing_holds_each_entry(
    entries: Seq<DirEntry>,
    extensions: Seq<Seq<char>>,
    recursive: bool,
    index: int,
    file: DirEntry,
)
    requires
        0 <= index < entries.len(),
        vhost_files_at(entries[index], extensions, recursive).contains(file),
    ensures
        vhost_files(entries, extensions, recursive).contains(file),
    decreases entries.len(),
{
    let before = vhost_files(entries.drop_last(), extensions, recursive);
    let last = vhost_files_at(entries.last(), extensions, recursive);
    let all = vhost_files(entries, extensions, recursive);
    if index < entries.len() - 1 {
        assert(entries.drop_last()[index] == entries[index]);
        lemma_listing_holds_each_entry(entries.drop_last(), extensions, recursive, index, file);
        let k = choose|k: int| 0 <= k < before.len() && before[k] == file;
        assert(all[k] == file);
    } else {
        let k = choose|k: int| 0 <= k < last.len() && last[k] == file;
        assert(all[before.len() + k] == file);
    }
}

/// A configuration file among the entries is listed, with `recursive` and
/// without it.
pub proof fn lemma_listing_holds_own_files(
    entries: Seq<DirEntry>,
    extensions: Seq<Seq<char>>,
    recursive: bool,
    index: int,
)
    requires
        0 <= index < entries.len(),
        is_vhost_file(entries[index], extensions),
    ensures
        vhost_files(entries, extensions, recursive).contains(entries[index]),
{
    let at = vhost_files_at(entries[index], extensions, recursive);
    assert(at[at.len() - 1] == entries[index]);
    lemma_listing_holds_each_entry(entries, extensions, recursive, index, entries[index]);
}

/// With `recursive`, what is listed below a directory whose entries were
/// read is listed for the directory that holds it too; so the files of every
/// depth are listed.
pub proof fn lemma_listing_reaches_subdirectories(
    entries: Seq<DirEntry>,
    extensions: Seq<Seq<char>>,
    index: int,
    file: DirEntry,
)
    requires
        0 <= index < entries.len(),
        entries[index].kind == EntryKind::Directory,
        entries[index].entries matches Some(children) && vhost_files(
            children@,
            extensions,
            true,
        ).contains(file),
    ensures
        vhost_files(entries, extensions, true).contains(file),
{
    let below = vhost_files(entries[index].entries->Some_0@, extensions, true);
    let at = vhost_files_at(entries[index], extensions, true);
    let k = choose|k: int| 0 <= k < below.len() && below[k] == file;
    assert(at[k] == file);
    lemma_listing_holds_each_entry(entries, extensions, true, index, file);
}

/// The paths of the entries.
pub open spec fn paths_of(entries: Seq<DirEntry>) -> Seq<Seq<char>> {
    entries.map_values(|entry: DirEntry| entry.path@)
}

/// `after` is `before` with the entries `listed` added at its end, in their
/// order.
pub open spec fn grown_by(after: Seq<&DirEntry>, before: Seq<&DirEntry>, listed: Seq<DirEntry>) -> bool {
    &&& after.len() == before.len() + listed.len()
    &&& forall|i: int| 0 <= i < before.len() ==> #[trigger] after[i] == before[i]
    &&& forall|i: int| 0 <= i < listed.len() ==> *after[before.len() + i] == #[trigger] listed[i]
}

/// Tests whether one of the endings ends the name.
pub fn name_has_extension(file_name: &str, file_extensions: &Vec<String>) -> (found: bool)
    ensures
        found == has_extension(file_name@, file_extensions.deep_view()),
{
    let ghost extensions = file_extensions.deep_view();
    let mut i: usize = 0;
    while i < file_extensions.len()
        invariant
            i <= file_extensions.len(),
            extensions == file_extensions.deep_view(),
            forall|j: int| 0 <= j < i ==> !(#[trigger] extensions[j]).is_suffix_of(file_name@),
        decreases file_extensions.len() - i,
    {
        assert(extensions[i as int] == file_extensions[i as int]@);
        if ends_with(file_name, file_extensions[i].as_str()) {
            return true;
        }
        i += 1;
    }
    false
}

/// Tests whether the entry is a configuration file.
pub fn entry_is_vhost_file(file_extensions: &Vec<String>, dir_entry: &DirEntry) -> (found: bool)
    ensures
        found == is_vhost_file(*dir_entry, file_extensions.deep_view()),
{
    match dir_entry.kind {
        EntryKind::File | EntryKind::Symlink => match &dir_entry.name {
            Some(file_name) => name_has_extension(file_name.as_str(), file_extensions),
            None => false,
        },
        _ => false,
    }
}

/// The path of the entry, where the entry is a configuration file.
pub fn get_vhost_file_from_dir(file_extensions: &Vec<String>, dir_entry: &DirEntry) -> (result: Option<
    String,
>)
    ensures
        result.deep_view() == if is_vhost_file(*dir_entry, file_extensions.deep_view()) {
            Some(dir_entry.path@)
        } else {
            None
        },
{
    if entry_is_vhost_file(file_extensions, dir_entry) {
        Some(dir_entry.path.clone())
    } else {
        None
    }
}

/// Adds to `found` the configuration files among the entries, in the order
/// in which a walk meets them.
pub fn collect_vhost_files<'a>(
    entries: &'a Vec<DirEntry>,
    file_extensions: &Vec<String>,
    recursive: bool,
    found: &mut Vec<&'a DirEntry>,
)
    ensures
        grown_by(
            final(found)@,
            old(found)@,
            vhost_files(entries@, file_extensions.deep_view(), recursive),
        ),
    decreases entries,
{
    let ghost extensions = file_extensions.deep_view();
    let ghost start = found@;
    let mut i: usize = 0;
    assert(entries@.take(0) =~= Seq::<DirEntry>::empty());
    while i < entries.len()
        invariant
            i <= entries.len(),
            extensions == file_extensions.deep_view(),
            grown_by(found@, start, vhost_files(entries@.take(i as int), extensions, recursive)),
        decreases entries.len() - i,
    {
        let entry = &entries[i];
        let ghost before = vhost_files(entries@.take(i as int), extensions, recursive);
        let ghost at_entry = found@;
        proof {
            assert(entries@.take(i + 1).drop_last() =~= entries@.take(i as int));
            assert(entries@.take(i + 1).last() == *entry);
        }
        if recursive {
            match entry.kind {
                EntryKind::Directory => match &entry.entries {
                    Some(children) => {
                        collect_vhost_files(children, file_extensions, recursive, found);
                    },
                    None => {},
                },
                _ => {},
            }
        }
        let ghost below = found@;
        if entry_is_vhost_file(file_extensions, entry) {
            found.push(entry);
        }
        proof {
            let at = vhost_files_at(*entry, extensions, recursive);
            let listed = vhost_files(entries@.take(i + 1), extensions, recursive);
            assert(listed =~= before + at);
            assert(below.len() + (if is_vhost_file(*entry, extensions) { 1nat } else { 0nat })
                == found@.len());
            assert forall|k: int| 0 <= k < start.len() implies #[trigger] found@[k] == start[k] by {
                assert(below[k] == at_entry[k]);
            }
            assert forall|k: int| 0 <= k < listed.len() implies *found@[start.len() + k]
                == #[trigger] listed[k] by {
                if k < before.len() {
                    assert(*at_entry[start.len() + k] == before[k]);
                    assert(below[start.len() + k] == at_entry[start.len() + k]);
                } else if start.len() + k < below.len() {
                    let below_listed = vhost_files(entry.entries->Some_0@, extensions, recursive);
                    assert(*below[at_entry.len() + (k - before.len())] == below_listed[k
                        - before.len()]);
                }
            }
        }
        i += 1;
    }
    assert(entries@.take(i as int) =~= entries@);
}

} // verus!
