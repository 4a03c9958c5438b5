//! The zip container behind an MDZ document, held in memory and read
//! through the `zip` crate.
//!
//! Nothing here is proved of the crate: the contracts of this module state
//! what its reader does, and the rest of the library is proved from them.

use std::io::Cursor;
use std::io::Read;
use vstd::prelude::*;
use zip::ZipArchive;

verus! {

/// `std::io::Cursor`, of which nothing is known here.
#[verifier::external_type_specification]
#[verifier::external_body]
#[verifier::reject_recursive_types(T)]
pub struct ExCursor<T>(Cursor<T>);

/// `zip::ZipArchive`, of which nothing is known here but what the contracts
/// of this module say.
#[verifier::external_type_specification]
#[verifier::external_body]
#[verifier::reject_recursive_types(R)]
pub struct ExZipArchive<R>(ZipArchive<R>);

/// An archive over bytes in memory.
pub type Archive = ZipArchive<Cursor<Vec<u8>>>;

/// An entry as plain values. First its path, as the directory of the
/// archive gives it. Then whether the entry is found where the directory
/// places it. Then what comes of reading it: `None` where the entry cannot
/// be opened, `Some(None)` where it opens and reading it to its end fails,
/// `Some(Some(bytes))` where reading gives `bytes`.
pub type Entry = (Seq<char>, bool, Option<Option<Seq<u8>>>);

/// The entries of an archive, in the order of its directory.
pub uninterp spec fn archive_entries(archive: ZipArchive<Cursor<Vec<u8>>>) -> Seq<
    (Seq<char>, bool, Option<Option<Seq<u8>>>),
>;

/// The entries of the archive that the given bytes encode, in the order of
/// its directory; `None` where the bytes encode no archive that can be
/// opened.
pub uninterp spec fn zip_entries(data: Seq<u8>) -> Option<
    Seq<(Seq<char>, bool, Option<Option<Seq<u8>>>)>,
>;

/// The paths of the entries, in their order.
pub open spec fn entry_paths(entries: Seq<Entry>) -> Seq<Seq<char>> {
    entries.map_values(|entry: Entry| entry.0)
}

/// Whether every entry is found where the directory places it.
pub open spec fn all_found(entries: Seq<Entry>) -> bool {
    forall|i: int| 0 <= i < entries.len() ==> (#[trigger] entries[i]).1
}

/// What comes of asking for an entry by its path: what comes of the last
/// entry that has the path, and `None` where no entry has it.
pub open spec fn named_payload(entries: Seq<Entry>, name: Seq<char>) -> Option<Option<Seq<u8>>>
    decreases entries.len(),
{
    if entries.len() == 0 {
        None
    } else if entries.last().0 == name {
        entries.last().2
    } else {
        named_payload(entries.drop_last(), name)
    }
}

/// What an attempt to read an entry gave.
#[derive(Debug)]
pub enum EntryRead {
    /// The entry is absent or cannot be opened; the reason in words.
    Unopened(String),
    /// The entry opens and reading it fails; the reason in words.
    Unreadable(String),
    /// The bytes of the entry.
    Bytes(Vec<u8>),
}

impl EntryRead {
    /// The attempt as plain values, as the last part of an `Entry`.
    pub open spec fn payload(self) -> Option<Option<Seq<u8>>> {
        match self {
            EntryRead::Unopened(_) => None,
            EntryRead::Unreadable(_) => Some(None),
            EntryRead::Bytes(bytes) => Some(Some(bytes@)),
        }
    }
}

/// Opens the archive that the bytes encode. Calls `ZipArchive::new` on a
/// cursor over the bytes. The contract claims that whether this succeeds,
/// and which entries the archive then has, depends on the bytes alone.
#[verifier::external_body]
pub(crate) fn open_archive(data: Vec<u8>) -> (r: Result<Archive, String>)
    ensures
        match r {
            Ok(archive) => zip_entries(data@) == Some(archive_entries(archive)),
            Err(_) => zip_entries(data@) is None,
        },
{
    match ZipArchive::new(Cursor::new(data)) {
        Ok(archive) => Ok(archive),
        Err(e) => Err(e.to_string()),
    }
}

/// The number of entries. Calls `ZipArchive::len`.
#[verifier::external_body]
pub(crate) fn archive_len(archive: &Archive) -> (n: usize)
    ensures
        n == archive_entries(*archive).len(),
{
    archive.len()
}

/// The path of the entry at an index. Calls `ZipArchive::by_index_raw`,
/// which looks the entry up without opening what it holds, and then
/// `ZipFile::name`. The contract claims that this fails where the entry is
/// not found where the directory places it or the index is past the last
/// entry, gives the entry's path otherwise, and leaves the entries of the
/// archive as they were.
#[verifier::external_body]
pub(crate) fn entry_name(archive: &mut Archive, index: usize) -> (r: Result<String, String>)
    ensures
        archive_entries(*final(archive)) == archive_entries(*old(archive)),
        index >= archive_entries(*old(archive)).len() ==> r is Err,
        index < archive_entries(*old(archive)).len() ==> match r {
            Ok(name) => archive_entries(*old(archive))[index as int].1 && name@
                == archive_entries(*old(archive))[index as int].0,
            Err(_) => !archive_entries(*old(archive))[index as int].1,
        },
{
    match archive.by_index_raw(index) {
        Ok(file) => Ok(file.name().to_string()),
        Err(e) => Err(e.to_string()),
    }
}

/// Reads the entry at an index to its end. Calls
/// `ZipArchive::by_index_decrypt` with an empty password, which opens an
/// entry that needs no password as `by_index` does and fails where
/// `by_index` would not return, and then `read_to_end` on the entry. On an
/// entry that needs a password the crate tries the empty one; by its own
/// account it takes a wrong password for the right one on some entries,
/// and such an entry opens and then fails while it is read. The contract
/// claims that the outcome is the one that the archive's entries hold for
/// the index, that an index past the last entry opens nothing, and that the
/// entries of the archive stay as they were.
#[verifier::external_body]
pub(crate) fn read_entry(archive: &mut Archive, index: usize) -> (r: EntryRead)
    ensures
        archive_entries(*final(archive)) == archive_entries(*old(archive)),
        index >= archive_entries(*old(archive)).len() ==> r is Unopened,
        index < archive_entries(*old(archive)).len() ==> r.payload() == archive_entries(
            *old(archive),
        )[index as int].2,
{
    match archive.by_index_decrypt(index, &[]) {
        Ok(Ok(mut file)) => {
            let mut bytes = Vec::new();
            match file.read_to_end(&mut bytes) {
                Ok(_) => EntryRead::Bytes(bytes),
                Err(e) => EntryRead::Unreadable(e.to_string()),
            }
        },
        Ok(Err(e)) => EntryRead::Unopened(e.to_string()),
        Err(e) => EntryRead::Unopened(e.to_string()),
    }
}

/// Reads the entry with the given path to its end. Calls
/// `ZipArchive::by_name_decrypt` with an empty password, as `read_entry`
/// does by index, and then `read_to_end` on the entry. The crate looks the
/// path up in an index in which a later entry takes the place of an earlier
/// one with the same path; the contract claims that the outcome is the one
/// of the last entry with the path, that a path which no entry has opens
/// nothing, and that the entries of the archive stay as they were.
#[verifier::external_body]
pub(crate) fn read_named(archive: &mut Archive, name: &str) -> (r: EntryRead)
    ensures
        archive_entries(*final(archive)) == archive_entries(*old(archive)),
        r.payload() == named_payload(archive_entries(*old(archive)), name@),
{
    match archive.by_name_decrypt(name, &[]) {
        Ok(Ok(mut file)) => {
            let mut bytes = Vec::new();
            match file.read_to_end(&mut bytes) {
                Ok(_) => EntryRead::Bytes(bytes),
                Err(e) => EntryRead::Unreadable(e.to_string()),
            }
        },
        Ok(Err(e)) => EntryRead::Unopened(e.to_string()),
        Err(e) => EntryRead::Unopened(e.to_string()),
    }
}

} // verus!
