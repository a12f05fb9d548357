//! What a row of the explorer or a card of the grid shows.
use vstd::prelude::*;
use vstd::string::StringExecFns;

use crate::modes::{
    entry_size, entry_type, metadata_fill_position, EntryKind, EntryMetadata, MetadataValue,
};
use crate::text::{append_signed, decimal_int};

verus! {

/// An entry as a row needs it. Its location is known by a number.
#[derive(Debug)]
pub struct RowEntry {
    pub display_name: String,
    pub kind: EntryKind,
    pub metadata: EntryMetadata,
    pub location: u64,
}

impl RowEntry {
    /// Whether the entry is a directory or leads to one.
    pub open spec fn directory(self) -> bool {
        self.kind == EntryKind::Directory || self.kind == EntryKind::DirectorySymbolicLink
    }

    pub fn is_directory(&self) -> (directory: bool)
        ensures
            directory == self.directory(),
    {
        self.kind == EntryKind::Directory || self.kind == EntryKind::DirectorySymbolicLink
    }
}

/// What a bound row shows.
#[derive(Debug)]
pub enum RowBinding {
    /// An entry.
    Entry {
        label: String,
        cut: bool,
        /// Anything but a directory has a fainter icon.
        faint: bool,
        /// The position whose metadata should be asked for.
        fill: Option<usize>,
        type_label: &'static str,
        size: Option<u64>,
    },
    /// The field for the name of a new entry, with the icon of a directory or a file.
    NewEntry { directory_icon: bool },
}

/// What a row shows: the entry at its place in the list if there is one, or else the field
/// for a new entry.
pub fn bind_row(
    source: Option<usize>,
    entry: Option<&RowEntry>,
    cuts: &[u64],
    needs_mode: bool,
    creates_directory: bool,
) -> (binding: RowBinding)
    ensures
        match entry {
            None => binding == (RowBinding::NewEntry { directory_icon: creates_directory }),
            Some(entry) => binding matches RowBinding::Entry {
                label,
                cut,
                faint,
                fill,
                type_label,
                size,
            } && {
                &&& label@ == entry.display_name@
                &&& cut == cuts@.contains(entry.location)
                &&& faint == !entry.directory()
                &&& fill == if entry.metadata.size == MetadataValue::Unknown
                    || entry.metadata.modified == MetadataValue::Unknown || (needs_mode
                    && entry.metadata.mode == MetadataValue::Unknown) {
                    source
                } else {
                    None
                }
                &&& type_label@ == match entry.kind {
                    EntryKind::Directory => "Folder"@,
                    EntryKind::DirectorySymbolicLink => "Folder link"@,
                    EntryKind::File => "File"@,
                    EntryKind::FileSymbolicLink => "File link"@,
                    EntryKind::SymbolicLink => "Broken link"@,
                    EntryKind::Other => "Other"@,
                }
                &&& size == match entry.metadata.size {
                    MetadataValue::Known(bytes) if !entry.directory() => Some(bytes),
                    _ => None,
                }
            },
        },
{
    match entry {
        None => RowBinding::NewEntry { directory_icon: creates_directory },
        Some(entry) => {
            let directory: bool = entry.is_directory();
            RowBinding::Entry {
                label: entry.display_name.clone(),
                cut: is_listed(cuts, entry.location),
                faint: !directory,
                fill: metadata_fill_position(source, &entry.metadata, needs_mode),
                type_label: entry_type(entry.kind),
                size: entry_size(directory, entry.metadata.size),
            }
        },
    }
}

fn is_listed(numbers: &[u64], wanted: u64) -> (listed: bool)
    ensures
        listed == numbers@.contains(wanted),
{
    let mut index: usize = 0;
    while index < numbers.len()
        invariant
            index <= numbers.len(),
            forall|i: int| 0 <= i < index ==> numbers@[i] != wanted,
        decreases numbers.len() - index,
    {
        if numbers[index] == wanted {
            return true;
        }
        index = index + 1;
    }
    false
}

/// A thumbnail size in words.
pub fn thumbnail_size_label(size: i32) -> (label: String)
    ensures
        label@ == decimal_int(size as int) + " px"@,
{
    let mut label = String::new();
    append_signed(&mut label, size as i64);
    assert(label@ =~= decimal_int(size as int));
    label.append(" px");
    label
}

/// An entry is a directory if it is one or leads to one, and nothing else is.
pub proof fn directories_and_links_to_them(entry: RowEntry)
    ensures
        entry.directory() <==> entry.kind == EntryKind::Directory || entry.kind
            == EntryKind::DirectorySymbolicLink,
        entry.kind == EntryKind::File || entry.kind == EntryKind::FileSymbolicLink || entry.kind
            == EntryKind::SymbolicLink || entry.kind == EntryKind::Other ==> !entry.directory(),
{
}

} // verus!
